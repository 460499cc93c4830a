use vstd::prelude::*;

verus! {

/// An exact rational value `num / den`. Every constructor in this crate
/// keeps the denominator strictly positive, so the sign of the value is
/// the sign of the numerator.
#[derive(Clone, Copy, Debug)]
pub struct Rat {
    pub num: i128,
    pub den: i128,
}

/// Well-formedness: the denominator is strictly positive.
pub open spec fn rat_wf(r: Rat) -> bool {
    r.den > 0
}

/// `r` represents the value `n / d` in the normalized form whose
/// denominator is positive and whose sign sits on the numerator.
pub open spec fn rat_is(r: Rat, n: int, d: int) -> bool {
    if d >= 0 {
        r.num == n && r.den == d
    } else {
        r.num == -n && r.den == -d
    }
}

impl Rat {
    /// Builds the rational `n / d`, normalizing the sign onto the numerator.
    pub fn new(n: i128, d: i128) -> (r: Rat)
        requires
            d != 0,
            i128::MIN < n,
            i128::MIN < d,
        ensures
            rat_wf(r),
            rat_is(r, n as int, d as int),
    {
        if d < 0 {
            Rat { num: -n, den: -d }
        } else {
            Rat { num: n, den: d }
        }
    }

}

/// A product of two factors within known magnitudes stays within the
/// product of the magnitudes.
pub proof fn lemma_mul_range(a: int, b: int, ma: int, mb: int)
    requires
        -ma <= a <= ma,
        -mb <= b <= mb,
        0 <= ma,
        0 <= mb,
    ensures
        -ma * mb <= a * b <= ma * mb,
{
    assert(-ma * mb <= a * b <= ma * mb) by (nonlinear_arith)
        requires
            -ma <= a <= ma,
            -mb <= b <= mb,
            0 <= ma,
            0 <= mb,
    {
    }
}

/// Transitivity of the cross-multiplied order on fractions with
/// positive denominators: `an/ad <= bn/bd` and `bn/bd <= cn/cd` give
/// `an/ad <= cn/cd`.
pub proof fn lemma_frac_le_trans(an: int, ad: int, bn: int, bd: int, cn: int, cd: int)
    requires
        ad > 0,
        bd > 0,
        cd > 0,
        an * bd <= bn * ad,
        bn * cd <= cn * bd,
    ensures
        an * cd <= cn * ad,
{
    assert(an * cd <= cn * ad) by (nonlinear_arith)
        requires
            an * bd <= bn * ad,
            bn * cd <= cn * bd,
            ad > 0,
            bd > 0,
            cd > 0,
    {
    }
}

} // verus!
