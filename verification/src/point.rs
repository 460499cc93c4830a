use vstd::prelude::*;
use crate::rat::{Rat, rat_wf};

verus! {

/// Largest coordinate magnitude the library accepts. Coordinates live on
/// an integer grid of the caller's chosen resolution; this cap keeps every
/// intermediate product of the exact arithmetic inside `i128`.
pub const COORD_LIMIT: i64 = 1_000_000_000_000;

/// Largest number of vertices the library accepts, for the same reason.
pub const MAX_POINTS: usize = 1_000_000;

/// A 2-D point on the integer grid. Immutable value type.
#[derive(Clone, Copy, Debug, PartialEq, Eq, Structural)]
pub struct Point {
    pub x: i64,
    pub y: i64,
}

/// Numerator of the pseudo-angle of the vector `(x, y)`: see `Point::atan2`.
pub open spec fn pseudo_angle_num(x: int, y: int) -> int {
    if y > 0 {
        if x >= 0 {
            y
        } else {
            y - 2 * x
        }
    } else if y < 0 {
        if x < 0 {
            2 * x + y
        } else {
            y
        }
    } else {
        if x >= 0 {
            0
        } else {
            2
        }
    }
}

/// Denominator of the pseudo-angle of the vector `(x, y)`. Strictly
/// positive for every vector other than the origin.
pub open spec fn pseudo_angle_den(x: int, y: int) -> int {
    if y > 0 {
        if x >= 0 {
            x + y
        } else {
            y - x
        }
    } else if y < 0 {
        if x < 0 {
            -x - y
        } else {
            x - y
        }
    } else {
        1
    }
}

/// Computes the pseudo-angle of `(x, y)` as an exact rational.
pub fn pseudo_angle(x: i128, y: i128) -> (r: Rat)
    requires
        !(x == 0 && y == 0),
        -100_000_000_000_000_000_000 <= x <= 100_000_000_000_000_000_000,
        -100_000_000_000_000_000_000 <= y <= 100_000_000_000_000_000_000,
    ensures
        rat_wf(r),
        r.num == pseudo_angle_num(x as int, y as int),
        r.den == pseudo_angle_den(x as int, y as int),
{
    if y > 0 {
        if x >= 0 {
            Rat { num: y, den: x + y }
        } else {
            Rat { num: y - 2 * x, den: y - x }
        }
    } else if y < 0 {
        if x < 0 {
            Rat { num: 2 * x + y, den: -x - y }
        } else {
            Rat { num: y, den: x - y }
        }
    } else {
        if x >= 0 {
            Rat { num: 0, den: 1 }
        } else {
            Rat { num: 2, den: 1 }
        }
    }
}

/// The pseudo-angle's parts stay within small multiples of the vector's
/// own magnitude, so later cross-multiplications stay inside `i128`.
pub proof fn lemma_pseudo_angle_bounds(x: int, y: int, m: int)
    requires
        -m <= x <= m,
        -m <= y <= m,
        0 <= m,
    ensures
        -4 * m - 2 <= pseudo_angle_num(x, y) <= 4 * m + 2,
        0 < pseudo_angle_den(x, y) <= 2 * m + 1,
{
}

impl Point {
    /// Builds the point `(x, y)`.
    pub fn new(x: i64, y: i64) -> (r: Self)
        ensures
            r.x == x,
            r.y == y,
    {
        Point { x, y }
    }

    /// Exact stand-in for the polar angle `atan2(self.y, self.x)` of the
    /// point read as a vector from the origin: a rational in `(-2, 2]`
    /// whose ordering agrees everywhere with the ordering of `atan2`,
    /// quadrant by quadrant. Undefined at the origin, which is excluded,
    /// just as `atan2(0, 0)` has no meaningful direction.
    pub fn atan2(self) -> (r: Rat)
        requires
            !(self.x == 0 && self.y == 0),
        ensures
            rat_wf(r),
            r.num == pseudo_angle_num(self.x as int, self.y as int),
            r.den == pseudo_angle_den(self.x as int, self.y as int),
    {
        pseudo_angle(self.x as i128, self.y as i128)
    }

    /// Component-wise vector addition.
    pub fn add(self, rhs: Self) -> (r: Self)
        requires
            i64::MIN <= self.x + rhs.x <= i64::MAX,
            i64::MIN <= self.y + rhs.y <= i64::MAX,
        ensures
            r.x == self.x + rhs.x,
            r.y == self.y + rhs.y,
    {
        Point { x: self.x + rhs.x, y: self.y + rhs.y }
    }
}

/// The arithmetic mean of a point set, kept exact: the coordinates are
/// `sx / n` and `sy / n`, where `sx` and `sy` are coordinate sums over
/// the `n` points.
#[derive(Clone, Copy, Debug)]
pub struct MeanPoint {
    pub sx: i128,
    pub sy: i128,
    pub n: i128,
}

/// Well-formedness of a mean point: at least one point went into the
/// mean, the count is within the library's cap, and both coordinates of
/// the mean lie within the coordinate cap.
pub open spec fn mean_wf(m: MeanPoint) -> bool {
    &&& 1 <= m.n <= MAX_POINTS as int
    &&& -(m.n as int) * (COORD_LIMIT as int) <= m.sx as int <= (m.n as int) * (COORD_LIMIT as int)
    &&& -(m.n as int) * (COORD_LIMIT as int) <= m.sy as int <= (m.n as int) * (COORD_LIMIT as int)
}

impl MeanPoint {
    /// The exact x coordinate of the mean.
    pub fn x(&self) -> (r: Rat)
        requires
            self.n > 0,
        ensures
            rat_wf(r),
            r.num == self.sx,
            r.den == self.n,
    {
        Rat { num: self.sx, den: self.n }
    }

    /// The exact y coordinate of the mean.
    pub fn y(&self) -> (r: Rat)
        requires
            self.n > 0,
        ensures
            rat_wf(r),
            r.num == self.sy,
            r.den == self.n,
    {
        Rat { num: self.sy, den: self.n }
    }
}

/// x component of the offset vector from the mean to `p`, scaled by the
/// (positive) count `m.n`; the scaling leaves its direction unchanged.
pub open spec fn offset_vec_x(p: Point, m: MeanPoint) -> int {
    m.n * p.x - m.sx
}

/// y component of the scaled offset vector from the mean to `p`.
pub open spec fn offset_vec_y(p: Point, m: MeanPoint) -> int {
    m.n * p.y - m.sy
}

/// `p` does not coincide with the mean point.
pub open spec fn off_mean(p: Point, m: MeanPoint) -> bool {
    !(offset_vec_x(p, m) == 0 && offset_vec_y(p, m) == 0)
}

/// Numerator of the pseudo-angle of `p` as seen from the mean point.
pub open spec fn angle_num(p: Point, m: MeanPoint) -> int {
    pseudo_angle_num(offset_vec_x(p, m), offset_vec_y(p, m))
}

/// Denominator of the pseudo-angle of `p` as seen from the mean point.
pub open spec fn angle_den(p: Point, m: MeanPoint) -> int {
    pseudo_angle_den(offset_vec_x(p, m), offset_vec_y(p, m))
}

/// The angle of `p` around the mean is at most the angle of `q`,
/// comparing the exact pseudo-angles in cross-multiplied form.
pub open spec fn angle_le(p: Point, q: Point, m: MeanPoint) -> bool {
    angle_num(p, m) * angle_den(q, m) <= angle_num(q, m) * angle_den(p, m)
}

/// All points of `s` lie on the accepted coordinate grid.
pub open spec fn coords_bounded(s: Seq<Point>) -> bool {
    forall|i: int|
        0 <= i < s.len() ==> -COORD_LIMIT <= #[trigger] s[i].x <= COORD_LIMIT
            && -COORD_LIMIT <= s[i].y <= COORD_LIMIT
}

/// No point of `s` coincides with the mean point `m`.
pub open spec fn all_off_mean(s: Seq<Point>, m: MeanPoint) -> bool {
    forall|i: int| 0 <= i < s.len() ==> off_mean(#[trigger] s[i], m)
}

/// The points of `s` are ordered by descending angle around `m`.
pub open spec fn sorted_desc(s: Seq<Point>, m: MeanPoint) -> bool {
    forall|i: int, j: int|
        0 <= i <= j < s.len() ==> angle_le(#[trigger] s[j], #[trigger] s[i], m)
}

/// Decides whether `p` differs from the mean point `m`.
pub fn is_off_mean(p: &Point, m: &MeanPoint) -> (r: bool)
    requires
        mean_wf(*m),
        -COORD_LIMIT <= p.x <= COORD_LIMIT,
        -COORD_LIMIT <= p.y <= COORD_LIMIT,
    ensures
        r == off_mean(*p, *m),
{
    proof {
        lemma_scaled_coord_bound(m.n as int, p.x as int, m.sx as int);
        lemma_scaled_coord_bound(m.n as int, p.y as int, m.sy as int);
    }
    let vx = m.n * (p.x as i128) - m.sx;
    let vy = m.n * (p.y as i128) - m.sy;
    !(vx == 0 && vy == 0)
}

/// The pseudo-angle denominator of any vector other than the zero
/// vector is strictly positive.
pub proof fn lemma_angle_den_pos(p: Point, m: MeanPoint)
    requires
        off_mean(p, m),
    ensures
        angle_den(p, m) > 0,
{
}

/// The angular order around a fixed mean point is transitive.
pub proof fn lemma_angle_le_trans(a: Point, b: Point, c: Point, m: MeanPoint)
    requires
        off_mean(a, m),
        off_mean(b, m),
        off_mean(c, m),
        angle_le(a, b, m),
        angle_le(b, c, m),
    ensures
        angle_le(a, c, m),
{
    lemma_angle_den_pos(a, m);
    lemma_angle_den_pos(b, m);
    lemma_angle_den_pos(c, m);
    crate::rat::lemma_frac_le_trans(
        angle_num(a, m),
        angle_den(a, m),
        angle_num(b, m),
        angle_den(b, m),
        angle_num(c, m),
        angle_den(c, m),
    );
}

/// Decides whether the angle of `b` around `m` is strictly greater than
/// the angle of `a`, i.e. whether a descending ordering must place `b`
/// before `a`.
pub fn angle_gt(a: &Point, b: &Point, m: &MeanPoint) -> (r: bool)
    requires
        mean_wf(*m),
        -COORD_LIMIT <= a.x <= COORD_LIMIT,
        -COORD_LIMIT <= a.y <= COORD_LIMIT,
        -COORD_LIMIT <= b.x <= COORD_LIMIT,
        -COORD_LIMIT <= b.y <= COORD_LIMIT,
        off_mean(*a, *m),
        off_mean(*b, *m),
    ensures
        r == !angle_le(*b, *a, *m),
{
    proof {
        lemma_scaled_coord_bound(m.n as int, a.x as int, m.sx as int);
        lemma_scaled_coord_bound(m.n as int, a.y as int, m.sy as int);
        lemma_scaled_coord_bound(m.n as int, b.x as int, m.sx as int);
        lemma_scaled_coord_bound(m.n as int, b.y as int, m.sy as int);
    }
    let ax = m.n * (a.x as i128) - m.sx;
    let ay = m.n * (a.y as i128) - m.sy;
    let bx = m.n * (b.x as i128) - m.sx;
    let by = m.n * (b.y as i128) - m.sy;
    let ka = pseudo_angle(ax, ay);
    let kb = pseudo_angle(bx, by);
    proof {
        lemma_pseudo_angle_bounds(ax as int, ay as int, 2_000_000_000_000_000_000);
        lemma_pseudo_angle_bounds(bx as int, by as int, 2_000_000_000_000_000_000);
        lemma_mul_bound(ka.num as int, kb.den as int);
        lemma_mul_bound(kb.num as int, ka.den as int);
    }
    ka.num * kb.den < kb.num * ka.den
}

/// For a capped count and capped coordinates, the scaled offset vector
/// component `n * c - s` stays within twice the scaled coordinate cap.
proof fn lemma_scaled_coord_bound(n: int, c: int, s: int)
    requires
        1 <= n <= MAX_POINTS as int,
        -(COORD_LIMIT as int) <= c <= COORD_LIMIT as int,
        -n * (COORD_LIMIT as int) <= s <= n * (COORD_LIMIT as int),
    ensures
        -1_000_000_000_000_000_000 <= n * c <= 1_000_000_000_000_000_000,
        -2_000_000_000_000_000_000 <= n * c - s <= 2_000_000_000_000_000_000,
{
    assert(-1_000_000_000_000_000_000 <= n * c <= 1_000_000_000_000_000_000
        && -1_000_000_000_000_000_000 <= s <= 1_000_000_000_000_000_000) by (nonlinear_arith)
        requires
            1 <= n <= 1_000_000,
            -1_000_000_000_000 <= c <= 1_000_000_000_000,
            -n * 1_000_000_000_000 <= s <= n * 1_000_000_000_000,
    {
    }
}

/// Products of pseudo-angle parts coming from capped offset vectors fit
/// comfortably inside `i128`.
proof fn lemma_mul_bound(a: int, b: int)
    requires
        -9_000_000_000_000_000_000 <= a <= 9_000_000_000_000_000_000,
        -9_000_000_000_000_000_000 <= b <= 9_000_000_000_000_000_000,
    ensures
        -81_000_000_000_000_000_000_000_000_000_000_000_000 <= a * b
            <= 81_000_000_000_000_000_000_000_000_000_000_000_000,
{
    assert(-81_000_000_000_000_000_000_000_000_000_000_000_000 <= a * b
        <= 81_000_000_000_000_000_000_000_000_000_000_000_000) by (nonlinear_arith)
        requires
            -9_000_000_000_000_000_000 <= a <= 9_000_000_000_000_000_000,
            -9_000_000_000_000_000_000 <= b <= 9_000_000_000_000_000_000,
    {
    }
}

} // verus!
