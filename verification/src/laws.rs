use vstd::prelude::*;
use crate::point::{Point, MeanPoint, angle_le, offset_vec_x, offset_vec_y};
use crate::lines::{Line, is_line_for, side_val, side_of, sides_of, iabs};

verus! {

/// The edge list read from a different starting edge, same traversal
/// direction: the first `k` descriptors move to the back.
pub open spec fn rotated_lines(s: Seq<Line>, k: int) -> Seq<Line>
    recommends
        0 <= k <= s.len(),
{
    s.subrange(k, s.len() as int) + s.subrange(0, k)
}

/// Listing the edges from a different starting point of the same
/// traversal rotates the reference signature and any query signature
/// alike, so whether a query point's sidedness vector equals the
/// reference vector does not depend on where the listing starts.
pub proof fn lemma_rotation_preserves_containment(
    ls: Seq<Line>,
    k: int,
    xn: int,
    yn: int,
    d: int,
    mxn: int,
    myn: int,
    md: int,
)
    requires
        0 <= k <= ls.len(),
    ensures
        (sides_of(rotated_lines(ls, k), xn, yn, d) == sides_of(rotated_lines(ls, k), mxn, myn, md))
            <==> (sides_of(ls, xn, yn, d) == sides_of(ls, mxn, myn, md)),
{
    let r = rotated_lines(ls, k);
    let n = ls.len() as int;
    assert(r.len() == n);
    if sides_of(r, xn, yn, d) == sides_of(r, mxn, myn, md) {
        assert forall|i: int| 0 <= i < n implies #[trigger] sides_of(ls, xn, yn, d)[i] == sides_of(
            ls,
            mxn,
            myn,
            md,
        )[i] by {
            let j = if i >= k {
                i - k
            } else {
                i + n - k
            };
            assert(r[j] == ls[i]);
            assert(sides_of(r, xn, yn, d)[j] == sides_of(r, mxn, myn, md)[j]);
        }
        assert(sides_of(ls, xn, yn, d) =~= sides_of(ls, mxn, myn, md));
    }
    if sides_of(ls, xn, yn, d) == sides_of(ls, mxn, myn, md) {
        assert forall|j: int| 0 <= j < n implies #[trigger] sides_of(r, xn, yn, d)[j] == sides_of(
            r,
            mxn,
            myn,
            md,
        )[j] by {
            let i = if j < n - k {
                j + k
            } else {
                j + k - n
            };
            assert(r[j] == ls[i]);
            assert(sides_of(ls, xn, yn, d)[i] == sides_of(ls, mxn, myn, md)[i]);
        }
        assert(sides_of(r, xn, yn, d) =~= sides_of(r, mxn, myn, md));
    }
}

/// A perfectly vertical edge (`dx == 0`) takes the reciprocal form and
/// its slope is the finite value zero: the denominator is the positive
/// vertical delta.
pub proof fn lemma_vertical_edge_reciprocal(l: Line, p: Point, q: Point)
    requires
        is_line_for(l, p, q),
        p.x == q.x,
        p.y != q.y,
    ensures
        l.is_reciprocal,
        l.slope.num == 0,
        l.slope.den > 0,
{
}

/// A perfectly horizontal edge (`dy == 0`) keeps the plain form and its
/// slope is the finite value zero: the denominator is the positive
/// horizontal delta.
pub proof fn lemma_horizontal_edge_plain(l: Line, p: Point, q: Point)
    requires
        is_line_for(l, p, q),
        p.y == q.y,
        p.x != q.x,
    ensures
        !l.is_reciprocal,
        l.slope.num == 0,
        l.slope.den > 0,
{
}

/// The boundary convention: a point whose implicit-form value against
/// an edge is exactly zero — a point on the edge's line — classifies on
/// the positive side of that edge.
pub proof fn lemma_on_edge_counts_positive(l: Line, xn: int, yn: int, d: int)
    requires
        side_val(l, xn, yn, d) == 0,
    ensures
        side_of(l, xn, yn, d),
{
}

/// Translating every point and the mean point by one common vector
/// leaves the angular order around the mean unchanged: the offset
/// vectors, and with them the pseudo-angles, do not move at all.
pub proof fn lemma_translation_preserves_angle_order(
    a: Point,
    b: Point,
    m: MeanPoint,
    a2: Point,
    b2: Point,
    m2: MeanPoint,
    tx: int,
    ty: int,
)
    requires
        a2.x == a.x + tx,
        a2.y == a.y + ty,
        b2.x == b.x + tx,
        b2.y == b.y + ty,
        m2.n == m.n,
        m2.sx == m.sx + m.n * tx,
        m2.sy == m.sy + m.n * ty,
    ensures
        angle_le(a2, b2, m2) == angle_le(a, b, m),
{
    assert(m.n * (a.x + tx) == m.n * a.x + m.n * tx) by (nonlinear_arith);
    assert(m.n * (a.y + ty) == m.n * a.y + m.n * ty) by (nonlinear_arith);
    assert(m.n * (b.x + tx) == m.n * b.x + m.n * tx) by (nonlinear_arith);
    assert(m.n * (b.y + ty) == m.n * b.y + m.n * ty) by (nonlinear_arith);
    assert(offset_vec_x(a2, m2) == offset_vec_x(a, m));
    assert(offset_vec_y(a2, m2) == offset_vec_y(a, m));
    assert(offset_vec_x(b2, m2) == offset_vec_x(b, m));
    assert(offset_vec_y(b2, m2) == offset_vec_y(b, m));
}

/// Translating both edge endpoints and the query point by one common
/// vector leaves the query's sidedness against that edge unchanged: the
/// deltas, the branch choice and the slope are translation-invariant,
/// and the offset shifts by exactly the amount the query point does.
pub proof fn lemma_translation_preserves_side(
    la: Line,
    pa: Point,
    qa: Point,
    lb: Line,
    pb: Point,
    qb: Point,
    xa: int,
    ya: int,
    xb: int,
    yb: int,
    tx: int,
    ty: int,
)
    requires
        is_line_for(la, pa, qa),
        is_line_for(lb, pb, qb),
        pb.x == pa.x + tx,
        pb.y == pa.y + ty,
        qb.x == qa.x + tx,
        qb.y == qa.y + ty,
        xb == xa + tx,
        yb == ya + ty,
    ensures
        side_of(lb, xb, yb, 1) == side_of(la, xa, ya, 1),
{
    let dy = pa.y - qa.y;
    let dx = pa.x - qa.x;
    assert(pb.y - qb.y == dy);
    assert(pb.x - qb.x == dx);
    if iabs(dy) > iabs(dx) {
        assert(xb * dy - dx * yb - ((pa.x + tx) * dy - dx * (pa.y + ty)) == xa * dy - dx * ya - (
        pa.x * dy - dx * pa.y)) by (nonlinear_arith)
            requires
                xb == xa + tx,
                yb == ya + ty,
        {
        }
        if dy >= 0 {
            assert(side_val(lb, xb, yb, 1) == side_val(la, xa, ya, 1));
        } else {
            assert(xb * (-dy) - (-dx) * yb - (-((pa.x + tx) * dy - dx * (pa.y + ty))) == xa * (-dy)
                - (-dx) * ya - (-(pa.x * dy - dx * pa.y))) by (nonlinear_arith)
                requires
                    xb == xa + tx,
                    yb == ya + ty,
            {
            }
            assert(side_val(lb, xb, yb, 1) == side_val(la, xa, ya, 1));
        }
    } else {
        assert(yb * dx - dy * xb - ((pa.y + ty) * dx - dy * (pa.x + tx)) == ya * dx - dy * xa - (
        pa.y * dx - dy * pa.x)) by (nonlinear_arith)
            requires
                xb == xa + tx,
                yb == ya + ty,
        {
        }
        if dx >= 0 {
            assert(side_val(lb, xb, yb, 1) == side_val(la, xa, ya, 1));
        } else {
            assert(yb * (-dx) - (-dy) * xb - (-((pa.y + ty) * dx - dy * (pa.x + tx))) == ya * (-dx)
                - (-dy) * xa - (-(pa.y * dx - dy * pa.x))) by (nonlinear_arith)
                requires
                    xb == xa + tx,
                    yb == ya + ty,
            {
            }
            assert(side_val(lb, xb, yb, 1) == side_val(la, xa, ya, 1));
        }
    }
}

} // verus!
