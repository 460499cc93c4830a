use vstd::prelude::*;
use crate::rat::{Rat, rat_is, lemma_mul_range};
use crate::point::{Point, MeanPoint, COORD_LIMIT, MAX_POINTS, mean_wf};

verus! {

/// One polygon edge as a line in slope–offset form. The line is either
/// `y = slope * x + offset` (`is_reciprocal` false) or, with the axes
/// swapped so that a steep edge keeps a small slope and a nonzero
/// denominator, `x = slope * y + offset` (`is_reciprocal` true).
/// Immutable once derived.
#[derive(Clone, Copy, Debug)]
pub struct Line {
    pub slope: Rat,
    pub offset: Rat,
    pub is_reciprocal: bool,
}

/// Magnitude of an integer.
pub open spec fn iabs(v: int) -> int {
    if v >= 0 {
        v
    } else {
        -v
    }
}

/// Well-formedness of an edge descriptor derived from capped grid
/// points: slope and offset share one strictly positive denominator (the
/// coordinate delta along the chosen independent axis), and all parts
/// stay within the ranges that capped coordinates allow.
pub open spec fn line_wf(l: Line) -> bool {
    &&& 0 < l.slope.den <= 2 * (COORD_LIMIT as int)
    &&& l.offset.den == l.slope.den
    &&& -2 * (COORD_LIMIT as int) <= l.slope.num <= 2 * (COORD_LIMIT as int)
    &&& -4 * (COORD_LIMIT as int) * (COORD_LIMIT as int) <= l.offset.num
        <= 4 * (COORD_LIMIT as int) * (COORD_LIMIT as int)
}

/// `l` is the edge descriptor this library derives for the directed
/// vertex pair `(p, q)`. With `dy = p.y - q.y` and `dx = p.x - q.x`, a
/// steep edge (`|dy| > |dx|`) uses the reciprocal form `x = slope * y +
/// offset` with `slope = dx / dy` and `offset = p.x - slope * p.y`; any
/// other edge uses `y = slope * x + offset` with `slope = dy / dx` and
/// `offset = p.y - slope * p.x`. The chosen denominator is the larger
/// delta, so it is nonzero whenever `p != q`; an exact tie `|dy| == |dx|`
/// falls to the non-reciprocal branch.
pub open spec fn is_line_for(l: Line, p: Point, q: Point) -> bool {
    let dy = p.y - q.y;
    let dx = p.x - q.x;
    if iabs(dy) > iabs(dx) {
        &&& l.is_reciprocal
        &&& rat_is(l.slope, dx, dy)
        &&& rat_is(l.offset, p.x * dy - dx * p.y, dy)
    } else {
        &&& !l.is_reciprocal
        &&& rat_is(l.slope, dy, dx)
        &&& rat_is(l.offset, p.y * dx - dy * p.x, dx)
    }
}

/// Derives the edge descriptor for the directed vertex pair `(p, q)`.
pub fn line_from_points(p: Point, q: Point) -> (l: Line)
    requires
        -COORD_LIMIT <= p.x <= COORD_LIMIT,
        -COORD_LIMIT <= p.y <= COORD_LIMIT,
        -COORD_LIMIT <= q.x <= COORD_LIMIT,
        -COORD_LIMIT <= q.y <= COORD_LIMIT,
        p != q,
    ensures
        is_line_for(l, p, q),
        line_wf(l),
{
    let dy = (p.y as i128) - (q.y as i128);
    let dx = (p.x as i128) - (q.x as i128);
    let ady = if dy < 0 { -dy } else { dy };
    let adx = if dx < 0 { -dx } else { dx };
    proof {
        lemma_mul_range(p.x as int, dy as int, COORD_LIMIT as int, 2 * (COORD_LIMIT as int));
        lemma_mul_range(dx as int, p.y as int, 2 * (COORD_LIMIT as int), COORD_LIMIT as int);
        lemma_mul_range(p.y as int, dx as int, COORD_LIMIT as int, 2 * (COORD_LIMIT as int));
        lemma_mul_range(dy as int, p.x as int, 2 * (COORD_LIMIT as int), COORD_LIMIT as int);
    }
    if ady > adx {
        let slope = Rat::new(dx, dy);
        let offset = Rat::new((p.x as i128) * dy - dx * (p.y as i128), dy);
        Line { slope, offset, is_reciprocal: true }
    } else {
        let slope = Rat::new(dy, dx);
        let offset = Rat::new((p.y as i128) * dx - dy * (p.x as i128), dx);
        Line { slope, offset, is_reciprocal: false }
    }
}

/// The implicit form of edge `l` evaluated at the rational point
/// `(xn / d, yn / d)`, scaled by the strictly positive factor
/// `l.slope.den * d`. The scaling keeps the arithmetic in integers and
/// leaves the sign unchanged: for a non-reciprocal edge this is
/// `(y - slope * x - offset) * slope.den * d`, for a reciprocal edge
/// `(x - slope * y - offset) * slope.den * d`.
pub open spec fn side_val(l: Line, xn: int, yn: int, d: int) -> int {
    if l.is_reciprocal {
        xn * l.slope.den - l.slope.num * yn - l.offset.num * d
    } else {
        yn * l.slope.den - l.slope.num * xn - l.offset.num * d
    }
}

/// The rational point `(xn / d, yn / d)` lies on the positive side of
/// edge `l`, where a value of exactly zero — a point on the line itself —
/// counts as positive — the inclusive-boundary convention, the exact
/// analogue of treating `0.0` as a sign-positive value.
pub open spec fn side_of(l: Line, xn: int, yn: int, d: int) -> bool {
    side_val(l, xn, yn, d) >= 0
}

/// The per-edge sidedness vector of the rational point `(xn / d, yn / d)`.
pub open spec fn sides_of(ls: Seq<Line>, xn: int, yn: int, d: int) -> Seq<bool> {
    Seq::new(ls.len(), |i: int| side_of(ls[i], xn, yn, d))
}

/// All edge descriptors of `ls` are well formed.
pub open spec fn lines_wf(ls: Seq<Line>) -> bool {
    forall|i: int| 0 <= i < ls.len() ==> line_wf(#[trigger] ls[i])
}

/// Decides the sidedness of the rational point `(xn / d, yn / d)`
/// against one edge.
fn side_exec(l: &Line, xn: i128, yn: i128, d: i128) -> (r: bool)
    requires
        line_wf(*l),
        -1_000_000_000_000_000_000 <= xn <= 1_000_000_000_000_000_000,
        -1_000_000_000_000_000_000 <= yn <= 1_000_000_000_000_000_000,
        1 <= d <= MAX_POINTS,
    ensures
        r == side_of(*l, xn as int, yn as int, d as int),
{
    proof {
        lemma_mul_range(xn as int, l.slope.den as int, 1_000_000_000_000_000_000, 2 * (COORD_LIMIT as int));
        lemma_mul_range(yn as int, l.slope.den as int, 1_000_000_000_000_000_000, 2 * (COORD_LIMIT as int));
        lemma_mul_range(l.slope.num as int, xn as int, 2 * (COORD_LIMIT as int), 1_000_000_000_000_000_000);
        lemma_mul_range(l.slope.num as int, yn as int, 2 * (COORD_LIMIT as int), 1_000_000_000_000_000_000);
        lemma_mul_range(
            l.offset.num as int,
            d as int,
            4 * (COORD_LIMIT as int) * (COORD_LIMIT as int),
            MAX_POINTS as int,
        );
    }
    let v = if l.is_reciprocal {
        xn * l.slope.den - l.slope.num * yn - l.offset.num * d
    } else {
        yn * l.slope.den - l.slope.num * xn - l.offset.num * d
    };
    v >= 0
}

/// The edge descriptors of a polygon, one per edge, in traversal order:
/// edge `i` joins ordered vertex `i` to ordered vertex `(i + 1) mod n`.
#[derive(Clone, Debug)]
pub struct Lines(pub Vec<Line>);

impl Lines {
    /// Records, edge by edge, whether `point` lies on the positive side
    /// of the edge's line — the point's sidedness vector.
    pub fn point_over_under_lines(&self, point: Point) -> (r: Vec<bool>)
        requires
            lines_wf(self.0@),
            -COORD_LIMIT <= point.x <= COORD_LIMIT,
            -COORD_LIMIT <= point.y <= COORD_LIMIT,
        ensures
            r@ == sides_of(self.0@, point.x as int, point.y as int, 1),
    {
        let mut r: Vec<bool> = Vec::new();
        let mut i: usize = 0;
        while i < self.0.len()
            invariant
                i <= self.0.len(),
                lines_wf(self.0@),
                -COORD_LIMIT <= point.x <= COORD_LIMIT,
                -COORD_LIMIT <= point.y <= COORD_LIMIT,
                r@.len() == i,
                forall|k: int|
                    0 <= k < i ==> r@[k] == side_of(self.0@[k], point.x as int, point.y as int, 1),
            decreases self.0.len() - i,
        {
            let s = side_exec(&self.0[i], point.x as i128, point.y as i128, 1);
            r.push(s);
            i = i + 1;
        }
        proof {
            assert(r@ =~= sides_of(self.0@, point.x as int, point.y as int, 1));
        }
        r
    }

    /// The sidedness vector of the exact mean point — the reference
    /// signature every interior point must match.
    pub fn mean_point_over_under_lines(&self, m: &MeanPoint) -> (r: Vec<bool>)
        requires
            lines_wf(self.0@),
            mean_wf(*m),
        ensures
            r@ == sides_of(self.0@, m.sx as int, m.sy as int, m.n as int),
    {
        let mut r: Vec<bool> = Vec::new();
        let mut i: usize = 0;
        while i < self.0.len()
            invariant
                i <= self.0.len(),
                lines_wf(self.0@),
                mean_wf(*m),
                r@.len() == i,
                forall|k: int|
                    0 <= k < i ==> r@[k] == side_of(self.0@[k], m.sx as int, m.sy as int, m.n as int),
            decreases self.0.len() - i,
        {
            let s = side_exec(&self.0[i], m.sx, m.sy, m.n);
            r.push(s);
            i = i + 1;
        }
        proof {
            assert(r@ =~= sides_of(self.0@, m.sx as int, m.sy as int, m.n as int));
        }
        r
    }

    /// A point is inside the polygon exactly when its sidedness vector
    /// equals the reference vector, index for index. With the reference
    /// taken at the centroid this includes points on the boundary, whose
    /// zero entries count as positive.
    pub fn point_is_inside_polygon(&self, point: Point, midpoint_over_under_lines: &Vec<bool>) -> (r:
        bool)
        requires
            lines_wf(self.0@),
            -COORD_LIMIT <= point.x <= COORD_LIMIT,
            -COORD_LIMIT <= point.y <= COORD_LIMIT,
        ensures
            r <==> sides_of(self.0@, point.x as int, point.y as int, 1)
                == midpoint_over_under_lines@,
    {
        let point_over_under_lines = self.point_over_under_lines(point);
        if point_over_under_lines.len() != midpoint_over_under_lines.len() {
            proof {
                assert(sides_of(self.0@, point.x as int, point.y as int, 1).len()
                    != midpoint_over_under_lines@.len());
            }
            return false;
        }
        let mut i: usize = 0;
        while i < point_over_under_lines.len()
            invariant
                i <= point_over_under_lines.len(),
                point_over_under_lines@.len() == midpoint_over_under_lines@.len(),
                point_over_under_lines@ == sides_of(self.0@, point.x as int, point.y as int, 1),
                forall|k: int| 0 <= k < i ==> point_over_under_lines@[k] == midpoint_over_under_lines@[k],
            decreases point_over_under_lines.len() - i,
        {
            if point_over_under_lines[i] != midpoint_over_under_lines[i] {
                return false;
            }
            i = i + 1;
        }
        proof {
            assert(point_over_under_lines@ =~= midpoint_over_under_lines@);
        }
        true
    }
}

} // verus!
