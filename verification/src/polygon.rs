use vstd::prelude::*;
use crate::point::{
    Point, MeanPoint, COORD_LIMIT, MAX_POINTS, mean_wf, coords_bounded, all_off_mean, off_mean,
    sorted_desc, is_off_mean,
};
use crate::points::{Points, sum_x, sum_y, adjacent_distinct};
use crate::lines::{Lines, is_line_for, lines_wf, sides_of};

verus! {

/// Why a point set was rejected as a polygon.
#[derive(Clone, Copy, Debug, PartialEq, Eq, Structural)]
pub enum GeometryError {
    /// Fewer than three points were supplied.
    InvalidPolygon,
    /// The geometry is degenerate: a vertex coincides with the
    /// centroid (its winding angle is undefined), or a duplicated
    /// vertex would produce a zero-length edge.
    DegenerateGeometry,
}

/// A convex polygon readied for containment queries: the vertices in
/// winding order, their exact centroid, one line descriptor per edge,
/// and the centroid's sidedness vector as the reference signature.
/// Built once by `build_polygon` and read-only afterwards.
#[derive(Clone, Debug)]
pub struct Polygon {
    pub points: Points,
    pub midpoint: MeanPoint,
    pub lines: Lines,
    pub reference: Vec<bool>,
}

/// Some vertex of `s` coincides with the arithmetic mean of `s`.
pub open spec fn vertex_at_mean(s: Seq<Point>) -> bool {
    exists|i: int|
        0 <= i < s.len() && (s.len() as int) * ((#[trigger] s[i]).x as int) == sum_x(s) && (
        s.len() as int) * (s[i].y as int) == sum_y(s)
}

/// Everything `build_polygon` establishes: the stored vertices are
/// winding-ordered around their exact centroid, every edge descriptor
/// matches its consecutive vertex pair, and the reference vector is the
/// centroid's sidedness vector.
pub open spec fn polygon_wf(p: Polygon) -> bool {
    &&& 3 <= p.points.list@.len() <= MAX_POINTS
    &&& coords_bounded(p.points.list@)
    &&& p.midpoint.n == p.points.list@.len()
    &&& p.midpoint.sx == sum_x(p.points.list@)
    &&& p.midpoint.sy == sum_y(p.points.list@)
    &&& mean_wf(p.midpoint)
    &&& all_off_mean(p.points.list@, p.midpoint)
    &&& sorted_desc(p.points.list@, p.midpoint)
    &&& adjacent_distinct(p.points.list@)
    &&& p.lines.0@.len() == p.points.list@.len()
    &&& lines_wf(p.lines.0@)
    &&& (forall|i: int|
        0 <= i < p.points.list@.len() ==> is_line_for(
            #[trigger] p.lines.0@[i],
            p.points.list@[i],
            p.points.list@[(i + 1) % (p.points.list@.len() as int)],
        ))
    &&& p.reference@ == sides_of(
        p.lines.0@,
        p.midpoint.sx as int,
        p.midpoint.sy as int,
        p.midpoint.n as int,
    )
}

/// Checks that no vertex coincides with the mean point.
fn scan_off_mean(pts: &Points, m: &MeanPoint) -> (r: bool)
    requires
        pts.list@.len() <= MAX_POINTS,
        coords_bounded(pts.list@),
        mean_wf(*m),
    ensures
        r == all_off_mean(pts.list@, *m),
{
    let n = pts.list.len();
    let mut i: usize = 0;
    while i < n
        invariant
            n == pts.list.len(),
            n <= MAX_POINTS,
            coords_bounded(pts.list@),
            mean_wf(*m),
            i <= n,
            forall|k: int| 0 <= k < i ==> off_mean(#[trigger] pts.list@[k], *m),
        decreases n - i,
    {
        if !is_off_mean(&pts.list[i], m) {
            return false;
        }
        i = i + 1;
    }
    true
}

/// Checks that consecutive vertices, wrap-around pair included, are
/// pairwise distinct.
fn scan_adjacent_distinct(pts: &Points) -> (r: bool)
    requires
        pts.list@.len() >= 1,
    ensures
        r == adjacent_distinct(pts.list@),
{
    let n = pts.list.len();
    let mut i: usize = 0;
    while i < n
        invariant
            n == pts.list.len(),
            1 <= n,
            i <= n,
            forall|k: int| 0 <= k < i ==> #[trigger] pts.list@[k] != pts.list@[(k + 1) % (n as int)],
        decreases n - i,
    {
        let nj = if i + 1 == n {
            0
        } else {
            i + 1
        };
        proof {
            if i + 1 == n {
                vstd::arithmetic::div_mod::lemma_mod_self_0(n as int);
            } else {
                vstd::arithmetic::div_mod::lemma_small_mod((i + 1) as nat, n as nat);
            }
            assert(nj as int == ((i as int) + 1) % (n as int));
        }
        if pts.list[i] == pts.list[nj] {
            return false;
        }
        i = i + 1;
    }
    true
}

/// A value that repeats in `sorted` rules out `no_duplicates` for any
/// sequence holding the same elements.
proof fn lemma_duplicate_excludes(sorted: Seq<Point>, input: Seq<Point>, i: int, j: int)
    requires
        sorted.to_multiset() == input.to_multiset(),
        0 <= i < j < sorted.len(),
        sorted[i] == sorted[j],
    ensures
        !input.no_duplicates(),
{
    broadcast use vstd::seq_lib::group_to_multiset_ensures;
    broadcast use vstd::multiset::group_multiset_axioms;

    if input.no_duplicates() {
        input.lemma_multiset_has_no_duplicates();
        let v = sorted[i];
        let shorter = sorted.remove(j);
        assert(shorter.to_multiset() == sorted.to_multiset().remove(v));
        assert(shorter[i] == v);
        assert(shorter.contains(v));
        assert(shorter.to_multiset().count(v) > 0);
        assert(sorted.contains(v));
        assert(sorted.to_multiset().count(v) >= 2);
        assert(input.to_multiset().count(v) >= 2);
        assert(input.to_multiset().contains(v));
        assert(false);
    }
}

/// With the mean of `s` in hand, a vertex on the mean is exactly a
/// witness to `vertex_at_mean`.
proof fn lemma_at_mean_characterized(s: Seq<Point>, m: MeanPoint)
    requires
        m.n == s.len(),
        m.sx == sum_x(s),
        m.sy == sum_y(s),
    ensures
        all_off_mean(s, m) <==> !vertex_at_mean(s),
{
    if vertex_at_mean(s) {
        let k = choose|k: int|
            0 <= k < s.len() && (s.len() as int) * ((#[trigger] s[k]).x as int) == sum_x(s) && (
            s.len() as int) * (s[k].y as int) == sum_y(s);
        assert(!off_mean(s[k], m));
    }
    if !vertex_at_mean(s) {
        assert forall|k: int| 0 <= k < s.len() implies off_mean(#[trigger] s[k], m) by {
            if !off_mean(s[k], m) {
                assert((s.len() as int) * (s[k].x as int) == sum_x(s)
                    && (s.len() as int) * (s[k].y as int) == sum_y(s));
                assert(vertex_at_mean(s));
            }
        }
    }
}

/// Assembles the polygon once the vertex set has passed every check
/// and is already in winding order.
fn assemble(pts: Points, midpoint: MeanPoint) -> (poly: Polygon)
    requires
        3 <= pts.list@.len() <= MAX_POINTS,
        coords_bounded(pts.list@),
        midpoint.n == pts.list@.len(),
        midpoint.sx == sum_x(pts.list@),
        midpoint.sy == sum_y(pts.list@),
        mean_wf(midpoint),
        all_off_mean(pts.list@, midpoint),
        sorted_desc(pts.list@, midpoint),
        adjacent_distinct(pts.list@),
    ensures
        polygon_wf(poly),
        poly.points.list@ == pts.list@,
        poly.midpoint == midpoint,
{
    let lines = pts.get_lines();
    let reference = lines.mean_point_over_under_lines(&midpoint);
    Polygon { points: pts, midpoint, lines, reference }
}

/// Builds a queryable polygon from an unordered set of vertices:
/// computes the centroid, sorts the vertices into winding order around
/// it, derives the edge lines, and records the centroid's sidedness
/// signature. Rejects fewer than three points as `InvalidPolygon`, and
/// a vertex on the centroid or a duplicated vertex that would make a
/// zero-length edge as `DegenerateGeometry`.
pub fn build_polygon(points: Vec<Point>) -> (r: Result<Polygon, GeometryError>)
    requires
        points@.len() <= MAX_POINTS,
        coords_bounded(points@),
    ensures
        (r matches Err(e) && e == GeometryError::InvalidPolygon) <==> points@.len() < 3,
        points@.len() >= 3 && vertex_at_mean(points@) ==> (r matches Err(e) && e
            == GeometryError::DegenerateGeometry),
        (r matches Err(e) && e == GeometryError::DegenerateGeometry) ==> points@.len() >= 3 && (
        vertex_at_mean(points@) || !points@.no_duplicates()),
        points@.len() >= 3 && !vertex_at_mean(points@) && points@.no_duplicates() ==> r is Ok,
        match r {
            Ok(poly) => {
                &&& polygon_wf(poly)
                &&& poly.points.list@.to_multiset() == points@.to_multiset()
                &&& poly.midpoint.n == points@.len()
                &&& poly.midpoint.sx == sum_x(points@)
                &&& poly.midpoint.sy == sum_y(points@)
            },
            Err(e) => e == GeometryError::InvalidPolygon || e == GeometryError::DegenerateGeometry,
        },
{
    let ghost input = points@;
    if points.len() < 3 {
        return Err(GeometryError::InvalidPolygon);
    }
    let mut pts = Points { list: points };
    let midpoint = pts.get_mean_point();
    let clear = scan_off_mean(&pts, &midpoint);
    proof {
        lemma_at_mean_characterized(input, midpoint);
    }
    if !clear {
        return Err(GeometryError::DegenerateGeometry);
    }
    pts.sort_points_for_lines(midpoint);
    let ghost sorted = pts.list@;
    if !scan_adjacent_distinct(&pts) {
        proof {
            let n = sorted.len() as int;
            let k = choose|k: int| 0 <= k < n && #[trigger] sorted[k] == sorted[(k + 1) % n];
            if k + 1 == n {
                vstd::arithmetic::div_mod::lemma_mod_self_0(n);
                lemma_duplicate_excludes(sorted, input, 0, k);
            } else {
                vstd::arithmetic::div_mod::lemma_small_mod((k + 1) as nat, n as nat);
                lemma_duplicate_excludes(sorted, input, k, k + 1);
            }
        }
        return Err(GeometryError::DegenerateGeometry);
    }
    proof {
        crate::points::lemma_sum_permutation(input, pts.list@);
    }
    Ok(assemble(pts, midpoint))
}

impl Polygon {
    /// Classifies `point`: inside exactly when its per-edge sidedness
    /// vector equals the centroid's reference signature. Points exactly
    /// on an edge count as inside, by the positive-or-zero convention.
    #[verifier::rlimit(50)]
    pub fn contains(&self, point: Point) -> (r: bool)
        requires
            polygon_wf(*self),
            -COORD_LIMIT <= point.x <= COORD_LIMIT,
            -COORD_LIMIT <= point.y <= COORD_LIMIT,
        ensures
            r <==> sides_of(self.lines.0@, point.x as int, point.y as int, 1) == self.reference@,
    {
        self.lines.point_is_inside_polygon(point, &self.reference)
    }
}

} // verus!
