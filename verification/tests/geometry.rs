use convex_polygon::point::Point;
use convex_polygon::points::Points;
use convex_polygon::polygon::{build_polygon, GeometryError};

fn pt(x: i64, y: i64) -> Point {
    Point::new(x, y)
}

// Vertices of the sample triangle, on a grid of one hundredth of a unit.
fn triangle() -> Vec<Point> {
    vec![pt(-100, 400), pt(300, 300), pt(-300, -200)]
}

#[test]
fn triangle_contains_strict_points() {
    let poly = build_polygon(triangle()).unwrap();
    // strictly outside: above the edge from (-3,-2) to (-1,4)
    assert!(!poly.contains(pt(-200, 200)));
    // strictly inside
    assert!(poly.contains(pt(-100, 200)));
    assert!(poly.contains(pt(0, 100)));
    // strictly outside: above the edge from (-1,4) to (3,3)
    assert!(!poly.contains(pt(200, 336)));
}

#[test]
fn triangle_vertices_on_boundary() {
    let poly = build_polygon(triangle()).unwrap();
    // a point on an edge scores zero there, and zero counts as the
    // positive side; it matches the centroid's signature only where the
    // centroid also sits on the positive side of that edge's stored
    // orientation. For this triangle the centroid is on the negative
    // side of the edge joining (-1,4) and (3,3), so those two vertices
    // classify outside while the third classifies inside.
    assert!(!poly.contains(pt(-100, 400)));
    assert!(!poly.contains(pt(300, 300)));
    assert!(poly.contains(pt(-300, -200)));
}

#[test]
fn sort_is_idempotent() {
    let mut pts = Points { list: vec![pt(200, 400), pt(200, 0), pt(-200, -100), pt(-400, 300)] };
    let mid = pts.get_mean_point();
    pts.sort_points_for_lines(mid);
    let once = pts.list.clone();
    pts.sort_points_for_lines(mid);
    assert_eq!(pts.list, once);
}

#[test]
fn sort_orders_square_by_descending_angle() {
    let mut pts = Points { list: vec![pt(0, 0), pt(200, 200), pt(200, 0), pt(0, 200)] };
    let mid = pts.get_mean_point();
    assert_eq!(mid.sx, 400);
    assert_eq!(mid.sy, 400);
    assert_eq!(mid.n, 4);
    pts.sort_points_for_lines(mid);
    assert_eq!(pts.list, vec![pt(0, 200), pt(200, 200), pt(200, 0), pt(0, 0)]);
}

#[test]
fn square_edge_representations() {
    let mut pts = Points { list: vec![pt(0, 0), pt(200, 200), pt(200, 0), pt(0, 200)] };
    let mid = pts.get_mean_point();
    pts.sort_points_for_lines(mid);
    let lines = pts.get_lines();
    assert_eq!(lines.0.len(), 4);
    // sorted order: (0,200), (200,200), (200,0), (0,0)
    // horizontal edges take the plain form, vertical edges the
    // reciprocal form; every slope is the finite value zero
    assert!(!lines.0[0].is_reciprocal); // top edge, dy == 0
    assert!(lines.0[1].is_reciprocal); // right edge, dx == 0
    assert!(!lines.0[2].is_reciprocal); // bottom edge, dy == 0
    assert!(lines.0[3].is_reciprocal); // left edge, dx == 0
    for l in lines.0.iter() {
        assert_eq!(l.slope.num, 0);
        assert!(l.slope.den > 0);
        assert!(l.offset.den > 0);
    }
}

#[test]
fn boundary_point_on_edge_is_inside() {
    let square = vec![pt(0, 0), pt(200, 0), pt(200, 200), pt(0, 200)];
    let poly = build_polygon(square).unwrap();
    // exactly on the bottom edge: the implicit form is exactly zero
    // there, and zero counts as the positive side
    assert!(poly.contains(pt(100, 0)));
    // repeated queries agree
    assert!(poly.contains(pt(100, 0)));
    assert!(poly.contains(pt(100, 100)));
    assert!(!poly.contains(pt(100, -1)));
    // the centroid sits on the negative side of the top edge's stored
    // orientation, so a point exactly on that edge classifies outside
    assert!(!poly.contains(pt(100, 200)));
}

#[test]
fn translation_preserves_containment() {
    let (tx, ty) = (5000, -7000);
    let base = triangle();
    let moved: Vec<Point> = base.iter().map(|p| pt(p.x + tx, p.y + ty)).collect();
    let poly = build_polygon(base).unwrap();
    let poly_moved = build_polygon(moved).unwrap();
    let queries = [
        pt(-200, 200),
        pt(-100, 200),
        pt(200, 336),
        pt(0, 100),
        pt(-100, 400),
        pt(700, 0),
    ];
    for q in queries.iter() {
        assert_eq!(
            poly.contains(*q),
            poly_moved.contains(pt(q.x + tx, q.y + ty))
        );
    }
}

#[test]
fn reflection_preserves_containment() {
    let base = triangle();
    let mirrored: Vec<Point> = base.iter().map(|p| pt(-p.x, p.y)).collect();
    let poly = build_polygon(base).unwrap();
    let poly_mirrored = build_polygon(mirrored).unwrap();
    let queries = [
        pt(-200, 200),
        pt(-100, 200),
        pt(200, 336),
        pt(0, 100),
        pt(300, 300),
        pt(700, 0),
    ];
    for q in queries.iter() {
        assert_eq!(poly.contains(*q), poly_mirrored.contains(pt(-q.x, q.y)));
    }
}

#[test]
fn too_few_points_rejected() {
    assert_eq!(
        build_polygon(vec![pt(0, 0), pt(100, 0)]).unwrap_err(),
        GeometryError::InvalidPolygon
    );
    assert_eq!(build_polygon(vec![]).unwrap_err(), GeometryError::InvalidPolygon);
}

#[test]
fn vertex_on_centroid_rejected() {
    // the centroid of these three points is (0, 0), the first vertex
    let pts = vec![pt(0, 0), pt(-300, 0), pt(300, 0)];
    assert_eq!(build_polygon(pts).unwrap_err(), GeometryError::DegenerateGeometry);
}

#[test]
fn duplicate_vertex_rejected() {
    let pts = vec![pt(0, 0), pt(0, 0), pt(200, 0), pt(0, 200)];
    assert_eq!(build_polygon(pts).unwrap_err(), GeometryError::DegenerateGeometry);
}

#[test]
fn atan2_surrogate_matches_quadrants() {
    // the pseudo-angle lives in (-2, 2] and grows with the true angle
    let east = pt(100, 0).atan2();
    assert_eq!((east.num, east.den), (0, 1));
    let north = pt(0, 100).atan2();
    assert_eq!((north.num, north.den), (100, 100));
    let west = pt(-100, 0).atan2();
    assert_eq!((west.num, west.den), (2, 1));
    let south = pt(0, -100).atan2();
    assert_eq!((south.num, south.den), (-100, 100));
    // ascending true angles give ascending pseudo-angles
    let ordered = [
        pt(-1, -1000),
        pt(100, -100),
        pt(100, 0),
        pt(100, 100),
        pt(0, 100),
        pt(-100, 100),
        pt(-100, 1),
    ];
    for w in ordered.windows(2) {
        let a = w[0].atan2();
        let b = w[1].atan2();
        assert!(a.num * b.den < b.num * a.den);
    }
}

#[test]
fn point_add_is_componentwise() {
    let s = pt(3, -4).add(pt(10, 20));
    assert_eq!((s.x, s.y), (13, 16));
}

#[test]
fn mean_point_is_exact() {
    let pts = Points { list: vec![pt(-100, 400), pt(300, 300), pt(-300, -200)] };
    let mid = pts.get_mean_point();
    // the mean (-100/3, 500/3) is kept as sums over the count
    assert_eq!((mid.sx, mid.sy, mid.n), (-100, 500, 3));
    assert_eq!((mid.x().num, mid.x().den), (-100, 3));
    assert_eq!((mid.y().num, mid.y().den), (500, 3));
}

#[test]
fn sidedness_vector_against_reference() {
    let poly = build_polygon(triangle()).unwrap();
    let inside_vec = poly.lines.point_over_under_lines(pt(0, 100));
    assert_eq!(inside_vec, poly.reference);
    let outside_vec = poly.lines.point_over_under_lines(pt(-200, 200));
    assert_ne!(outside_vec, poly.reference);
    assert!(poly.lines.point_is_inside_polygon(pt(0, 100), &poly.reference));
    assert!(!poly.lines.point_is_inside_polygon(pt(-200, 200), &poly.reference));
}
