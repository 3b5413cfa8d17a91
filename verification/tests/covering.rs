use reveal_core::common::{CoveringType, Frac, Point, Polygon};
use reveal_core::plane_covering::{
    cover_rectangles, covering_type_of_name, generate_covering, isqrt, Covering,
};
use reveal_core::rng::SeededRng;

fn frac_value(f: &Frac) -> f64 {
    f.num as f64 / f.den as f64
}

fn polygon_area(p: &Polygon) -> f64 {
    let pts = &p.pnts;
    let n = pts.len();
    let mut doubled = 0.0;
    for i in 0..n {
        let a = &pts[i];
        let b = &pts[(i + 1) % n];
        doubled += frac_value(&a.x) * frac_value(&b.y) - frac_value(&b.x) * frac_value(&a.y);
    }
    doubled / 2.0
}

#[test]
fn isqrt_values() {
    assert_eq!(isqrt(0), 0);
    assert_eq!(isqrt(1), 1);
    assert_eq!(isqrt(3), 1);
    assert_eq!(isqrt(4), 2);
    assert_eq!(isqrt(10), 3);
    assert_eq!(isqrt(65536), 256);
}

#[test]
fn four_quads_tile_a_square_canvas() {
    let covering = cover_rectangles(4, 100, 100);
    assert_eq!(covering.len(), 4);
    for quad in &covering {
        assert_eq!(quad.pnts.len(), 4);
        assert!((polygon_area(quad) - 2500.0).abs() < 1e-9);
        let width = frac_value(&quad.pnts[1].x) - frac_value(&quad.pnts[0].x);
        let height = frac_value(&quad.pnts[3].y) - frac_value(&quad.pnts[0].y);
        assert_eq!(width, 50.0);
        assert_eq!(height, 50.0);
    }
    // Row-major order: top-left quad first, then its right neighbor.
    assert_eq!(covering[0].pnts[0], Point {
        x: Frac { num: 0, den: 2 },
        y: Frac { num: 0, den: 2 },
    });
    assert_eq!(covering[1].pnts[0], Point {
        x: Frac { num: 100, den: 2 },
        y: Frac { num: 0, den: 2 },
    });
    assert_eq!(covering[3].pnts[2], Point {
        x: Frac { num: 200, den: 2 },
        y: Frac { num: 200, den: 2 },
    });
}

#[test]
fn zero_shapes_give_an_empty_covering() {
    let covering = cover_rectangles(0, 100, 100);
    assert!(covering.is_empty());
}

#[test]
fn rectangle_count_and_total_area() {
    for &(n, w, h) in &[(1usize, 640u64, 480u64), (5, 100, 100), (10, 1920, 1080), (16, 7, 3)] {
        let k = isqrt(n);
        let covering = cover_rectangles(n, w, h);
        assert_eq!(covering.len(), k * k);
        let total: f64 = covering.iter().map(polygon_area).sum();
        let expected = (w * h) as f64;
        assert!((total - expected).abs() <= 1e-9 * expected);
    }
}

#[test]
fn neighboring_cells_share_their_edges_exactly() {
    let n = 9;
    let k = 3;
    let covering = cover_rectangles(n, 301, 200);
    for row in 0..k {
        for col in 0..k - 1 {
            let cell = &covering[row * k + col];
            let right = &covering[row * k + col + 1];
            assert_eq!(cell.pnts[1], right.pnts[0]);
            assert_eq!(cell.pnts[2], right.pnts[3]);
        }
    }
    for row in 0..k - 1 {
        for col in 0..k {
            let cell = &covering[row * k + col];
            let below = &covering[(row + 1) * k + col];
            assert_eq!(cell.pnts[3], below.pnts[0]);
            assert_eq!(cell.pnts[2], below.pnts[1]);
        }
    }
}

#[test]
fn rectangle_vertices_stay_in_the_canvas() {
    let covering = cover_rectangles(7, 123, 457);
    for quad in &covering {
        for p in &quad.pnts {
            assert!(p.x.num <= 123 * p.x.den);
            assert!(p.y.num <= 457 * p.y.den);
        }
    }
}

#[test]
fn covering_type_names() {
    assert_eq!(covering_type_of_name(&String::from("Rectangles")), CoveringType::Rectangles);
    assert_eq!(covering_type_of_name(&String::from("Triangles")), CoveringType::Triangles);
    assert_eq!(covering_type_of_name(&String::from("anything")), CoveringType::Triangles);
}

#[test]
fn service_dispatches_rectangles() {
    let mut rng = SeededRng::new(7);
    match generate_covering(CoveringType::Rectangles, 4, 100, 100, &mut rng) {
        Covering::Polygons(ps) => assert_eq!(ps.len(), 4),
        Covering::TriangulationNeeded(_) => panic!("rectangles need no triangulation"),
    }
}

#[test]
fn service_hands_out_points_for_triangles() {
    let mut rng = SeededRng::new(7);
    match generate_covering(CoveringType::Triangles, 10, 200, 150, &mut rng) {
        Covering::Polygons(_) => panic!("triangles need a triangulation"),
        Covering::TriangulationNeeded(pts) => assert_eq!(pts.len(), 14),
    }
}

#[test]
fn service_returns_empty_for_zero_triangles() {
    let mut rng = SeededRng::new(7);
    match generate_covering(CoveringType::Triangles, 0, 200, 150, &mut rng) {
        Covering::Polygons(ps) => assert!(ps.is_empty()),
        Covering::TriangulationNeeded(_) => panic!("an empty covering needs no triangulation"),
    }
}
