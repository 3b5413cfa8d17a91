use reveal_core::common::{Frac, Point, Polygon};
use reveal_core::plane_covering::{ceil_sqrt, cover_triangles, cover_triangles_points, sample_points};
use reveal_core::rng::SeededRng;

fn frac_value(f: &Frac) -> f64 {
    f.num as f64 / f.den as f64
}

fn to_delaunator(pts: &[Point]) -> Vec<delaunator::Point> {
    pts.iter()
        .map(|p| delaunator::Point { x: frac_value(&p.x), y: frac_value(&p.y) })
        .collect()
}

fn triangulation_of(pts: &[Point]) -> Vec<usize> {
    delaunator::triangulate(&to_delaunator(pts)).triangles
}

fn signed_area(p: &Polygon) -> f64 {
    let a = &p.pnts[0];
    let b = &p.pnts[1];
    let c = &p.pnts[2];
    ((frac_value(&b.x) - frac_value(&a.x)) * (frac_value(&c.y) - frac_value(&a.y))
        - (frac_value(&b.y) - frac_value(&a.y)) * (frac_value(&c.x) - frac_value(&a.x)))
        / 2.0
}

fn point(xn: u64, xd: u64, yn: u64, yd: u64) -> Point {
    Point { x: Frac { num: xn, den: xd }, y: Frac { num: yn, den: yd } }
}

#[test]
fn sampled_points_lie_strictly_inside_the_canvas() {
    let mut rng = SeededRng::new(3);
    let pts = sample_points(50, 640, 480, &mut rng);
    assert_eq!(pts.len(), 50);
    for p in &pts {
        assert!(p.x.num < 640 * p.x.den);
        assert!(p.y.num < 480 * p.y.den);
    }
}

#[test]
fn same_seed_reproduces_the_point_set() {
    let mut rng1 = SeededRng::new(42);
    let mut rng2 = SeededRng::new(42);
    let p1 = cover_triangles_points(25, 800, 600, &mut rng1);
    let p2 = cover_triangles_points(25, 800, 600, &mut rng2);
    assert_eq!(p1, p2);
}

#[test]
fn different_seeds_give_different_point_sets() {
    let mut rng1 = SeededRng::new(1);
    let mut rng2 = SeededRng::new(2);
    let p1 = cover_triangles_points(25, 800, 600, &mut rng1);
    let p2 = cover_triangles_points(25, 800, 600, &mut rng2);
    assert_ne!(p1, p2);
}

#[test]
fn same_seed_reproduces_the_whole_covering() {
    let mut rng1 = SeededRng::new(9);
    let mut rng2 = SeededRng::new(9);
    let pts1 = cover_triangles_points(12, 400, 300, &mut rng1);
    let pts2 = cover_triangles_points(12, 400, 300, &mut rng2);
    let cov1 = cover_triangles(&pts1, &triangulation_of(&pts1));
    let cov2 = cover_triangles(&pts2, &triangulation_of(&pts2));
    assert_eq!(cov1, cov2);
}

#[test]
fn ten_triangle_request_on_a_small_canvas() {
    let mut rng = SeededRng::new(42);
    let pts = cover_triangles_points(10, 200, 150, &mut rng);
    assert_eq!(ceil_sqrt(10), 4);
    assert_eq!(pts.len(), 14);
    let covering = cover_triangles(&pts, &triangulation_of(&pts));
    // A triangulation of n + 4 points whose hull is the canvas rectangle has
    // 2 * n + 2 triangles when no sampled point falls onto the boundary.
    assert_eq!(covering.len(), 22);
    for t in &covering {
        assert_eq!(t.pnts.len(), 3);
        assert!(signed_area(t) > 0.0);
        for p in &t.pnts {
            assert!(p.x.num <= 200 * p.x.den);
            assert!(p.y.num <= 150 * p.y.den);
        }
    }
    let total: f64 = covering.iter().map(signed_area).sum();
    assert!((total - 30000.0).abs() <= 1e-9 * 30000.0);
}

#[test]
fn triangle_area_sums_match_the_canvas() {
    for &(n, w, h, seed) in &[(1usize, 100u64, 100u64, 5u64), (30, 1024, 768, 6), (100, 333, 777, 7)] {
        let mut rng = SeededRng::new(seed);
        let pts = cover_triangles_points(n, w, h, &mut rng);
        let covering = cover_triangles(&pts, &triangulation_of(&pts));
        let expected = (w * h) as f64;
        let total: f64 = covering.iter().map(signed_area).sum();
        assert!((total - expected).abs() <= 1e-9 * expected);
        for t in &covering {
            assert!(signed_area(t) > 0.0);
        }
    }
}

#[test]
fn sampling_grid_matches_the_requested_count() {
    // grid columns: ceiling of sqrt(n); grid rows: ceiling of n / columns.
    for &(n, gc, gr) in &[(1usize, 1u64, 1u64), (4, 2, 2), (10, 4, 3), (17, 5, 4), (100, 10, 10)] {
        assert_eq!(ceil_sqrt(n) as u64, gc);
        let mut rng = SeededRng::new(1);
        let pts = sample_points(n, 500, 500, &mut rng);
        for p in &pts {
            assert_eq!(p.x.den, gc * 1024);
            assert_eq!(p.y.den, gr * 1024);
        }
    }
}

#[test]
fn prepared_points_share_their_denominators() {
    let mut rng = SeededRng::new(13);
    let pts = cover_triangles_points(10, 200, 150, &mut rng);
    let dx = pts[0].x.den;
    let dy = pts[0].y.den;
    assert!(pts.iter().all(|p| p.x.den == dx && p.y.den == dy));
    // The last four points are the canvas corners.
    let values: Vec<(f64, f64)> = pts[10..].iter().map(|p| {
        (frac_value(&p.x), frac_value(&p.y))
    }).collect();
    assert_eq!(values, vec![(0.0, 0.0), (200.0, 0.0), (0.0, 150.0), (200.0, 150.0)]);
}

#[test]
fn collinear_points_give_no_triangles() {
    let pts = vec![point(0, 1, 0, 1), point(1, 1, 0, 1), point(2, 1, 0, 1)];
    let covering = cover_triangles(&pts, &triangulation_of(&pts));
    assert!(covering.is_empty());
}

#[test]
fn degenerate_triples_are_filtered() {
    let pts = vec![point(0, 1, 0, 1), point(4, 1, 0, 1), point(0, 1, 4, 1)];
    // A proper triangle, a repeated-vertex triple, and a reversed triple:
    // the repeated one is dropped, the reversed one is rewound.
    let idx = vec![0, 1, 2, 0, 0, 1, 0, 2, 1];
    let covering = cover_triangles(&pts, &idx);
    assert_eq!(covering.len(), 2);
    let expected = vec![point(0, 1, 0, 1), point(4, 1, 0, 1), point(0, 1, 4, 1)];
    assert_eq!(covering[0].pnts, expected);
    assert_eq!(covering[1].pnts, expected);
    assert!(covering.iter().all(|t| signed_area(t) > 0.0));
}

#[test]
fn out_of_range_indices_and_trailing_rest_are_ignored() {
    let pts = vec![point(0, 1, 0, 1), point(4, 1, 0, 1), point(0, 1, 4, 1)];
    let idx = vec![0, 1, 7, 0, 1, 2, 2, 0];
    let covering = cover_triangles(&pts, &idx);
    assert_eq!(covering.len(), 1);
}
