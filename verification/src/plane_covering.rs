//! The planar covering generator: tiles the canvas `[0, w] x [0, h]` with a
//! uniform rectangular grid, or prepares and assembles a randomized
//! triangular mesh.
//!
//! All coordinates are exact rationals (`Frac`), so the tiling claims below
//! are exact equalities, not approximations: a doubled polygon area scaled by
//! the common denominators is an integer, and the grid cells of one covering
//! share their edge coordinates bit for bit.

use vstd::prelude::*;

use crate::common::{CoveringType, Frac, Point, Polygon};
use crate::rng::{rng_draw, SeededRng};

verus! {

/// Largest accepted shape count; keeps grid sides small enough that all
/// coordinate numerators fit comfortably in `u64`.
pub const MAX_SHAPES: usize = 0x10000;

/// Largest accepted canvas width or height.
pub const MAX_DIM: u64 = 0x1_0000_0000;

/// The floor of the square root of `n`.
pub open spec fn floor_sqrt(n: nat) -> nat
    decreases n,
{
    if n == 0 {
        0
    } else {
        let p = floor_sqrt((n - 1) as nat);
        if (p + 1) * (p + 1) <= n {
            p + 1
        } else {
            p
        }
    }
}

/// `floor_sqrt(n)` is characterized by `r * r <= n < (r + 1) * (r + 1)`.
pub proof fn lemma_floor_sqrt(n: nat)
    ensures
        floor_sqrt(n) * floor_sqrt(n) <= n,
        n < (floor_sqrt(n) + 1) * (floor_sqrt(n) + 1),
    decreases n,
{
    let f = floor_sqrt(n);
    if n == 0 {
        assert(f == 0);
        assert(f * f <= n && n < (f + 1) * (f + 1)) by (nonlinear_arith)
            requires f == 0, n == 0;
    } else {
        lemma_floor_sqrt((n - 1) as nat);
        let p = floor_sqrt((n - 1) as nat);
        assert(p * p <= n - 1 && n - 1 < (p + 1) * (p + 1));
        if (p + 1) * (p + 1) <= n {
            assert(f == p + 1);
            assert(f * f <= n && n < (f + 1) * (f + 1)) by (nonlinear_arith)
                requires f == p + 1, (p + 1) * (p + 1) <= n, n - 1 < (p + 1) * (p + 1);
        } else {
            assert(f == p);
            assert(f * f <= n && n < (f + 1) * (f + 1)) by (nonlinear_arith)
                requires f == p, p * p <= n - 1, !((p + 1) * (p + 1) <= n);
        }
    }
}

/// In a row-major `rows x k` grid, the flat index of `(rr, cc)` stays below
/// `rows * k`.
proof fn lemma_row_major_bound(rr: int, cc: int, rows: int, k: int)
    requires
        0 <= rr < rows,
        0 <= cc < k,
    ensures
        0 <= rr * k + cc < rows * k,
        rr * k + cc < (rr + 1) * k,
{
    assert(rr * k + cc < (rr + 1) * k && (rr + 1) * k <= rows * k && 0 <= rr * k) by (nonlinear_arith)
        requires 0 <= rr < rows, 0 <= cc < k;
}

/// Any `r` with `r * r <= n < (r + 1) * (r + 1)` equals `floor_sqrt(n)`.
pub proof fn lemma_floor_sqrt_unique(n: nat, r: nat)
    requires
        r * r <= n,
        n < (r + 1) * (r + 1),
    ensures
        r == floor_sqrt(n),
{
    lemma_floor_sqrt(n);
    let f = floor_sqrt(n);
    if r < f {
        assert((r + 1) * (r + 1) <= f * f) by (nonlinear_arith)
            requires r + 1 <= f;
    }
    if f < r {
        assert((f + 1) * (f + 1) <= r * r) by (nonlinear_arith)
            requires f + 1 <= r;
    }
}

/// Integer square root: the side length of the rectangle grid.
pub fn isqrt(n: usize) -> (r: usize)
    requires
        n <= MAX_SHAPES,
    ensures
        r == floor_sqrt(n as nat),
        r * r <= n,
        n < (r + 1) * (r + 1),
        r <= 0x100,
{
    let mut r: usize = 0;
    let mut sq: usize = 1;
    while sq <= n
        invariant
            sq == (r + 1) * (r + 1),
            r * r <= n,
            n <= MAX_SHAPES,
            r <= 0x100,
        decreases n - r,
    {
        proof {
            assert(r + 1 <= 0x100 && r + 1 <= sq) by (nonlinear_arith)
                requires sq == (r + 1) * (r + 1), sq <= 0x10000;
            assert((r + 2) * (r + 2) == (r + 1) * (r + 1) + 2 * (r + 1) + 1) by (nonlinear_arith);
        }
        r = r + 1;
        sq = sq + 2 * r + 1;
    }
    proof {
        lemma_floor_sqrt_unique(n as nat, r as nat);
    }
    r
}

/// The fraction `f` is exactly `num / den`.
pub open spec fn frac_is(f: Frac, num: int, den: int) -> bool {
    f.num == num && f.den == den
}

/// The point `p` is exactly `(xn / xd, yn / yd)`.
pub open spec fn point_is(p: Point, xn: int, xd: int, yn: int, yd: int) -> bool {
    frac_is(p.x, xn, xd) && frac_is(p.y, yn, yd)
}

/// The polygon `p` is the grid cell of row `row` and column `col` in a
/// `k x k` grid over the canvas `[0, w] x [0, h]`: the axis-aligned
/// rectangle from `(col * w / k, row * h / k)` of width `w / k` and height
/// `h / k`, wound top-left, top-right, bottom-right, bottom-left.
pub open spec fn is_grid_cell(p: Polygon, w: int, h: int, k: int, row: int, col: int) -> bool {
    &&& p.pnts@.len() == 4
    &&& point_is(p.pnts@[0], col * w, k, row * h, k)
    &&& point_is(p.pnts@[1], (col + 1) * w, k, row * h, k)
    &&& point_is(p.pnts@[2], (col + 1) * w, k, (row + 1) * h, k)
    &&& point_is(p.pnts@[3], col * w, k, (row + 1) * h, k)
}

/// `s` is the full rectangular covering of the canvas `[0, w] x [0, h]` for
/// a requested shape count `n`: with `k = floor_sqrt(n)`, the `k * k` grid
/// cells in row-major order.
pub open spec fn is_rectangle_covering(s: Seq<Polygon>, n: nat, w: int, h: int) -> bool {
    let k = floor_sqrt(n) as int;
    &&& s.len() == k * k
    &&& forall|row: int, col: int|
            0 <= row < k && 0 <= col < k ==> is_grid_cell(
                #[trigger] s[row * k + col],
                w,
                h,
                k,
                row,
                col,
            )
}

/// Twice the signed area of the triangle `(a, b, c)`, computed over the
/// coordinate numerators.
///
/// When the three x coordinates share one denominator `dx` and the three y
/// coordinates share one denominator `dy`, the doubled signed area of the
/// real triangle is this integer divided by `dx * dy`.  With the canvas y
/// axis growing downward, the value is positive exactly when the vertices
/// wind the way the covering generators emit them.
pub open spec fn triangle_area2(a: Point, b: Point, c: Point) -> int {
    (b.x.num - a.x.num) * (c.y.num - a.y.num) - (b.y.num - a.y.num) * (c.x.num - a.x.num)
}

/// Twice the signed area of the polygon with vertex sequence `s`, as the fan
/// of triangles from `s[0]`, over the coordinate numerators; `0` for fewer
/// than three vertices.  Same scale convention as `triangle_area2`.
pub open spec fn polygon_area2(s: Seq<Point>) -> int
    decreases s.len(),
{
    if s.len() < 3 {
        0
    } else {
        polygon_area2(s.drop_last()) + triangle_area2(s[0], s[s.len() - 2], s[s.len() - 1])
    }
}

/// The sum of `polygon_area2` over all polygons of a covering.
pub open spec fn covering_area2(s: Seq<Polygon>) -> int
    decreases s.len(),
{
    if s.len() == 0 {
        0
    } else {
        covering_area2(s.drop_last()) + polygon_area2(s.last().pnts@)
    }
}

/// If every polygon of `s` has doubled scaled area `v`, the covering total
/// is `s.len() * v`.
proof fn lemma_covering_area_const(s: Seq<Polygon>, v: int)
    requires
        forall|i: int| 0 <= i < s.len() ==> polygon_area2(#[trigger] s[i].pnts@) == v,
    ensures
        covering_area2(s) == s.len() * v,
    decreases s.len(),
{
    if s.len() > 0 {
        lemma_covering_area_const(s.drop_last(), v);
        assert(s.len() * v == (s.len() - 1) * v + v) by (nonlinear_arith);
    }
}

/// The doubled scaled area of one grid cell is exactly `2 * (w * h)`.
proof fn lemma_grid_cell_area(p: Polygon, w: int, h: int, k: int, row: int, col: int)
    requires
        is_grid_cell(p, w, h, k, row, col),
    ensures
        polygon_area2(p.pnts@) == 2 * (w * h),
{
    let s = p.pnts@;
    assert(s.drop_last().drop_last().len() == 2);
    assert(s.drop_last().len() == 3);
    assert(s.drop_last()[0] == s[0] && s.drop_last()[1] == s[1] && s.drop_last()[2] == s[2]);
    assert(polygon_area2(s.drop_last().drop_last()) == 0);
    assert(polygon_area2(s.drop_last()) == triangle_area2(s[0], s[1], s[2]));
    assert(polygon_area2(s) == polygon_area2(s.drop_last()) + triangle_area2(s[0], s[2], s[3]));
    let a = s[0];
    let b = s[1];
    let c = s[2];
    let d = s[3];
    assert(triangle_area2(a, b, c) == w * h) by (nonlinear_arith)
        requires
            a.x.num == col * w, a.y.num == row * h,
            b.x.num == (col + 1) * w, b.y.num == row * h,
            c.x.num == (col + 1) * w, c.y.num == (row + 1) * h;
    assert(triangle_area2(a, c, d) == w * h) by (nonlinear_arith)
        requires
            a.x.num == col * w, a.y.num == row * h,
            c.x.num == (col + 1) * w, c.y.num == (row + 1) * h,
            d.x.num == col * w, d.y.num == (row + 1) * h;
    assert(triangle_area2(a, b, c) + triangle_area2(a, c, d) == 2 * (w * h));
    assert(polygon_area2(s) == 2 * (w * h));
}

/// Law: a rectangle covering tiles the whole canvas.  With
/// `k = floor_sqrt(n)` every one of the `k * k` cells has doubled scaled
/// area `2 * (w * h)`, so at the cells' common denominators `(k, k)` each cell
/// has real area `(w / k) * (h / k)`, and the cells together have real area
/// exactly `w * h`: the total below equals `(k * k) * 2 * (w * h)`, which is
/// the doubled total scaled by `k * k`.
pub proof fn lemma_rectangle_covering_area(s: Seq<Polygon>, n: nat, w: int, h: int)
    requires
        is_rectangle_covering(s, n, w, h),
    ensures
        forall|i: int| 0 <= i < s.len() ==> polygon_area2(#[trigger] s[i].pnts@) == 2 * (w * h),
        covering_area2(s) == s.len() * (2 * (w * h)),
{
    let k = floor_sqrt(n) as int;
    assert forall|i: int| 0 <= i < s.len() implies polygon_area2(#[trigger] s[i].pnts@) == 2 * (w
        * h) by {
        let row = i / k;
        let col = i % k;
        assert(k > 0) by (nonlinear_arith)
            requires 0 <= i < k * k, k >= 0;
        vstd::arithmetic::div_mod::lemma_fundamental_div_mod(i, k);
        vstd::arithmetic::div_mod::lemma_mod_bound(i, k);
        assert(row < k) by (nonlinear_arith)
            requires i < k * k, i == k * row + col, 0 <= col < k, k > 0;
        assert(row >= 0) by (nonlinear_arith)
            requires i >= 0, i == k * row + col, 0 <= col < k, k > 0;
        assert(i == row * k + col) by (nonlinear_arith)
            requires i == k * row + col;
        assert(is_grid_cell(s[row * k + col], w, h, k, row, col));
        lemma_grid_cell_area(s[i], w, h, k, row, col);
    };
    lemma_covering_area_const(s, 2 * (w * h));
}

/// Law: horizontally adjacent cells of a rectangle covering share their
/// common edge exactly: the right edge of cell `(row, col)` carries the same
/// two vertices as the left edge of cell `(row, col + 1)` — no seam and no
/// overlap between columns.
pub proof fn lemma_rectangle_covering_edges_horizontal(
    s: Seq<Polygon>,
    n: nat,
    w: int,
    h: int,
    row: int,
    col: int,
)
    requires
        is_rectangle_covering(s, n, w, h),
        0 <= row < floor_sqrt(n),
        0 <= col,
        col + 1 < floor_sqrt(n),
    ensures
        s[row * (floor_sqrt(n) as int) + col].pnts@[1] == s[row * (floor_sqrt(n) as int) + col
            + 1].pnts@[0],
        s[row * (floor_sqrt(n) as int) + col].pnts@[2] == s[row * (floor_sqrt(n) as int) + col
            + 1].pnts@[3],
{
    let k = floor_sqrt(n) as int;
    lemma_row_major_bound(row, col, k, k);
    assert(is_grid_cell(s[row * k + col], w, h, k, row, col));
    assert(is_grid_cell(s[row * k + (col + 1)], w, h, k, row, col + 1));
    assert(s[row * k + col + 1] == s[row * k + (col + 1)]);
}

/// Law: vertically adjacent cells of a rectangle covering share their common
/// edge exactly: the bottom edge of cell `(row, col)` carries the same two
/// vertices as the top edge of cell `(row + 1, col)` — no seam and no
/// overlap between rows.
pub proof fn lemma_rectangle_covering_edges_vertical(
    s: Seq<Polygon>,
    n: nat,
    w: int,
    h: int,
    row: int,
    col: int,
)
    requires
        is_rectangle_covering(s, n, w, h),
        0 <= row,
        row + 1 < floor_sqrt(n),
        0 <= col < floor_sqrt(n),
    ensures
        s[row * (floor_sqrt(n) as int) + col].pnts@[3] == s[(row + 1) * (floor_sqrt(n) as int)
            + col].pnts@[0],
        s[row * (floor_sqrt(n) as int) + col].pnts@[2] == s[(row + 1) * (floor_sqrt(n) as int)
            + col].pnts@[1],
{
    let k = floor_sqrt(n) as int;
    lemma_row_major_bound(row, col, k, k);
    assert(is_grid_cell(s[row * k + col], w, h, k, row, col));
    assert(is_grid_cell(s[(row + 1) * k + col], w, h, k, row + 1, col));
}

/// Covers the canvas `[0, w] x [0, h]` with a uniform grid of
/// `floor_sqrt(n)` by `floor_sqrt(n)` axis-aligned rectangles, emitted in
/// row-major order.  A shape count of zero yields an empty covering.
///
/// The grid steps are the exact rationals `w / k` and `h / k`, so the cells
/// tile the canvas completely: no strip at the right or bottom edge is left
/// uncovered, and neighboring cells share their edge coordinates exactly.
pub fn cover_rectangles(n: usize, w: u64, h: u64) -> (r: Vec<Polygon>)
    requires
        n <= MAX_SHAPES,
        1 <= w <= MAX_DIM,
        1 <= h <= MAX_DIM,
    ensures
        is_rectangle_covering(r@, n as nat, w as int, h as int),
        forall|i: int|
            0 <= i < r@.len() ==> (#[trigger] r@[i]).wf() && r@[i].in_canvas(w as int, h as int),
{
    let k = isqrt(n);
    let ghost ki = k as int;
    let ghost wi = w as int;
    let ghost hi = h as int;
    let mut r: Vec<Polygon> = Vec::new();
    let mut row: usize = 0;
    while row < k
        invariant
            row <= k,
            k == floor_sqrt(n as nat),
            k <= 0x100,
            ki == k as int,
            wi == w as int,
            hi == h as int,
            1 <= w <= MAX_DIM,
            1 <= h <= MAX_DIM,
            r@.len() == row * ki,
            forall|rr: int, cc: int|
                0 <= rr < row && 0 <= cc < ki ==> is_grid_cell(
                    #[trigger] r@[rr * ki + cc],
                    wi,
                    hi,
                    ki,
                    rr,
                    cc,
                ),
            forall|i: int|
                0 <= i < r@.len() ==> (#[trigger] r@[i]).wf() && r@[i].in_canvas(wi, hi),
        decreases k - row,
    {
        let ghost rowi = row as int;
        let mut col: usize = 0;
        while col < k
            invariant
                row < k,
                row as int == rowi,
                col <= k,
                k <= 0x100,
                ki == k as int,
                wi == w as int,
                hi == h as int,
                1 <= w <= MAX_DIM,
                1 <= h <= MAX_DIM,
                r@.len() == rowi * ki + col,
                forall|rr: int, cc: int|
                    0 <= rr < rowi && 0 <= cc < ki ==> is_grid_cell(
                        #[trigger] r@[rr * ki + cc],
                        wi,
                        hi,
                        ki,
                        rr,
                        cc,
                    ),
                forall|cc: int|
                    0 <= cc < col ==> is_grid_cell(
                        #[trigger] r@[rowi * ki + cc],
                        wi,
                        hi,
                        ki,
                        rowi,
                        cc,
                    ),
                forall|i: int|
                    0 <= i < r@.len() ==> (#[trigger] r@[i]).wf() && r@[i].in_canvas(wi, hi),
            decreases k - col,
        {
            proof {
                assert(col * wi <= 0x100 * MAX_DIM && (col + 1) * wi <= 0x100 * MAX_DIM)
                    by (nonlinear_arith)
                    requires 0 <= col, col + 1 <= 0x100, 0 <= wi <= MAX_DIM;
                assert(rowi * hi <= 0x100 * MAX_DIM && (rowi + 1) * hi <= 0x100 * MAX_DIM)
                    by (nonlinear_arith)
                    requires 0 <= rowi, rowi + 1 <= 0x100, 0 <= hi <= MAX_DIM;
            }
            let x0 = Frac::new((col as u64) * w, k as u64);
            let x1 = Frac::new((col as u64 + 1) * w, k as u64);
            let y0 = Frac::new((row as u64) * h, k as u64);
            let y1 = Frac::new((row as u64 + 1) * h, k as u64);
            let mut pnts: Vec<Point> = Vec::new();
            pnts.push(Point { x: x0, y: y0 });
            pnts.push(Point { x: x1, y: y0 });
            pnts.push(Point { x: x1, y: y1 });
            pnts.push(Point { x: x0, y: y1 });
            let cell = Polygon { pnts };
            proof {
                assert((col + 1) * wi <= ki * wi && (rowi + 1) * hi <= ki * hi)
                    by (nonlinear_arith)
                    requires col + 1 <= ki, rowi + 1 <= ki, wi >= 1, hi >= 1;
                assert(col * wi <= (col + 1) * wi && rowi * hi <= (rowi + 1) * hi)
                    by (nonlinear_arith)
                    requires wi >= 1, hi >= 1, col >= 0, rowi >= 0;
                assert(cell.pnts@.len() == 4);
                assert(cell.pnts@[0] == Point { x: x0, y: y0 });
                assert(cell.pnts@[1] == Point { x: x1, y: y0 });
                assert(cell.pnts@[2] == Point { x: x1, y: y1 });
                assert(cell.pnts@[3] == Point { x: x0, y: y1 });
                assert(is_grid_cell(cell, wi, hi, ki, rowi, col as int));
                assert forall|j: int| 0 <= j < cell.pnts@.len() implies
                    (#[trigger] cell.pnts@[j]).wf() && cell.pnts@[j].in_canvas(wi, hi) by {
                    assert(x0.wf() && x1.wf() && y0.wf() && y1.wf());
                    assert(x0.le_int(wi) && x1.le_int(wi) && y0.le_int(hi) && y1.le_int(hi));
                };
                assert(cell.wf() && cell.in_canvas(wi, hi));
            }
            r.push(cell);
            proof {
                assert forall|rr: int, cc: int|
                    0 <= rr < rowi && 0 <= cc < ki implies is_grid_cell(
                    #[trigger] r@[rr * ki + cc],
                    wi,
                    hi,
                    ki,
                    rr,
                    cc,
                ) by {
                    lemma_row_major_bound(rr, cc, rowi, ki);
                };
                assert forall|cc: int| 0 <= cc < col + 1 implies is_grid_cell(
                    #[trigger] r@[rowi * ki + cc],
                    wi,
                    hi,
                    ki,
                    rowi,
                    cc,
                ) by {
                    if cc == col {
                        assert(r@[rowi * ki + cc] == cell);
                    }
                };
            }
            col = col + 1;
        }
        proof {
            assert((rowi + 1) * ki == rowi * ki + ki) by (nonlinear_arith);
            assert forall|rr: int, cc: int|
                0 <= rr < rowi + 1 && 0 <= cc < ki implies is_grid_cell(
                #[trigger] r@[rr * ki + cc],
                wi,
                hi,
                ki,
                rr,
                cc,
            ) by {
                if rr == rowi {
                    assert(is_grid_cell(r@[rowi * ki + cc], wi, hi, ki, rowi, cc));
                }
            };
        }
        row = row + 1;
    }
    r
}

/// Granularity of the random offset inside one sampling grid cell: offsets
/// are drawn as multiples of `1 / JITTER` of the cell size.
pub const JITTER: u64 = 1024;

/// Number of columns of the sampling grid: the ceiling of the square root
/// of `n`.
pub open spec fn grid_cols(n: nat) -> nat {
    if floor_sqrt(n) * floor_sqrt(n) == n {
        floor_sqrt(n)
    } else {
        floor_sqrt(n) + 1
    }
}

/// Number of rows of the sampling grid: the ceiling of `n / grid_cols(n)`.
pub open spec fn grid_rows(n: nat) -> nat
    recommends
        n >= 1,
{
    ((n + grid_cols(n) - 1) as nat) / grid_cols(n)
}

/// `history` extended by `m` further draws with bound `JITTER`.
pub open spec fn jitter_history(history: Seq<u64>, m: nat) -> Seq<u64>
    decreases m,
{
    if m == 0 {
        history
    } else {
        jitter_history(history, (m - 1) as nat).push(JITTER)
    }
}

/// The x numerator of sample point `i`, at denominator
/// `grid_cols(n) * JITTER`: the point sits in column `i % grid_cols(n)`,
/// offset into it by the draw numbered `2 * i`.
pub open spec fn sampled_x_num(seed: u64, history: Seq<u64>, n: nat, w: int, i: int) -> int {
    ((i % grid_cols(n) as int) * JITTER + rng_draw(
        seed,
        jitter_history(history, (2 * i) as nat),
        JITTER,
    )) * w
}

/// The y numerator of sample point `i`, at denominator
/// `grid_rows(n) * JITTER`: the point sits in row `i / grid_cols(n)`,
/// offset into it by the draw numbered `2 * i + 1`.
pub open spec fn sampled_y_num(seed: u64, history: Seq<u64>, n: nat, h: int, i: int) -> int {
    ((i / grid_cols(n) as int) * JITTER + rng_draw(
        seed,
        jitter_history(history, (2 * i + 1) as nat),
        JITTER,
    )) * h
}

/// `pts` is exactly the jittered-grid sample of `n` points over the canvas
/// `[0, w] x [0, h]`, as drawn from a source with seed `seed` whose draw
/// history was `history` beforehand.  Every coordinate is determined by
/// these arguments, which is what makes sampling deterministic.
pub open spec fn points_match_sample(
    pts: Seq<Point>,
    seed: u64,
    history: Seq<u64>,
    n: nat,
    w: int,
    h: int,
) -> bool {
    &&& pts.len() == n
    &&& forall|i: int|
            0 <= i < n ==> point_is(
                #[trigger] pts[i],
                sampled_x_num(seed, history, n, w, i),
                grid_cols(n) * JITTER,
                sampled_y_num(seed, history, n, h, i),
                grid_rows(n) * JITTER,
            )
}

/// The sampling grid has at least as many cells as requested points, and
/// its sides stay small: `n <= grid_cols(n)^2`, `grid_rows(n) <= grid_cols(n)`,
/// and `grid_cols(n) * grid_rows(n) >= n`.
pub proof fn lemma_sample_grid(n: nat)
    requires
        1 <= n <= MAX_SHAPES,
    ensures
        1 <= grid_cols(n) <= 0x100,
        1 <= grid_rows(n) <= grid_cols(n),
        grid_cols(n) * grid_rows(n) >= n,
        n > (grid_cols(n) * (grid_rows(n) - 1)),
{
    lemma_floor_sqrt(n);
    let k = floor_sqrt(n);
    let gc = grid_cols(n);
    assert(n <= gc * gc) by (nonlinear_arith)
        requires
            k * k <= n < (k + 1) * (k + 1),
            gc == if k * k == n { k } else { k + 1 as nat };
    assert(gc >= 1) by (nonlinear_arith)
        requires n >= 1, n <= gc * gc;
    assert(k <= 0x100) by (nonlinear_arith)
        requires k * k <= n, n <= 0x10000, k >= 0;
    if k * k < n {
        assert(k < 0x100) by (nonlinear_arith)
            requires k * k < n, n <= 0x10000, k >= 0;
    }
    let m = (n + gc - 1) as nat;
    let gr = grid_rows(n);
    vstd::arithmetic::div_mod::lemma_fundamental_div_mod(m as int, gc as int);
    vstd::arithmetic::div_mod::lemma_mod_bound(m as int, gc as int);
    let md = m as int % gc as int;
    assert(gr == m as int / gc as int);
    assert(m == gc * gr + md);
    assert(gc * gr >= n) by (nonlinear_arith)
        requires m == gc * gr + md, md < gc, m == n + gc - 1;
    assert(gr >= 1) by (nonlinear_arith)
        requires gc * gr >= n, n >= 1, gc >= 1, gr >= 0;
    assert(gr <= gc) by (nonlinear_arith)
        requires
            m == gc * gr + md,
            0 <= md,
            m == n + gc - 1,
            n <= gc * gc,
            gc >= 1,
            gr >= 0;
    assert(n > gc * (gr - 1)) by (nonlinear_arith)
        requires m == gc * gr + md, 0 <= md < gc, m == n + gc - 1, gc >= 1;
}

/// Computes `grid_cols(n)`, the ceiling of the square root of `n`.
pub fn ceil_sqrt(n: usize) -> (r: usize)
    requires
        1 <= n <= MAX_SHAPES,
    ensures
        r == grid_cols(n as nat),
        1 <= r <= 0x100,
{
    let k = isqrt(n);
    proof {
        lemma_sample_grid(n as nat);
    }
    if k * k == n {
        k
    } else {
        k + 1
    }
}

/// Samples `n` points over the canvas `[0, w] x [0, h]`, strictly inside
/// `[0, w) x [0, h)`.
///
/// To avoid thin, pointy triangles later, the points are not drawn
/// uniformly over the whole canvas: the canvas is split into a grid of
/// `grid_cols(n)` columns and `grid_rows(n)` rows, and the cells are filled
/// in row-major order, one random point inside each cell, until `n` points
/// exist.  The grid has at least `n` cells (`lemma_sample_grid`), so this
/// always yields exactly `n` points and no further fill-up is needed.
///
/// Every returned coordinate equals its `sampled_x_num` / `sampled_y_num`
/// value, a function of the seed and prior history of `rng` alone; sampling
/// with a fresh source of the same seed therefore reproduces the points
/// exactly.
pub fn sample_points(n: usize, w: u64, h: u64, rng: &mut SeededRng) -> (r: Vec<Point>)
    requires
        1 <= n <= MAX_SHAPES,
        1 <= w <= MAX_DIM,
        1 <= h <= MAX_DIM,
    ensures
        points_match_sample(
            r@,
            old(rng).seed(),
            old(rng).history(),
            n as nat,
            w as int,
            h as int,
        ),
        final(rng).seed() == old(rng).seed(),
        final(rng).history() == jitter_history(old(rng).history(), (2 * n) as nat),
        forall|i: int|
            0 <= i < r@.len() ==> (#[trigger] r@[i]).wf() && r@[i].x.lt_int(w as int)
                && r@[i].y.lt_int(h as int),
{
    let ghost seed0 = rng.seed();
    let ghost hist0 = rng.history();
    let gc = ceil_sqrt(n);
    let gr = (n + gc - 1) / gc;
    proof {
        lemma_sample_grid(n as nat);
        assert(gr == grid_rows(n as nat));
    }
    let mut r: Vec<Point> = Vec::new();
    let mut i: usize = 0;
    while i < n
        invariant
            i <= n,
            1 <= n <= MAX_SHAPES,
            1 <= w <= MAX_DIM,
            1 <= h <= MAX_DIM,
            gc == grid_cols(n as nat),
            gr == grid_rows(n as nat),
            1 <= gc <= 0x100,
            1 <= gr <= gc,
            n <= gc * gr,
            rng.seed() == seed0,
            rng.history() == jitter_history(hist0, (2 * i) as nat),
            r@.len() == i,
            forall|j: int|
                0 <= j < i ==> point_is(
                    #[trigger] r@[j],
                    sampled_x_num(seed0, hist0, n as nat, w as int, j),
                    grid_cols(n as nat) * JITTER,
                    sampled_y_num(seed0, hist0, n as nat, h as int, j),
                    grid_rows(n as nat) * JITTER,
                ),
            forall|j: int|
                0 <= j < r@.len() ==> (#[trigger] r@[j]).wf() && r@[j].x.lt_int(w as int)
                    && r@[j].y.lt_int(h as int),
        decreases n - i,
    {
        let col = i % gc;
        let row = i / gc;
        proof {
            vstd::arithmetic::div_mod::lemma_fundamental_div_mod(i as int, gc as int);
            vstd::arithmetic::div_mod::lemma_mod_bound(i as int, gc as int);
            assert(row < gr) by (nonlinear_arith)
                requires
                    i == gc * row + col,
                    0 <= col < gc,
                    i < n,
                    n <= gc * gr,
                    gc >= 1,
                    row >= 0,
                    gr >= 1;
        }
        let jx = rng.draw(JITTER);
        proof {
            assert(jitter_history(hist0, (2 * i) as nat).push(JITTER) == jitter_history(
                hist0,
                (2 * i + 1) as nat,
            ));
        }
        let jy = rng.draw(JITTER);
        proof {
            assert(jitter_history(hist0, (2 * i + 1) as nat).push(JITTER) == jitter_history(
                hist0,
                (2 * i + 2) as nat,
            ));
        }
        proof {
            assert(col as u64 * JITTER + jx < gc as u64 * JITTER) by (nonlinear_arith)
                requires col < gc, jx < JITTER, gc >= 1, col >= 0, JITTER >= 1;
            assert(row as u64 * JITTER + jy < gr as u64 * JITTER) by (nonlinear_arith)
                requires row < gr, jy < JITTER, gr >= 1, row >= 0, JITTER >= 1;
            assert((col as u64 * JITTER + jx) * w < (gc as u64 * JITTER) * w) by (nonlinear_arith)
                requires col as u64 * JITTER + jx < gc as u64 * JITTER, w >= 1;
            assert((row as u64 * JITTER + jy) * h < (gr as u64 * JITTER) * h) by (nonlinear_arith)
                requires row as u64 * JITTER + jy < gr as u64 * JITTER, h >= 1;
            assert((gc as u64 * JITTER) * w <= 0x40000 * MAX_DIM) by (nonlinear_arith)
                requires gc <= 0x100, JITTER == 1024, 1 <= w <= MAX_DIM;
            assert((gr as u64 * JITTER) * h <= 0x40000 * MAX_DIM) by (nonlinear_arith)
                requires gr <= 0x100, JITTER == 1024, 1 <= h <= MAX_DIM;
        }
        let x = Frac::new(((col as u64) * JITTER + jx) * w, (gc as u64) * JITTER);
        let y = Frac::new(((row as u64) * JITTER + jy) * h, (gr as u64) * JITTER);
        let p = Point { x, y };
        r.push(p);
        proof {
            assert(sampled_x_num(seed0, hist0, n as nat, w as int, i as int) == x.num);
            assert(sampled_y_num(seed0, hist0, n as nat, h as int, i as int) == y.num);
            assert(p.x.lt_int(w as int)) by (nonlinear_arith)
                requires
                    p.x.num < (gc as u64 * JITTER) * w,
                    p.x.den == gc as u64 * JITTER,
                    p.x.num >= 0;
            assert(p.y.lt_int(h as int)) by (nonlinear_arith)
                requires
                    p.y.num < (gr as u64 * JITTER) * h,
                    p.y.den == gr as u64 * JITTER,
                    p.y.num >= 0;
        }
        i = i + 1;
    }
    r
}

/// `pts` is the jittered-grid sample of `n` points followed by the four
/// canvas corners `(0, 0)`, `(w, 0)`, `(0, h)`, `(w, h)`, all at the
/// sample's common denominators.  Appending the corners forces the convex
/// hull of the point set to be the canvas rectangle itself, so a
/// triangulation of these points tiles the whole canvas.
pub open spec fn points_with_corners(
    pts: Seq<Point>,
    seed: u64,
    history: Seq<u64>,
    n: nat,
    w: int,
    h: int,
) -> bool {
    let dx = grid_cols(n) * JITTER;
    let dy = grid_rows(n) * JITTER;
    &&& pts.len() == n + 4
    &&& points_match_sample(pts.take(n as int), seed, history, n, w, h)
    &&& point_is(pts[n as int], 0, dx, 0, dy)
    &&& point_is(pts[n as int + 1], w * dx, dx, 0, dy)
    &&& point_is(pts[n as int + 2], 0, dx, h * dy, dy)
    &&& point_is(pts[n as int + 3], w * dx, dx, h * dy, dy)
}

/// Law: sampling is deterministic.  Two point sequences drawn for the same
/// shape count and canvas from sources with the same seed and prior history
/// are equal, coordinate for coordinate.
pub proof fn lemma_sample_deterministic(
    p1: Seq<Point>,
    p2: Seq<Point>,
    seed: u64,
    history: Seq<u64>,
    n: nat,
    w: int,
    h: int,
)
    requires
        points_match_sample(p1, seed, history, n, w, h),
        points_match_sample(p2, seed, history, n, w, h),
    ensures
        p1 == p2,
{
    assert forall|i: int| 0 <= i < n implies p1[i] == p2[i] by {
        assert(point_is(
            p1[i],
            sampled_x_num(seed, history, n, w, i),
            grid_cols(n) * JITTER,
            sampled_y_num(seed, history, n, h, i),
            grid_rows(n) * JITTER,
        ));
        assert(point_is(
            p2[i],
            sampled_x_num(seed, history, n, w, i),
            grid_cols(n) * JITTER,
            sampled_y_num(seed, history, n, h, i),
            grid_rows(n) * JITTER,
        ));
    };
    assert(p1 =~= p2);
}

/// Law: the whole point preparation for a triangle covering is
/// deterministic in the seed, the prior draw history, and the inputs.
pub proof fn lemma_points_with_corners_deterministic(
    p1: Seq<Point>,
    p2: Seq<Point>,
    seed: u64,
    history: Seq<u64>,
    n: nat,
    w: int,
    h: int,
)
    requires
        points_with_corners(p1, seed, history, n, w, h),
        points_with_corners(p2, seed, history, n, w, h),
    ensures
        p1 == p2,
{
    lemma_sample_deterministic(
        p1.take(n as int),
        p2.take(n as int),
        seed,
        history,
        n,
        w,
        h,
    );
    assert forall|i: int| 0 <= i < p1.len() implies p1[i] == p2[i] by {
        if i < n {
            assert(p1.take(n as int)[i] == p2.take(n as int)[i]);
        }
    };
    assert(p1 =~= p2);
}

/// Samples `n` interior points and appends the four canvas corners: the
/// point set a triangle covering is built from.  The corners guarantee that
/// the convex hull of the set is the canvas rectangle, so the triangulation
/// computed from these points tiles the canvas exactly.
pub fn cover_triangles_points(n: usize, w: u64, h: u64, rng: &mut SeededRng) -> (r: Vec<Point>)
    requires
        1 <= n <= MAX_SHAPES,
        1 <= w <= MAX_DIM,
        1 <= h <= MAX_DIM,
    ensures
        points_with_corners(
            r@,
            old(rng).seed(),
            old(rng).history(),
            n as nat,
            w as int,
            h as int,
        ),
        final(rng).seed() == old(rng).seed(),
        final(rng).history() == jitter_history(old(rng).history(), (2 * n) as nat),
        forall|i: int|
            0 <= i < r@.len() ==> (#[trigger] r@[i]).wf() && r@[i].in_canvas(w as int, h as int),
        forall|i: int|
            0 <= i < r@.len() ==> (#[trigger] r@[i]).x.den == grid_cols(n as nat) * JITTER
                && r@[i].y.den == grid_rows(n as nat) * JITTER,
{
    let ghost seed0 = rng.seed();
    let ghost hist0 = rng.history();
    let gc = ceil_sqrt(n);
    let gr = (n + gc - 1) / gc;
    proof {
        lemma_sample_grid(n as nat);
        assert(gr == grid_rows(n as nat));
        assert(gc as u64 * JITTER <= 0x40000) by (nonlinear_arith)
            requires gc <= 0x100, JITTER == 1024;
        assert(gr as u64 * JITTER <= 0x40000) by (nonlinear_arith)
            requires gr <= 0x100, JITTER == 1024;
        assert(1 <= gc as u64 * JITTER) by (nonlinear_arith)
            requires gc >= 1, JITTER == 1024;
        assert(1 <= gr as u64 * JITTER) by (nonlinear_arith)
            requires gr >= 1, JITTER == 1024;
        assert(1 <= w * (gc as u64 * JITTER) <= MAX_DIM * 0x40000) by (nonlinear_arith)
            requires 1 <= w <= MAX_DIM, 1 <= gc as u64 * JITTER <= 0x40000;
        assert(1 <= h * (gr as u64 * JITTER) <= MAX_DIM * 0x40000) by (nonlinear_arith)
            requires 1 <= h <= MAX_DIM, 1 <= gr as u64 * JITTER <= 0x40000;
    }
    let dx = (gc as u64) * JITTER;
    let dy = (gr as u64) * JITTER;
    let mut r = sample_points(n, w, h, rng);
    let ghost sampled = r@;
    let zero_x = Frac::new(0, dx);
    let zero_y = Frac::new(0, dy);
    let full_x = Frac::new(w * dx, dx);
    let full_y = Frac::new(h * dy, dy);
    r.push(Point { x: zero_x, y: zero_y });
    r.push(Point { x: full_x, y: zero_y });
    r.push(Point { x: zero_x, y: full_y });
    r.push(Point { x: full_x, y: full_y });
    proof {
        assert(r@.take(n as int) =~= sampled);
        assert(full_x.le_int(w as int) && full_y.le_int(h as int));
        assert forall|i: int| 0 <= i < r@.len() implies (#[trigger] r@[i]).wf()
            && r@[i].in_canvas(w as int, h as int) by {
            if i < n {
                assert(r@[i] == sampled[i]);
                assert(sampled[i].x.lt_int(w as int) && sampled[i].y.lt_int(h as int));
            }
        };
        assert forall|i: int| 0 <= i < r@.len() implies (#[trigger] r@[i]).x.den == grid_cols(
            n as nat,
        ) * JITTER && r@[i].y.den == grid_rows(n as nat) * JITTER by {
            if i < n {
                assert(point_is(
                    sampled[i],
                    sampled_x_num(seed0, hist0, n as nat, w as int, i),
                    grid_cols(n as nat) * JITTER,
                    sampled_y_num(seed0, hist0, n as nat, h as int, i),
                    grid_rows(n as nat) * JITTER,
                ));
                assert(r@[i] == sampled[i]);
            }
        };
    }
    r
}

/// Triple `t` of the flat index list points into `pts`.
pub open spec fn triple_in_range(pts: Seq<Point>, idx: Seq<usize>, t: int) -> bool {
    &&& idx[3 * t] < pts.len()
    &&& idx[3 * t + 1] < pts.len()
    &&& idx[3 * t + 2] < pts.len()
}

/// The three vertices triple `t` of the flat index list selects from
/// `pts`, wound so that their signed area comes out positive: a triple
/// arriving with the opposite winding — as a triangulation that orients
/// against the canvas's downward y axis produces them — has its second and
/// third vertices swapped.
pub open spec fn triple_points(pts: Seq<Point>, idx: Seq<usize>, t: int) -> Seq<Point> {
    let a = pts[idx[3 * t] as int];
    let b = pts[idx[3 * t + 1] as int];
    let c = pts[idx[3 * t + 2] as int];
    if triangle_area2(a, b, c) >= 0 {
        seq![a, b, c]
    } else {
        seq![a, c, b]
    }
}

/// Triple `t` survives the degeneracy filter: its indices are in range and
/// its doubled scaled area is not zero.  A zero area — which any triple
/// with a repeated or coincident point, or three collinear points, has —
/// is filtered out, so a kept triple always references three distinct
/// points.
pub open spec fn triple_kept(pts: Seq<Point>, idx: Seq<usize>, t: int) -> bool {
    &&& triple_in_range(pts, idx, t)
    &&& triangle_area2(
            pts[idx[3 * t] as int],
            pts[idx[3 * t + 1] as int],
            pts[idx[3 * t + 2] as int],
        ) != 0
}

/// Swapping the last two vertices negates the doubled signed area.
pub proof fn lemma_area2_swap(a: Point, b: Point, c: Point)
    ensures
        triangle_area2(a, c, b) == -triangle_area2(a, b, c),
{
    let p = b.x.num - a.x.num;
    let q = c.y.num - a.y.num;
    let u = b.y.num - a.y.num;
    let v = c.x.num - a.x.num;
    assert(triangle_area2(a, b, c) == p * q - u * v);
    assert(triangle_area2(a, c, b) == v * u - q * p);
    assert(v * u == u * v && q * p == p * q) by (nonlinear_arith);
}

/// The numbers of the kept triples among the first `m`, in order.
pub open spec fn kept_triples(pts: Seq<Point>, idx: Seq<usize>, m: nat) -> Seq<int>
    decreases m,
{
    if m == 0 {
        Seq::empty()
    } else {
        let pre = kept_triples(pts, idx, (m - 1) as nat);
        if triple_kept(pts, idx, m - 1) {
            pre.push(m - 1)
        } else {
            pre
        }
    }
}

/// Every kept triple number lies below `m` and is itself kept.
pub proof fn lemma_kept_triples_range(pts: Seq<Point>, idx: Seq<usize>, m: nat)
    ensures
        forall|j: int|
            0 <= j < kept_triples(pts, idx, m).len() ==> 0 <= #[trigger] kept_triples(
                pts,
                idx,
                m,
            )[j] < m && triple_kept(pts, idx, kept_triples(pts, idx, m)[j]),
    decreases m,
{
    if m > 0 {
        lemma_kept_triples_range(pts, idx, (m - 1) as nat);
        let pre = kept_triples(pts, idx, (m - 1) as nat);
        let cur = kept_triples(pts, idx, m);
        assert forall|j: int|
            0 <= j < cur.len() implies 0 <= #[trigger] cur[j] < m && triple_kept(
            pts,
            idx,
            cur[j],
        ) by {
            if j < pre.len() {
                assert(cur[j] == pre[j]);
            } else {
                assert(cur[j] == m - 1);
            }
        };
    }
}

/// Builds the triangle covering from a triangulated point set: turns each
/// consecutive triple of `triangles` — a flat list of vertex indices, three
/// per triangle, as a triangulation of `points` produces it — into a
/// three-vertex polygon, dropping malformed and degenerate triples.  Any
/// trailing indices past the last full triple are ignored.
///
/// The result keeps exactly the triples whose indices are in range and
/// whose area is not zero, in their given order, each wound so its signed
/// area is positive; every returned polygon therefore has three distinct
/// vertices, taken from `points`, and strictly positive area.
pub fn cover_triangles(points: &Vec<Point>, triangles: &Vec<usize>) -> (r: Vec<Polygon>)
    requires
        forall|i: int| 0 <= i < points@.len() ==> (#[trigger] points@[i]).wf(),
    ensures
        r@.len() == kept_triples(points@, triangles@, (triangles@.len() / 3) as nat).len(),
        forall|j: int|
            0 <= j < r@.len() ==> (#[trigger] r@[j]).pnts@ == triple_points(
                points@,
                triangles@,
                kept_triples(points@, triangles@, (triangles@.len() / 3) as nat)[j],
            ),
        forall|j: int|
            0 <= j < r@.len() ==> (#[trigger] r@[j]).pnts@.len() == 3 && triangle_area2(
                r@[j].pnts@[0],
                r@[j].pnts@[1],
                r@[j].pnts@[2],
            ) > 0,
        forall|j: int| 0 <= j < r@.len() ==> (#[trigger] r@[j]).wf(),
{
    let ghost pts = points@;
    let ghost idx = triangles@;
    let m = triangles.len() / 3;
    proof {
        assert(3 * m <= triangles@.len());
    }
    let mut r: Vec<Polygon> = Vec::new();
    let mut t: usize = 0;
    while t < m
        invariant
            t <= m,
            m == idx.len() / 3,
            3 * m <= idx.len(),
            idx.len() <= usize::MAX,
            pts == points@,
            idx == triangles@,
            forall|i: int| 0 <= i < pts.len() ==> (#[trigger] pts[i]).wf(),
            r@.len() == kept_triples(pts, idx, t as nat).len(),
            forall|j: int|
                0 <= j < r@.len() ==> (#[trigger] r@[j]).pnts@ == triple_points(
                    pts,
                    idx,
                    kept_triples(pts, idx, t as nat)[j],
                ),
            forall|j: int|
                0 <= j < r@.len() ==> (#[trigger] r@[j]).pnts@.len() == 3 && triangle_area2(
                    r@[j].pnts@[0],
                    r@[j].pnts@[1],
                    r@[j].pnts@[2],
                ) > 0,
            forall|j: int| 0 <= j < r@.len() ==> (#[trigger] r@[j]).wf(),
        decreases m - t,
    {
        proof {
            assert(3 * t + 2 < idx.len()) by (nonlinear_arith)
                requires t < m, 3 * m <= idx.len();
        }
        let i0 = triangles[3 * t];
        let i1 = triangles[3 * t + 1];
        let i2 = triangles[3 * t + 2];
        let len = points.len();
        if i0 < len && i1 < len && i2 < len {
            let a = points[i0];
            let b = points[i1];
            let c = points[i2];
            proof {
                assert(a.wf() && b.wf() && c.wf());
            }
            let bx_ax: i128 = (b.x.num as i128) - (a.x.num as i128);
            let cy_ay: i128 = (c.y.num as i128) - (a.y.num as i128);
            let by_ay: i128 = (b.y.num as i128) - (a.y.num as i128);
            let cx_ax: i128 = (c.x.num as i128) - (a.x.num as i128);
            proof {
                let bound: int = crate::common::COORD_LIMIT as int;
                assert(-(bound * bound) <= bx_ax * cy_ay <= bound * bound) by (nonlinear_arith)
                    requires -bound <= bx_ax <= bound, -bound <= cy_ay <= bound;
                assert(-(bound * bound) <= by_ay * cx_ax <= bound * bound) by (nonlinear_arith)
                    requires -bound <= by_ay <= bound, -bound <= cx_ax <= bound;
            }
            let area2: i128 = bx_ax * cy_ay - by_ay * cx_ax;
            proof {
                assert(area2 == triangle_area2(a, b, c));
            }
            if area2 != 0 {
                let mut pnts: Vec<Point> = Vec::new();
                pnts.push(a);
                if area2 > 0 {
                    pnts.push(b);
                    pnts.push(c);
                } else {
                    pnts.push(c);
                    pnts.push(b);
                }
                let poly = Polygon { pnts };
                proof {
                    lemma_area2_swap(a, b, c);
                    assert(poly.pnts@ =~= triple_points(pts, idx, t as int));
                    assert(triple_kept(pts, idx, t as int));
                    assert(triangle_area2(poly.pnts@[0], poly.pnts@[1], poly.pnts@[2]) > 0);
                }
                r.push(poly);
                proof {
                    assert(kept_triples(pts, idx, (t + 1) as nat) == kept_triples(
                        pts,
                        idx,
                        t as nat,
                    ).push(t as int));
                }
            } else {
                proof {
                    assert(!triple_kept(pts, idx, t as int));
                    assert(kept_triples(pts, idx, (t + 1) as nat) == kept_triples(
                        pts,
                        idx,
                        t as nat,
                    ));
                }
            }
        } else {
            proof {
                assert(!triple_in_range(pts, idx, t as int));
                assert(kept_triples(pts, idx, (t + 1) as nat) == kept_triples(
                    pts,
                    idx,
                    t as nat,
                ));
            }
        }
        t = t + 1;
    }
    r
}

/// Law: assembling a triangle covering is deterministic.  Two coverings
/// built over the same point set and the same triangulation carry the same
/// polygons, vertex for vertex; together with the determinism of sampling
/// (`lemma_points_with_corners_deterministic`), a triangle covering is
/// reproduced exactly by re-running with the same seed and inputs.
pub proof fn lemma_cover_triangles_deterministic(
    r1: Seq<Polygon>,
    r2: Seq<Polygon>,
    pts: Seq<Point>,
    idx: Seq<usize>,
)
    requires
        r1.len() == kept_triples(pts, idx, (idx.len() / 3) as nat).len(),
        forall|j: int|
            0 <= j < r1.len() ==> (#[trigger] r1[j]).pnts@ == triple_points(
                pts,
                idx,
                kept_triples(pts, idx, (idx.len() / 3) as nat)[j],
            ),
        r2.len() == kept_triples(pts, idx, (idx.len() / 3) as nat).len(),
        forall|j: int|
            0 <= j < r2.len() ==> (#[trigger] r2[j]).pnts@ == triple_points(
                pts,
                idx,
                kept_triples(pts, idx, (idx.len() / 3) as nat)[j],
            ),
    ensures
        r1.len() == r2.len(),
        forall|j: int| 0 <= j < r1.len() ==> (#[trigger] r1[j]).pnts@ == r2[j].pnts@,
{
}

/// Law: every vertex of a triangle covering lies in the canvas, because
/// each one is taken from the triangulated point set.
pub proof fn lemma_cover_triangles_in_canvas(
    r: Seq<Polygon>,
    pts: Seq<Point>,
    idx: Seq<usize>,
    w: int,
    h: int,
)
    requires
        forall|i: int| 0 <= i < pts.len() ==> (#[trigger] pts[i]).in_canvas(w, h),
        r.len() == kept_triples(pts, idx, (idx.len() / 3) as nat).len(),
        forall|j: int|
            0 <= j < r.len() ==> (#[trigger] r[j]).pnts@ == triple_points(
                pts,
                idx,
                kept_triples(pts, idx, (idx.len() / 3) as nat)[j],
            ),
    ensures
        forall|j: int| 0 <= j < r.len() ==> (#[trigger] r[j]).in_canvas(w, h),
{
    lemma_kept_triples_range(pts, idx, (idx.len() / 3) as nat);
    assert forall|j: int| 0 <= j < r.len() implies (#[trigger] r[j]).in_canvas(w, h) by {
        let t = kept_triples(pts, idx, (idx.len() / 3) as nat)[j];
        assert(triple_kept(pts, idx, t));
        assert(r[j].pnts@ == triple_points(pts, idx, t));
        assert forall|i: int| 0 <= i < r[j].pnts@.len() implies (#[trigger] r[j].pnts@[i])
            .in_canvas(w, h) by {
            assert(triple_points(pts, idx, t)[i] == r[j].pnts@[i]);
        };
    };
}

/// What the covering service hands back: either finished polygons, or — for
/// a triangle covering — the prepared point set, which still has to go
/// through a Delaunay triangulation before `cover_triangles` can assemble
/// the polygons.  The triangulation itself works in floating point and runs
/// outside this library.
#[derive(Debug, Clone, PartialEq, Eq)]
pub enum Covering {
    Polygons(Vec<Polygon>),
    TriangulationNeeded(Vec<Point>),
}

/// The covering kind named `name`: `"Rectangles"` selects the rectangle
/// covering, every other name the triangle covering.
pub fn covering_type_of_name(name: &String) -> (r: CoveringType)
    ensures
        name@ == "Rectangles"@ ==> r == CoveringType::Rectangles,
        name@ != "Rectangles"@ ==> r == CoveringType::Triangles,
{
    let rectangles = "Rectangles".to_owned();
    if name.eq(&rectangles) {
        CoveringType::Rectangles
    } else {
        CoveringType::Triangles
    }
}

/// Generates a covering of the canvas `[0, w] x [0, h]` with about `n`
/// shapes of the requested kind.
///
/// Rectangle coverings come back finished.  A triangle covering needs a
/// Delaunay triangulation of the prepared point set, which this library
/// does not compute itself; the caller runs it and assembles the polygons
/// with `cover_triangles`.  A shape count of zero yields an empty covering
/// of either kind, and leaves the random source untouched.
pub fn generate_covering(
    kind: CoveringType,
    n: usize,
    w: u64,
    h: u64,
    rng: &mut SeededRng,
) -> (r: Covering)
    requires
        n <= MAX_SHAPES,
        1 <= w <= MAX_DIM,
        1 <= h <= MAX_DIM,
    ensures
        kind == CoveringType::Rectangles ==> (r matches Covering::Polygons(ps)
            && is_rectangle_covering(ps@, n as nat, w as int, h as int) && forall|i: int|
            0 <= i < ps@.len() ==> (#[trigger] ps@[i]).wf() && ps@[i].in_canvas(
                w as int,
                h as int,
            )),
        kind == CoveringType::Triangles && n == 0 ==> (r matches Covering::Polygons(ps)
            && ps@.len() == 0),
        kind == CoveringType::Triangles && n >= 1 ==> (r matches Covering::TriangulationNeeded(ps)
            && points_with_corners(
            ps@,
            old(rng).seed(),
            old(rng).history(),
            n as nat,
            w as int,
            h as int,
        ) && forall|i: int|
            0 <= i < ps@.len() ==> (#[trigger] ps@[i]).wf() && ps@[i].in_canvas(
                w as int,
                h as int,
            )),
        kind == CoveringType::Triangles && n >= 1 ==> final(rng).seed() == old(rng).seed()
            && final(rng).history() == jitter_history(old(rng).history(), (2 * n) as nat),
        kind == CoveringType::Rectangles || n == 0 ==> *final(rng) == *old(rng),
{
    match kind {
        CoveringType::Rectangles => Covering::Polygons(cover_rectangles(n, w, h)),
        CoveringType::Triangles => {
            if n == 0 {
                Covering::Polygons(Vec::new())
            } else {
                Covering::TriangulationNeeded(cover_triangles_points(n, w, h, rng))
            }
        },
    }
}

} // verus!
