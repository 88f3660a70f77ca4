use vstd::prelude::*;
use crate::cells::{CellArray, cells_of, has_shape, cell_get, cell_set};
use crate::diffusion::field_ok;
use crate::fixed::{TEMP_LIMIT, in_range, floor_div};

verus! {

/// The sum of row `y` over the first `n` columns.
pub open spec fn row_sum(s: Seq<Seq<i64>>, y: int, n: int) -> int
    decreases n,
{
    if n <= 0 {
        0
    } else {
        row_sum(s, y, n - 1) + s[n - 1][y]
    }
}

/// The mean of row `y` over all columns, rounded down.
pub open spec fn row_mean(s: Seq<Seq<i64>>, y: int) -> int {
    row_sum(s, y, s.len() as int) / (s.len() as int)
}

/// `s` with each pole row (row `0` and row `h - 1`) replaced by its mean:
/// a pole is a single point, not a ring of independent cells.
pub open spec fn homogenize(s: Seq<Seq<i64>>, h: int) -> Seq<Seq<i64>> {
    Seq::new(
        s.len(),
        |x: int|
            Seq::new(
                s[x].len(),
                |y: int|
                    if y == 0 {
                        row_mean(s, 0) as i64
                    } else if y == h - 1 {
                        row_mean(s, h - 1) as i64
                    } else {
                        s[x][y]
                    },
            ),
    )
}

pub proof fn lemma_row_sum_bounds(s: Seq<Seq<i64>>, y: int, n: int, w: int, h: int)
    requires
        field_ok(s, w, h),
        0 <= y < h,
        0 <= n <= w,
    ensures
        -n * TEMP_LIMIT <= row_sum(s, y, n) <= n * TEMP_LIMIT,
    decreases n,
{
    if n > 0 {
        lemma_row_sum_bounds(s, y, n - 1, w, h);
        assert(in_range(s[n - 1][y] as int));
    }
}

/// A row whose first `n` cells all hold `v` sums to `n * v`.
pub proof fn lemma_row_sum_uniform(s: Seq<Seq<i64>>, y: int, n: int, v: int, w: int, h: int)
    requires
        has_shape(s, w, h),
        0 <= y < h,
        0 <= n <= w,
        forall|x: int| 0 <= x < n ==> #[trigger] s[x][y] == v,
    ensures
        row_sum(s, y, n) == n * v,
    decreases n,
{
    if n > 0 {
        lemma_row_sum_uniform(s, y, n - 1, v, w, h);
        assert(s[n - 1][y] == v);
        assert(n * v == (n - 1) * v + v) by (nonlinear_arith);
        assert(row_sum(s, y, n) == row_sum(s, y, n - 1) + s[n - 1][y]);
    } else {
        assert(n * v == 0) by (nonlinear_arith)
            requires
                n == 0,
        ;
    }
}

pub proof fn lemma_row_mean_in_range(s: Seq<Seq<i64>>, y: int, w: int, h: int)
    requires
        field_ok(s, w, h),
        0 <= y < h,
        w >= 1,
    ensures
        in_range(row_mean(s, y)),
{
    lemma_row_sum_bounds(s, y, w, w, h);
    let t = row_sum(s, y, w);
    let q = t / w;
    let l = TEMP_LIMIT as int;
    vstd::arithmetic::div_mod::lemma_fundamental_div_mod(t, w);
    assert(-l <= q <= l) by (nonlinear_arith)
        requires
            -w * l <= t <= w * l,
            t == w * q + t % w,
            0 <= t % w < w,
            w >= 1,
            l > 0,
    ;
}

/// After homogenization every cell of each pole row holds the same value.
pub proof fn lemma_homogenize_poles(s: Seq<Seq<i64>>, w: int, h: int)
    requires
        has_shape(s, w, h),
        w >= 1,
        h >= 2,
    ensures
        has_shape(homogenize(s, h), w, h),
        forall|x: int| 0 <= x < w ==> #[trigger] homogenize(s, h)[x][0] == homogenize(s, h)[0][0],
        forall|x: int|
            0 <= x < w ==> #[trigger] homogenize(s, h)[x][h - 1] == homogenize(s, h)[0][h - 1],
{
}

/// The mean of row `y`, rounded down.
fn pole_mean(a: &CellArray, w: usize, h: usize, y: usize) -> (m: i64)
    requires
        field_ok(cells_of(*a), w as int, h as int),
        w >= 1,
        y < h,
    ensures
        m == row_mean(cells_of(*a), y as int),
{
    let ghost s = cells_of(*a);
    let mut sum: i128 = 0;
    let mut x: usize = 0;
    while x < w
        invariant
            field_ok(s, w as int, h as int),
            s == cells_of(*a),
            y < h,
            x <= w,
            sum == row_sum(s, y as int, x as int),
            -x * TEMP_LIMIT <= sum <= x * TEMP_LIMIT,
            w <= usize::MAX,
        decreases w - x,
    {
        proof {
            lemma_row_sum_bounds(s, y as int, x + 1, w as int, h as int);
        }
        sum = sum + cell_get(a, x, y) as i128;
        x += 1;
    }
    proof {
        lemma_row_mean_in_range(s, y as int, w as int, h as int);
    }
    floor_div(sum, w as i128) as i64
}

/// Replaces every cell of row `y` with `v`.
fn fill_row(a: &mut CellArray, w: usize, h: usize, y: usize, v: i64)
    requires
        has_shape(cells_of(*old(a)), w as int, h as int),
        y < h,
    ensures
        has_shape(cells_of(*final(a)), w as int, h as int),
        forall|x: int, j: int|
            0 <= x < w && 0 <= j < h ==> #[trigger] cells_of(*final(a))[x][j] == if j == y {
                v
            } else {
                cells_of(*old(a))[x][j]
            },
{
    let ghost s0 = cells_of(*a);
    let mut x: usize = 0;
    while x < w
        invariant
            has_shape(s0, w as int, h as int),
            has_shape(cells_of(*a), w as int, h as int),
            y < h,
            x <= w,
            forall|i: int, j: int|
                0 <= i < w && 0 <= j < h ==> #[trigger] cells_of(*a)[i][j] == if j == y && i
                    < x {
                    v
                } else {
                    s0[i][j]
                },
        decreases w - x,
    {
        cell_set(a, x, y, v);
        x += 1;
    }
}

/// Resets both pole rows to their own mean.
pub fn homogenize_poles(a: &mut CellArray, w: usize, h: usize)
    requires
        field_ok(cells_of(*old(a)), w as int, h as int),
        w >= 1,
        h >= 2,
    ensures
        cells_of(*final(a)) == homogenize(cells_of(*old(a)), h as int),
        field_ok(cells_of(*final(a)), w as int, h as int),
{
    let ghost s0 = cells_of(*a);
    let first = pole_mean(a, w, h, 0);
    let last = pole_mean(a, w, h, h - 1);
    fill_row(a, w, h, 0, first);
    fill_row(a, w, h, h - 1, last);
    proof {
        lemma_row_mean_in_range(s0, 0, w as int, h as int);
        lemma_row_mean_in_range(s0, h - 1, w as int, h as int);
        assert(cells_of(*a) =~~= homogenize(s0, h as int));
    }
}

} // verus!
