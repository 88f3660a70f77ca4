use vstd::prelude::*;
use crate::cells::MAX_CELLS;
use crate::diffusion::field_ok;
use crate::fixed::{TEMP_LIMIT, in_range, floor_div};
use crate::temp::TempMap;

verus! {

/// The sum of the first `n` entries of `col`.
pub open spec fn col_sum(col: Seq<i64>, n: int) -> int
    decreases n,
{
    if n <= 0 {
        0
    } else {
        col_sum(col, n - 1) + col[n - 1]
    }
}

/// The sum of the first `n` columns of `s`, each over `h` rows.
pub open spec fn grid_sum(s: Seq<Seq<i64>>, n: int, h: int) -> int
    decreases n,
{
    if n <= 0 {
        0
    } else {
        grid_sum(s, n - 1, h) + col_sum(s[n - 1], h)
    }
}

/// A summary of the field: extremes, the mean (rounded down) and the first
/// column's cell at each pole.
#[derive(Clone, Copy, Debug, PartialEq, Eq, Structural)]
pub struct HeatStats {
    pub max: i64,
    pub min: i64,
    pub avg: i64,
    /// Cell `(0, height - 1)`.
    pub south: i64,
    /// Cell `(0, 0)`.
    pub north: i64,
}

/// Whether `st` summarizes the `w` by `h` field `s`.
pub open spec fn stats_of(s: Seq<Seq<i64>>, w: int, h: int, st: HeatStats) -> bool {
    &&& forall|x: int, y: int| 0 <= x < w && 0 <= y < h ==> #[trigger] s[x][y] <= st.max
    &&& exists|x: int, y: int| 0 <= x < w && 0 <= y < h && #[trigger] s[x][y] == st.max
    &&& forall|x: int, y: int| 0 <= x < w && 0 <= y < h ==> st.min <= #[trigger] s[x][y]
    &&& exists|x: int, y: int| 0 <= x < w && 0 <= y < h && #[trigger] s[x][y] == st.min
    &&& st.avg == grid_sum(s, w, h) / (w * h)
    &&& st.south == s[0][h - 1]
    &&& st.north == s[0][0]
}

proof fn lemma_col_sum_bounds(col: Seq<i64>, n: int)
    requires
        0 <= n <= col.len(),
        forall|y: int| 0 <= y < n ==> in_range(#[trigger] col[y] as int),
    ensures
        -(n * TEMP_LIMIT) <= col_sum(col, n) <= n * TEMP_LIMIT,
    decreases n,
{
    if n > 0 {
        lemma_col_sum_bounds(col, n - 1);
        assert(in_range(col[n - 1] as int));
    }
}

proof fn lemma_grid_sum_bounds(s: Seq<Seq<i64>>, n: int, w: int, h: int)
    requires
        field_ok(s, w, h),
        0 <= n <= w,
        h >= 0,
    ensures
        -(n * h * TEMP_LIMIT) <= grid_sum(s, n, h) <= n * h * TEMP_LIMIT,
    decreases n,
{
    if n > 0 {
        lemma_grid_sum_bounds(s, n - 1, w, h);
        assert(forall|y: int| 0 <= y < h ==> in_range(#[trigger] s[n - 1][y] as int));
        lemma_col_sum_bounds(s[n - 1], h);
        assert(n * h * TEMP_LIMIT == (n - 1) * h * TEMP_LIMIT + h * TEMP_LIMIT)
            by (nonlinear_arith);
    }
}

impl TempMap {
    /// The maximum, minimum and mean temperature, and the samples at the
    /// two poles, gathered in one pass.
    pub fn get_heat_stats(&self) -> (r: HeatStats)
        requires
            self.wf(),
        ensures
            stats_of(self@, self.spec_width() as int, self.spec_height() as int, r),
    {
        proof {
            self.lemma_wf();
        }
        let ghost s = self@;
        let w = self.width();
        let h = self.height();
        let mut max = self.get(0, 0);
        let mut min = max;
        let ghost mut max_at: (int, int) = (0, 0);
        let ghost mut min_at: (int, int) = (0, 0);
        let mut sum: i128 = 0;
        let mut x: usize = 0;
        while x < w
            invariant
                self.wf(),
                s == self@,
                w == self.spec_width(),
                h == self.spec_height(),
                2 <= w,
                2 <= h,
                w * h <= MAX_CELLS,
                field_ok(s, w as int, h as int),
                x <= w,
                sum == grid_sum(s, x as int, h as int),
                forall|i: int, j: int| 0 <= i < x && 0 <= j < h ==> #[trigger] s[i][j] <= max,
                forall|i: int, j: int| 0 <= i < x && 0 <= j < h ==> min <= #[trigger] s[i][j],
                0 <= max_at.0 < w && 0 <= max_at.1 < h && s[max_at.0][max_at.1] == max,
                0 <= min_at.0 < w && 0 <= min_at.1 < h && s[min_at.0][min_at.1] == min,
            decreases w - x,
        {
            let mut col: i128 = 0;
            let mut y: usize = 0;
            proof {
                lemma_grid_sum_bounds(s, x as int, w as int, h as int);
                assert(x * h * TEMP_LIMIT <= w * h * TEMP_LIMIT) by (nonlinear_arith)
                    requires
                        x <= w,
                        h >= 0,
                ;
            }
            while y < h
                invariant
                    self.wf(),
                    s == self@,
                    w == self.spec_width(),
                    h == self.spec_height(),
                    2 <= w,
                    2 <= h,
                    w * h <= MAX_CELLS,
                    field_ok(s, w as int, h as int),
                    x < w,
                    y <= h,
                    sum == grid_sum(s, x as int, h as int),
                    -(w * h * TEMP_LIMIT) <= sum <= w * h * TEMP_LIMIT,
                    col == col_sum(s[x as int], y as int),
                    -(y * TEMP_LIMIT) <= col <= y * TEMP_LIMIT,
                    forall|i: int, j: int|
                        0 <= i < w && 0 <= j < h && (i < x || (i == x && j < y))
                            ==> #[trigger] s[i][j] <= max,
                    forall|i: int, j: int|
                        0 <= i < w && 0 <= j < h && (i < x || (i == x && j < y)) ==> min
                            <= #[trigger] s[i][j],
                    0 <= max_at.0 < w && 0 <= max_at.1 < h && s[max_at.0][max_at.1] == max,
                    0 <= min_at.0 < w && 0 <= min_at.1 < h && s[min_at.0][min_at.1] == min,
                decreases h - y,
            {
                let t = self.get(x, y);
                proof {
                    assert(in_range(t as int));
                }
                if t > max {
                    max = t;
                    proof {
                        max_at = (x as int, y as int);
                    }
                }
                if t < min {
                    min = t;
                    proof {
                        min_at = (x as int, y as int);
                    }
                }
                col = col + t as i128;
                y += 1;
            }
            proof {
                assert(forall|j: int| 0 <= j < h ==> in_range(#[trigger] s[x as int][j] as int));
                lemma_col_sum_bounds(s[x as int], h as int);
                lemma_grid_sum_bounds(s, x + 1, w as int, h as int);
            }
            sum = sum + col;
            x += 1;
        }
        let count = w as i128 * h as i128;
        proof {
            lemma_grid_sum_bounds(s, w as int, w as int, h as int);
            let q = grid_sum(s, w as int, h as int) / (w * h);
            let t = grid_sum(s, w as int, h as int);
            let n = w * h;
            assert(n >= 1) by (nonlinear_arith)
                requires
                    w >= 2,
                    h >= 2,
                    n == w * h,
            ;
            vstd::arithmetic::div_mod::lemma_fundamental_div_mod(t, n);
            assert(-TEMP_LIMIT <= q <= TEMP_LIMIT) by (nonlinear_arith)
                requires
                    -(n * TEMP_LIMIT) <= t <= n * TEMP_LIMIT,
                    t == n * q + t % n,
                    0 <= t % n < n,
                    n >= 1,
            ;
            assert(w * h * TEMP_LIMIT == (w * h) * TEMP_LIMIT) by (nonlinear_arith);
        }
        let avg = floor_div(sum, count) as i64;
        let south = self.get(0, h - 1);
        let north = self.get(0, 0);
        HeatStats { max, min, avg, south, north }
    }
}

} // verus!
