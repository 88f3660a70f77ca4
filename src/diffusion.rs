use vstd::prelude::*;
use crate::cells::MAX_CELLS;
use crate::cells::{CellArray, cells_of, has_shape, cells_zeroed, cell_get, cell_set};
use crate::config::{SimConfig, COEF_ONE, COEF_MAX};
use crate::fixed::{TEMP_LIMIT, saturate, in_range, floor_div, saturate_exec};
use crate::grid::{west, east, north, south, break_rows, west_of, east_of, north_of, south_of, break_rows_of};

verus! {

/// Whether `s` is a `w` by `h` field of storable temperatures.
pub open spec fn field_ok(s: Seq<Seq<i64>>, w: int, h: int) -> bool {
    &&& has_shape(s, w, h)
    &&& forall|x: int, y: int| 0 <= x < w && 0 <= y < h ==> in_range(#[trigger] s[x][y] as int)
}

/// The spherical Laplacian at `(x, y)` times `kappa * dt`, before scaling:
/// a one-sided colatitude difference on the equator side of the row, a
/// centred colatitude second difference clamped at the poles, and a centred
/// longitude second difference that wraps around.
pub open spec fn raw_rate(c: SimConfig, s: Seq<Seq<i64>>, x: int, y: int) -> int {
    let w = c.width as int;
    let h = c.height as int;
    let rows = break_rows(h, y);
    let t = s[x][y] as int;
    c.gradient_weight@[y] * (s[x][rows.0] - s[x][rows.1])
        + c.curvature_weight * (s[x][north(y)] - 2 * t + s[x][south(h, y)])
        + c.longitude_weight@[y] * (s[west(w, x)][y] - 2 * t + s[east(w, x)][y])
}

/// The increment of cell `(x, y)` over one time step, as the derivative
/// would give it: the scaled Laplacian, rounded down and saturated.
pub open spec fn rate(c: SimConfig, s: Seq<Seq<i64>>, x: int, y: int) -> int {
    saturate(raw_rate(c, s, x, y) / (COEF_ONE as int))
}

/// The derivative field of `s`.
pub open spec fn rate_field(c: SimConfig, s: Seq<Seq<i64>>) -> Seq<Seq<i64>> {
    Seq::new(c.width as nat, |x: int| Seq::new(c.height as nat, |y: int| rate(c, s, x, y) as i64))
}

/// `s + k / den` cell by cell, rounded down and saturated.
pub open spec fn stage(s: Seq<Seq<i64>>, k: Seq<Seq<i64>>, den: int) -> Seq<Seq<i64>> {
    Seq::new(
        s.len(),
        |x: int| Seq::new(s[x].len(), |y: int| saturate(s[x][y] + (k[x][y] as int) / den) as i64),
    )
}

/// `s + (k1 + 2 k2 + 2 k3 + k4) / 6` cell by cell, rounded down and saturated.
pub open spec fn blend(
    s: Seq<Seq<i64>>,
    k1: Seq<Seq<i64>>,
    k2: Seq<Seq<i64>>,
    k3: Seq<Seq<i64>>,
    k4: Seq<Seq<i64>>,
) -> Seq<Seq<i64>> {
    Seq::new(
        s.len(),
        |x: int|
            Seq::new(
                s[x].len(),
                |y: int|
                    saturate(s[x][y] + (k1[x][y] as int + 2 * k2[x][y] + 2 * k3[x][y] + k4[x][y]) / 6)
                        as i64,
            ),
    )
}

/// One classical fourth-order Runge-Kutta step of the diffusion equation.
#[verifier::opaque]
pub open spec fn rk4_step(c: SimConfig, s: Seq<Seq<i64>>) -> Seq<Seq<i64>> {
    rk4_of(c, s)
}

/// A time derivative on fields: maps a field to the increment of each cell
/// over one time step.
pub trait Derivative {
    /// Whether the derivative applies to `w` by `h` fields.
    spec fn accepts(&self, w: int, h: int) -> bool;

    /// The increments of the field `s`.
    spec fn spec_rate(&self, s: Seq<Seq<i64>>) -> Seq<Seq<i64>>;

    /// The increments of the field `s`.
    fn rate(&self, s: &CellArray, w: usize, h: usize) -> (r: CellArray)
        requires
            self.accepts(w as int, h as int),
            field_ok(cells_of(*s), w as int, h as int),
        ensures
            cells_of(r) == self.spec_rate(cells_of(*s)),
            field_ok(cells_of(r), w as int, h as int),
    ;
}

/// One classical fourth-order Runge-Kutta step of `f` from `s`:
/// `k1 = F(s)`, `k2 = F(s + k1/2)`, `k3 = F(s + k2/2)`, `k4 = F(s + k3)`,
/// then `s + (k1 + 2 k2 + 2 k3 + k4) / 6`.
pub open spec fn rk4_of<F: Derivative>(f: F, s: Seq<Seq<i64>>) -> Seq<Seq<i64>> {
    let k1 = f.spec_rate(s);
    let k2 = f.spec_rate(stage(s, k1, 2));
    let k3 = f.spec_rate(stage(s, k2, 2));
    let k4 = f.spec_rate(stage(s, k3, 1));
    blend(s, k1, k2, k3, k4)
}

impl Derivative for SimConfig {
    open spec fn accepts(&self, w: int, h: int) -> bool {
        self.wf() && w == self.width && h == self.height
    }

    open spec fn spec_rate(&self, s: Seq<Seq<i64>>) -> Seq<Seq<i64>> {
        rate_field(*self, s)
    }

    fn rate(&self, s: &CellArray, w: usize, h: usize) -> (r: CellArray) {
        rate_array(self, s)
    }
}

proof fn lemma_saturate_in_range(v: int)
    ensures
        in_range(saturate(v)),
        in_range(v) ==> saturate(v) == v,
{
}

pub proof fn lemma_rate_field_ok(c: SimConfig, s: Seq<Seq<i64>>)
    requires
        c.wf(),
    ensures
        field_ok(rate_field(c, s), c.width as int, c.height as int),
{
    let r = rate_field(c, s);
    assert forall|x: int, y: int| 0 <= x < c.width && 0 <= y < c.height implies in_range(
        #[trigger] r[x][y] as int,
    ) by {
        lemma_saturate_in_range(raw_rate(c, s, x, y) / (COEF_ONE as int));
    }
}

pub proof fn lemma_stage_ok(s: Seq<Seq<i64>>, k: Seq<Seq<i64>>, den: int, w: int, h: int)
    requires
        has_shape(s, w, h),
    ensures
        field_ok(stage(s, k, den), w, h),
{
    let r = stage(s, k, den);
    assert forall|x: int, y: int| 0 <= x < w && 0 <= y < h implies in_range(
        #[trigger] r[x][y] as int,
    ) by {
        lemma_saturate_in_range(s[x][y] + (k[x][y] as int) / den);
    }
}

pub proof fn lemma_blend_ok(
    s: Seq<Seq<i64>>,
    k1: Seq<Seq<i64>>,
    k2: Seq<Seq<i64>>,
    k3: Seq<Seq<i64>>,
    k4: Seq<Seq<i64>>,
    w: int,
    h: int,
)
    requires
        has_shape(s, w, h),
    ensures
        field_ok(blend(s, k1, k2, k3, k4), w, h),
{
    let r = blend(s, k1, k2, k3, k4);
    assert forall|x: int, y: int| 0 <= x < w && 0 <= y < h implies in_range(
        #[trigger] r[x][y] as int,
    ) by {
        lemma_saturate_in_range(
            s[x][y] + (k1[x][y] as int + 2 * k2[x][y] + 2 * k3[x][y] + k4[x][y]) / 6,
        );
    }
}

proof fn lemma_mul_bound(a: int, b: int, ba: int, bb: int)
    requires
        -ba <= a <= ba,
        -bb <= b <= bb,
    ensures
        -(ba * bb) <= a * b <= ba * bb,
{
    assert(-(ba * bb) <= a * b <= ba * bb) by (nonlinear_arith)
        requires
            -ba <= a <= ba,
            -bb <= b <= bb,
    ;
}

/// The increment of one cell over a time step.
fn cell_rate(c: &SimConfig, s: &CellArray, x: usize, y: usize) -> (r: i64)
    requires
        c.wf(),
        field_ok(cells_of(*s), c.width as int, c.height as int),
        x < c.width,
        y < c.height,
    ensures
        r == rate(*c, cells_of(*s), x as int, y as int),
{
    let w = c.width;
    let h = c.height;
    let rows = break_rows_of(h, y);
    let n = north_of(y);
    let so = south_of(h, y);
    let we = west_of(w, x);
    let ea = east_of(w, x);
    let t = cell_get(s, x, y) as i128;
    let far = cell_get(s, x, rows.0) as i128;
    let near = cell_get(s, x, rows.1) as i128;
    let tn = cell_get(s, x, n) as i128;
    let ts = cell_get(s, x, so) as i128;
    let tw = cell_get(s, we, y) as i128;
    let te = cell_get(s, ea, y) as i128;
    let gw = c.gradient_weight[y] as i128;
    let cw = c.curvature_weight as i128;
    let lw = c.longitude_weight[y] as i128;
    proof {
        let cm = COEF_MAX as int;
        let tl = TEMP_LIMIT as int;
        assert(in_range(far as int) && in_range(near as int) && in_range(t as int));
        assert(in_range(tn as int) && in_range(ts as int) && in_range(tw as int) && in_range(te as int));
        assert(-cm <= gw <= cm && -cm <= lw <= cm);
        lemma_mul_bound(gw as int, far - near, cm, 2 * tl);
        lemma_mul_bound(cw as int, tn - 2 * t + ts, cm, 4 * tl);
        lemma_mul_bound(lw as int, tw - 2 * t + te, cm, 4 * tl);
    }
    let raw = gw * (far - near) + cw * (tn - 2 * t + ts) + lw * (tw - 2 * t + te);
    saturate_exec(floor_div(raw, COEF_ONE))
}

/// The derivative field of `s`: the increment of every cell over one step.
pub fn rate_array(c: &SimConfig, s: &CellArray) -> (r: CellArray)
    requires
        c.wf(),
        field_ok(cells_of(*s), c.width as int, c.height as int),
    ensures
        cells_of(r) == rate_field(*c, cells_of(*s)),
        field_ok(cells_of(r), c.width as int, c.height as int),
{
    let w = c.width;
    let h = c.height;
    let mut r = cells_zeroed(w, h);
    let mut x: usize = 0;
    while x < w
        invariant
            c.wf(),
            w == c.width,
            h == c.height,
            field_ok(cells_of(*s), w as int, h as int),
            x <= w,
            has_shape(cells_of(r), w as int, h as int),
            forall|i: int, j: int|
                0 <= i < x && 0 <= j < h ==> #[trigger] cells_of(r)[i][j] == rate(
                    *c,
                    cells_of(*s),
                    i,
                    j,
                ),
        decreases w - x,
    {
        let mut y: usize = 0;
        while y < h
            invariant
                c.wf(),
                w == c.width,
                h == c.height,
                field_ok(cells_of(*s), w as int, h as int),
                x < w,
                y <= h,
                has_shape(cells_of(r), w as int, h as int),
                forall|i: int, j: int|
                    0 <= i < x && 0 <= j < h ==> #[trigger] cells_of(r)[i][j] == rate(
                        *c,
                        cells_of(*s),
                        i,
                        j,
                    ),
                forall|j: int| 0 <= j < y ==> #[trigger] cells_of(r)[x as int][j] == rate(
                    *c,
                    cells_of(*s),
                    x as int,
                    j,
                ),
            decreases h - y,
        {
            let v = cell_rate(c, s, x, y);
            cell_set(&mut r, x, y, v);
            y += 1;
        }
        x += 1;
    }
    proof {
        lemma_rate_field_ok(*c, cells_of(*s));
        assert(cells_of(r) =~~= rate_field(*c, cells_of(*s)));
    }
    r
}

/// `s + k / den` cell by cell, rounded down and saturated.
fn stage_array(s: &CellArray, k: &CellArray, den: i128, w: usize, h: usize) -> (r: CellArray)
    requires
        field_ok(cells_of(*s), w as int, h as int),
        field_ok(cells_of(*k), w as int, h as int),
        1 <= w,
        1 <= h,
        w * h <= MAX_CELLS,
        den == 1 || den == 2,
    ensures
        cells_of(r) == stage(cells_of(*s), cells_of(*k), den as int),
        field_ok(cells_of(r), w as int, h as int),
{
    let mut r = cells_zeroed(w, h);
    let mut x: usize = 0;
    while x < w
        invariant
            field_ok(cells_of(*s), w as int, h as int),
            field_ok(cells_of(*k), w as int, h as int),
            den == 1 || den == 2,
            x <= w,
            has_shape(cells_of(r), w as int, h as int),
            forall|i: int, j: int|
                0 <= i < x && 0 <= j < h ==> #[trigger] cells_of(r)[i][j] == saturate(
                    cells_of(*s)[i][j] + (cells_of(*k)[i][j] as int) / (den as int),
                ),
        decreases w - x,
    {
        let mut y: usize = 0;
        while y < h
            invariant
                field_ok(cells_of(*s), w as int, h as int),
                field_ok(cells_of(*k), w as int, h as int),
                den == 1 || den == 2,
                x < w,
                y <= h,
                has_shape(cells_of(r), w as int, h as int),
                forall|i: int, j: int|
                    0 <= i < x && 0 <= j < h ==> #[trigger] cells_of(r)[i][j] == saturate(
                        cells_of(*s)[i][j] + (cells_of(*k)[i][j] as int) / (den as int),
                    ),
                forall|j: int|
                    0 <= j < y ==> #[trigger] cells_of(r)[x as int][j] == saturate(
                        cells_of(*s)[x as int][j] + (cells_of(*k)[x as int][j] as int) / (
                        den as int),
                    ),
            decreases h - y,
        {
            let a = cell_get(s, x, y) as i128;
            let b = cell_get(k, x, y) as i128;
            let v = saturate_exec(a + floor_div(b, den));
            cell_set(&mut r, x, y, v);
            y += 1;
        }
        x += 1;
    }
    proof {
        lemma_stage_ok(cells_of(*s), cells_of(*k), den as int, w as int, h as int);
        assert(cells_of(r) =~~= stage(cells_of(*s), cells_of(*k), den as int));
    }
    r
}

/// `s + (k1 + 2 k2 + 2 k3 + k4) / 6` cell by cell, rounded down and saturated.
fn blend_array(
    s: &CellArray,
    k1: &CellArray,
    k2: &CellArray,
    k3: &CellArray,
    k4: &CellArray,
    w: usize,
    h: usize,
) -> (r: CellArray)
    requires
        field_ok(cells_of(*s), w as int, h as int),
        field_ok(cells_of(*k1), w as int, h as int),
        field_ok(cells_of(*k2), w as int, h as int),
        field_ok(cells_of(*k3), w as int, h as int),
        field_ok(cells_of(*k4), w as int, h as int),
        1 <= w,
        1 <= h,
        w * h <= MAX_CELLS,
    ensures
        cells_of(r) == blend(
            cells_of(*s),
            cells_of(*k1),
            cells_of(*k2),
            cells_of(*k3),
            cells_of(*k4),
        ),
        field_ok(cells_of(r), w as int, h as int),
{
    let ghost gs = cells_of(*s);
    let ghost g1 = cells_of(*k1);
    let ghost g2 = cells_of(*k2);
    let ghost g3 = cells_of(*k3);
    let ghost g4 = cells_of(*k4);
    let mut r = cells_zeroed(w, h);
    let mut x: usize = 0;
    while x < w
        invariant
            field_ok(gs, w as int, h as int),
            field_ok(g1, w as int, h as int),
            field_ok(g2, w as int, h as int),
            field_ok(g3, w as int, h as int),
            field_ok(g4, w as int, h as int),
            gs == cells_of(*s),
            g1 == cells_of(*k1),
            g2 == cells_of(*k2),
            g3 == cells_of(*k3),
            g4 == cells_of(*k4),
            x <= w,
            has_shape(cells_of(r), w as int, h as int),
            forall|i: int, j: int|
                0 <= i < x && 0 <= j < h ==> #[trigger] cells_of(r)[i][j] == saturate(
                    gs[i][j] + (g1[i][j] as int + 2 * g2[i][j] + 2 * g3[i][j] + g4[i][j]) / 6,
                ),
        decreases w - x,
    {
        let mut y: usize = 0;
        while y < h
            invariant
                field_ok(gs, w as int, h as int),
                field_ok(g1, w as int, h as int),
                field_ok(g2, w as int, h as int),
                field_ok(g3, w as int, h as int),
                field_ok(g4, w as int, h as int),
                gs == cells_of(*s),
                g1 == cells_of(*k1),
                g2 == cells_of(*k2),
                g3 == cells_of(*k3),
                g4 == cells_of(*k4),
                x < w,
                y <= h,
                has_shape(cells_of(r), w as int, h as int),
                forall|i: int, j: int|
                    0 <= i < x && 0 <= j < h ==> #[trigger] cells_of(r)[i][j] == saturate(
                        gs[i][j] + (g1[i][j] as int + 2 * g2[i][j] + 2 * g3[i][j] + g4[i][j]) / 6,
                    ),
                forall|j: int|
                    0 <= j < y ==> #[trigger] cells_of(r)[x as int][j] == saturate(
                        gs[x as int][j] + (g1[x as int][j] as int + 2 * g2[x as int][j] + 2
                            * g3[x as int][j] + g4[x as int][j]) / 6,
                    ),
            decreases h - y,
        {
            let a = cell_get(s, x, y) as i128;
            let b1 = cell_get(k1, x, y) as i128;
            let b2 = cell_get(k2, x, y) as i128;
            let b3 = cell_get(k3, x, y) as i128;
            let b4 = cell_get(k4, x, y) as i128;
            let v = saturate_exec(a + floor_div(b1 + 2 * b2 + 2 * b3 + b4, 6));
            cell_set(&mut r, x, y, v);
            y += 1;
        }
        x += 1;
    }
    proof {
        lemma_blend_ok(gs, g1, g2, g3, g4, w as int, h as int);
        assert(cells_of(r) =~~= blend(gs, g1, g2, g3, g4));
    }
    r
}

/// One classical fourth-order Runge-Kutta step of the derivative `f` from
/// `t0`, with the time step folded into `f`.
pub fn system_rk4_step<F: Derivative>(f: &F, t0: &CellArray, w: usize, h: usize) -> (r: CellArray)
    requires
        f.accepts(w as int, h as int),
        1 <= w,
        1 <= h,
        w * h <= MAX_CELLS,
        field_ok(cells_of(*t0), w as int, h as int),
    ensures
        cells_of(r) == rk4_of(*f, cells_of(*t0)),
        field_ok(cells_of(r), w as int, h as int),
{
    let k1 = f.rate(t0, w, h);
    let s1 = stage_array(t0, &k1, 2, w, h);
    let k2 = f.rate(&s1, w, h);
    let s2 = stage_array(t0, &k2, 2, w, h);
    let k3 = f.rate(&s2, w, h);
    let s3 = stage_array(t0, &k3, 1, w, h);
    let k4 = f.rate(&s3, w, h);
    blend_array(t0, &k1, &k2, &k3, &k4, w, h)
}

/// One classical fourth-order Runge-Kutta step of spherical heat diffusion:
/// the derivative is the discrete spherical Laplacian of `c`.
pub fn heat_eq_step_spherical(c: &SimConfig, t0: &CellArray) -> (r: CellArray)
    requires
        c.wf(),
        field_ok(cells_of(*t0), c.width as int, c.height as int),
    ensures
        cells_of(r) == rk4_step(*c, cells_of(*t0)),
        field_ok(cells_of(r), c.width as int, c.height as int),
{
    let r = system_rk4_step(c, t0, c.width, c.height);
    proof {
        reveal(rk4_step);
    }
    r
}

} // verus!
