use vstd::prelude::*;
use crate::cells::has_shape;
use crate::config::{SimConfig, SunDirection};
use crate::diffusion::{field_ok, rk4_step, rate_field, raw_rate, stage, blend};
use crate::fixed::in_range;
use crate::grid::break_rows;
use crate::insolation::{flux_pp, flux_field};
use crate::poles::{homogenize, row_mean, lemma_row_sum_uniform, lemma_homogenize_poles};
use crate::temp::{TempMap, add_field, radiate_field, heat_step, heat_steps};

verus! {

/// One climate tick from field `s`: the insolation is added, `c.substeps`
/// diffusion steps follow, then black-body cooling.
pub open spec fn tick(c: SimConfig, s: Seq<Seq<i64>>, sun: SunDirection) -> Seq<Seq<i64>> {
    radiate_field(c, heat_steps(c, add_field(s, flux_field(c, sun)), c.substeps as nat))
}

/// Runs the configured number of diffusion sub-steps on the field.
pub fn apply_heat_eq(temp: &mut TempMap, c: &SimConfig)
    requires
        old(temp).wf(),
        c.wf(),
        old(temp).fits(*c),
    ensures
        final(temp).wf(),
        final(temp).fits(*c),
        final(temp)@ == heat_steps(*c, old(temp)@, c.substeps as nat),
{
    let ghost s0 = temp@;
    let mut steps: u32 = 0;
    while steps < c.substeps
        invariant
            temp.wf(),
            c.wf(),
            temp.fits(*c),
            steps <= c.substeps,
            temp@ == heat_steps(*c, s0, steps as nat),
        decreases c.substeps - steps,
    {
        temp.apply_heat_eq(c);
        steps += 1;
    }
}

/// Adds the insolation for the given sub-solar direction to the field.
pub fn apply_heat_in(temp: &mut TempMap, c: &SimConfig, sun: &SunDirection)
    requires
        old(temp).wf(),
        c.wf(),
        sun.wf(),
        old(temp).fits(*c),
    ensures
        final(temp).wf(),
        final(temp).fits(*c),
        final(temp)@ == add_field(old(temp)@, flux_field(*c, *sun)),
{
    let flux = flux_pp(c, sun);
    temp.add_heat(&flux);
}

/// Applies one black-body cooling step to the field.
pub fn apply_black_body_radiation(temp: &mut TempMap, c: &SimConfig)
    requires
        old(temp).wf(),
        c.wf(),
        old(temp).fits(*c),
    ensures
        final(temp).wf(),
        final(temp).fits(*c),
        final(temp)@ == radiate_field(*c, old(temp)@),
{
    temp.radiate_black_body(c);
}

/// One climate tick: insolation, the diffusion sub-steps, then cooling.
pub fn tick_climate(temp: &mut TempMap, c: &SimConfig, sun: &SunDirection)
    requires
        old(temp).wf(),
        c.wf(),
        sun.wf(),
        old(temp).fits(*c),
    ensures
        final(temp).wf(),
        final(temp).fits(*c),
        final(temp)@ == tick(*c, old(temp)@, *sun),
{
    apply_heat_in(temp, c, sun);
    apply_heat_eq(temp, c);
    apply_black_body_radiation(temp, c);
}

/// Whether every cell of the `w` by `h` field `s` holds `v`.
pub open spec fn is_uniform(s: Seq<Seq<i64>>, w: int, h: int, v: i64) -> bool {
    &&& has_shape(s, w, h)
    &&& forall|x: int, y: int| 0 <= x < w && 0 <= y < h ==> #[trigger] s[x][y] == v
}

proof fn lemma_uniform_rate_is_zero(c: SimConfig, s: Seq<Seq<i64>>, v: i64)
    requires
        c.wf(),
        is_uniform(s, c.width as int, c.height as int, v),
    ensures
        is_uniform(rate_field(c, s), c.width as int, c.height as int, 0),
{
    let w = c.width as int;
    let h = c.height as int;
    assert forall|x: int, y: int| 0 <= x < w && 0 <= y < h implies #[trigger] rate_field(c, s)[x][y]
        == 0 by {
        let rows = break_rows(h, y);
        assert(s[x][rows.0] == v && s[x][rows.1] == v);
        assert(s[x][crate::grid::north(y)] == v && s[x][crate::grid::south(h, y)] == v);
        assert(s[crate::grid::west(w, x)][y] == v && s[crate::grid::east(w, x)][y] == v);
        let t = s[x][y] as int;
        let d1 = s[x][rows.0] - s[x][rows.1];
        let d2 = s[x][crate::grid::north(y)] - 2 * t + s[x][crate::grid::south(h, y)];
        let d3 = s[crate::grid::west(w, x)][y] - 2 * t + s[crate::grid::east(w, x)][y];
        assert(d1 == 0 && d2 == 0 && d3 == 0);
        let g = c.gradient_weight@[y] as int;
        let k = c.curvature_weight as int;
        let l = c.longitude_weight@[y] as int;
        assert(g * d1 + k * d2 + l * d3 == 0) by (nonlinear_arith)
            requires
                d1 == 0,
                d2 == 0,
                d3 == 0,
        ;
        assert(raw_rate(c, s, x, y) == 0);
    }
}

proof fn lemma_stage_of_zero(s: Seq<Seq<i64>>, k: Seq<Seq<i64>>, den: int, w: int, h: int)
    requires
        field_ok(s, w, h),
        is_uniform(k, w, h, 0),
        den > 0,
    ensures
        stage(s, k, den) == s,
{
    assert forall|x: int, y: int| 0 <= x < w && 0 <= y < h implies #[trigger] stage(s, k, den)[x][y]
        == s[x][y] by {
        assert(in_range(s[x][y] as int));
        assert(k[x][y] == 0);
    }
    assert(stage(s, k, den) =~~= s);
}

/// One Runge-Kutta step leaves a uniform field exactly as it was: the
/// discrete Laplacian of a constant field is zero at every cell, pole rows
/// included.
pub proof fn lemma_uniform_rk4_step(c: SimConfig, s: Seq<Seq<i64>>, v: i64)
    requires
        c.wf(),
        in_range(v as int),
        is_uniform(s, c.width as int, c.height as int, v),
    ensures
        rk4_step(c, s) == s,
{
    let w = c.width as int;
    let h = c.height as int;
    let k1 = rate_field(c, s);
    lemma_uniform_rate_is_zero(c, s, v);
    lemma_stage_of_zero(s, k1, 2, w, h);
    lemma_stage_of_zero(s, k1, 1, w, h);
    let s1 = stage(s, k1, 2);
    assert(s1 == s);
    let k2 = rate_field(c, s1);
    assert(k2 == k1);
    let s2 = stage(s, k2, 2);
    assert(s2 == s);
    let k3 = rate_field(c, s2);
    assert(k3 == k1);
    let s3 = stage(s, k3, 1);
    assert(s3 == s);
    let k4 = rate_field(c, s3);
    assert(k4 == k1);
    assert(rk4_step(c, s) == blend(s, k1, k2, k3, k4)) by {
        reveal(rk4_step);
    }
    lemma_blend_of_zero(s, k1, w, h);
}

proof fn lemma_blend_of_zero(s: Seq<Seq<i64>>, k: Seq<Seq<i64>>, w: int, h: int)
    requires
        field_ok(s, w, h),
        is_uniform(k, w, h, 0),
    ensures
        blend(s, k, k, k, k) == s,
{
    let b = blend(s, k, k, k, k);
    assert forall|x: int, y: int| 0 <= x < w && 0 <= y < h implies #[trigger] b[x][y] == s[x][y] by {
        assert(k[x][y] == 0);
        assert(in_range(s[x][y] as int));
    }
    assert(b =~~= s);
}

/// Homogenizing the poles of a uniform field changes nothing.
pub proof fn lemma_uniform_homogenize(s: Seq<Seq<i64>>, w: int, h: int, v: i64)
    requires
        is_uniform(s, w, h, v),
        w >= 1,
        h >= 2,
    ensures
        homogenize(s, h) == s,
{
    lemma_row_sum_uniform(s, 0, w, v as int, w, h);
    lemma_row_sum_uniform(s, h - 1, w, v as int, w, h);
    vstd::arithmetic::div_mod::lemma_div_multiples_vanish(v as int, w);
    assert(row_mean(s, 0) == v);
    assert(row_mean(s, h - 1) == v);
    assert(homogenize(s, h) =~~= s);
}

/// Diffusion conserves a uniform field: any number of diffusion steps (each
/// a Runge-Kutta step followed by pole homogenization), with no insolation
/// and no cooling, leave a field whose cells all hold `v` exactly as it was.
pub proof fn lemma_uniform_field_is_steady(c: SimConfig, s: Seq<Seq<i64>>, v: i64, n: nat)
    requires
        c.wf(),
        in_range(v as int),
        is_uniform(s, c.width as int, c.height as int, v),
    ensures
        heat_steps(c, s, n) == s,
    decreases n,
{
    if n > 0 {
        lemma_uniform_field_is_steady(c, s, v, (n - 1) as nat);
        lemma_uniform_rk4_step(c, s, v);
        lemma_uniform_homogenize(s, c.width as int, c.height as int, v);
    }
}

/// After a diffusion step every cell of row `0` holds one value, and every
/// cell of row `height - 1` holds one value, whatever the field before.
pub proof fn lemma_pole_rows_homogeneous(c: SimConfig, s: Seq<Seq<i64>>)
    requires
        c.wf(),
        field_ok(s, c.width as int, c.height as int),
    ensures
        forall|x: int|
            0 <= x < c.width ==> #[trigger] heat_step(c, s)[x][0] == heat_step(c, s)[0][0],
        forall|x: int|
            0 <= x < c.width ==> #[trigger] heat_step(c, s)[x][c.height - 1] == heat_step(
                c,
                s,
            )[0][c.height - 1],
{
    lemma_rk4_step_ok(c, s);
    lemma_homogenize_poles(rk4_step(c, s), c.width as int, c.height as int);
}

proof fn lemma_rk4_step_ok(c: SimConfig, s: Seq<Seq<i64>>)
    requires
        c.wf(),
        field_ok(s, c.width as int, c.height as int),
    ensures
        field_ok(rk4_step(c, s), c.width as int, c.height as int),
{
    reveal(rk4_step);
    crate::diffusion::lemma_blend_ok(
        s,
        rate_field(c, s),
        rate_field(c, stage(s, rate_field(c, s), 2)),
        rate_field(c, stage(s, rate_field(c, stage(s, rate_field(c, s), 2)), 2)),
        rate_field(
            c,
            stage(s, rate_field(c, stage(s, rate_field(c, stage(s, rate_field(c, s), 2)), 2)), 1),
        ),
        c.width as int,
        c.height as int,
    );
}

/// Repeated diffusion steps stay bounded: from any storable field, every
/// cell after any number of steps lies within `[-TEMP_LIMIT, TEMP_LIMIT]`.
pub proof fn lemma_steps_stay_bounded(c: SimConfig, s: Seq<Seq<i64>>, n: nat)
    requires
        c.wf(),
        field_ok(s, c.width as int, c.height as int),
    ensures
        field_ok(heat_steps(c, s, n), c.width as int, c.height as int),
    decreases n,
{
    if n > 0 {
        let p = heat_steps(c, s, (n - 1) as nat);
        lemma_steps_stay_bounded(c, s, (n - 1) as nat);
        lemma_rk4_step_ok(c, p);
        crate::poles::lemma_row_mean_in_range(rk4_step(c, p), 0, c.width as int, c.height as int);
        crate::poles::lemma_row_mean_in_range(
            rk4_step(c, p),
            c.height - 1,
            c.width as int,
            c.height as int,
        );
    }
}

} // verus!
