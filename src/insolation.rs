use vstd::prelude::*;
use crate::cells::{CellArray, cells_of, has_shape, cells_zeroed, cell_set};
use crate::config::{SimConfig, SunDirection, UNIT, TRANS_ONE, TRANS_MAX, GAIN_MAX};

verus! {

/// The dot product of the surface normal of cell `(x, y)` with the sub-solar
/// direction, scaled by `UNIT^3`. The normal is
/// `(sin phi cos theta, sin phi sin theta, cos phi)` with `phi` the row's
/// colatitude and `theta` the column's longitude.
pub open spec fn normal_dot(c: SimConfig, sun: SunDirection, x: int, y: int) -> int {
    c.row_sin@[y] * (c.col_cos@[x] * sun.x + c.col_sin@[x] * sun.y) + c.row_cos@[y] * sun.z
        * UNIT
}

/// The cosine of the solar zenith angle at cell `(x, y)`, scaled by `UNIT`:
/// zero on the night side, at most `UNIT`.
pub open spec fn zenith_cos(c: SimConfig, sun: SunDirection, x: int, y: int) -> int {
    let d = normal_dot(c, sun, x, y);
    if d <= 0 {
        0
    } else if d / (UNIT * UNIT) > UNIT {
        UNIT as int
    } else {
        d / (UNIT * UNIT)
    }
}

/// Atmospheric transmission at zenith cosine `mu`: zero when the sun is at or
/// below the horizon.
pub open spec fn transmission(c: SimConfig, mu: int) -> int {
    if mu > 0 {
        c.transmission@[mu] as int
    } else {
        0
    }
}

/// Absorbed flux at zenith cosine `mu`:
/// `flux_gain * mu * transmission(mu)`, rescaled and rounded down.
pub open spec fn flux_at(c: SimConfig, mu: int) -> int {
    c.flux_gain * mu * transmission(c, mu) / (UNIT * TRANS_ONE)
}

/// The absorbed flux of every cell.
pub open spec fn flux_field(c: SimConfig, sun: SunDirection) -> Seq<Seq<i64>> {
    Seq::new(
        c.width as nat,
        |x: int| Seq::new(c.height as nat, |y: int| flux_at(c, zenith_cos(c, sun, x, y)) as i64),
    )
}

proof fn lemma_flux_bounds(c: SimConfig, mu: int)
    requires
        c.wf(),
        0 <= mu <= UNIT,
    ensures
        0 <= c.flux_gain * mu * transmission(c, mu) <= GAIN_MAX * UNIT * TRANS_MAX,
        0 <= flux_at(c, mu) <= GAIN_MAX * 16,
{
    let g = c.flux_gain as int;
    let t = transmission(c, mu);
    let p = g * mu * t;
    if mu > 0 {
        assert(0 <= t <= TRANS_MAX);
    }
    assert(0 <= p <= GAIN_MAX * UNIT * TRANS_MAX) by (nonlinear_arith)
        requires
            0 <= g <= GAIN_MAX,
            0 <= mu <= UNIT,
            0 <= t <= TRANS_MAX,
            p == g * mu * t,
    ;
    let d = UNIT * TRANS_ONE;
    vstd::arithmetic::div_mod::lemma_fundamental_div_mod(p, d);
    assert(0 <= p / d <= GAIN_MAX * 16) by (nonlinear_arith)
        requires
            0 <= p <= GAIN_MAX * UNIT * TRANS_MAX,
            d == UNIT * TRANS_ONE,
            p == d * (p / d) + p % d,
            0 <= p % d < d,
    ;
}

/// The dot product of cell `(x, y)`'s surface normal with the sub-solar
/// direction, scaled by `UNIT^3`.
pub fn my_f(c: &SimConfig, x: usize, y: usize, sun: &SunDirection) -> (r: i128)
    requires
        c.wf(),
        sun.wf(),
        x < c.width,
        y < c.height,
    ensures
        r == normal_dot(*c, *sun, x as int, y as int),
{
    let rs = c.row_sin[y] as i128;
    let rc = c.row_cos[y] as i128;
    let cc = c.col_cos[x] as i128;
    let cs = c.col_sin[x] as i128;
    let u = UNIT as i128;
    proof {
        let b = UNIT as int;
        assert(-b <= rs <= b && -b <= rc <= b && -b <= cc <= b && -b <= cs <= b);
        assert(-b * b <= cc * sun.x <= b * b) by (nonlinear_arith)
            requires
                -b <= cc <= b,
                -b <= sun.x <= b,
        ;
        assert(-b * b <= cs * sun.y <= b * b) by (nonlinear_arith)
            requires
                -b <= cs <= b,
                -b <= sun.y <= b,
        ;
        assert(-b * (2 * b * b) <= rs * (cc * sun.x + cs * sun.y) <= b * (2 * b * b))
            by (nonlinear_arith)
            requires
                -b <= rs <= b,
                -2 * b * b <= cc * sun.x + cs * sun.y <= 2 * b * b,
        ;
        assert(-b * b <= rc * sun.z <= b * b) by (nonlinear_arith)
            requires
                -b <= rc <= b,
                -b <= sun.z <= b,
        ;
        assert(-b * b * b <= rc * sun.z * b <= b * b * b) by (nonlinear_arith)
            requires
                -b * b <= rc * sun.z <= b * b,
                b > 0,
        ;
    }
    rs * (cc * sun.x as i128 + cs * sun.y as i128) + rc * sun.z as i128 * u
}

/// The cosine of the solar zenith angle at cell `(x, y)`, scaled by `UNIT`,
/// clamped to zero on the night side.
pub fn zenith_cos_at(c: &SimConfig, x: usize, y: usize, sun: &SunDirection) -> (mu: i64)
    requires
        c.wf(),
        sun.wf(),
        x < c.width,
        y < c.height,
    ensures
        mu == zenith_cos(*c, *sun, x as int, y as int),
        0 <= mu <= UNIT,
{
    let d = my_f(c, x, y, sun);
    if d <= 0 {
        0
    } else {
        let q = d / (UNIT as i128 * UNIT as i128);
        if q > UNIT as i128 {
            UNIT
        } else {
            q as i64
        }
    }
}

/// Atmospheric transmission at zenith cosine `mu` (scaled by `UNIT`): zero
/// when the sun is at or below the horizon.
pub fn transmission_f(c: &SimConfig, mu: i64) -> (r: i64)
    requires
        c.wf(),
        mu <= UNIT,
    ensures
        r == transmission(*c, mu as int),
        0 <= r <= TRANS_MAX,
{
    if mu > 0 {
        c.transmission[mu as usize]
    } else {
        0
    }
}

/// Absorbed flux at zenith cosine `mu` (scaled by `UNIT`).
pub fn flux(c: &SimConfig, mu: i64) -> (r: i64)
    requires
        c.wf(),
        0 <= mu <= UNIT,
    ensures
        r == flux_at(*c, mu as int),
        0 <= r <= GAIN_MAX * 16,
{
    let t = transmission_f(c, mu);
    proof {
        lemma_flux_bounds(*c, mu as int);
        assert(0 <= c.flux_gain * mu <= GAIN_MAX * UNIT) by (nonlinear_arith)
            requires
                0 <= c.flux_gain <= GAIN_MAX,
                0 <= mu <= UNIT,
        ;
    }
    let p = c.flux_gain as i128 * mu as i128 * t as i128;
    (p / (UNIT as i128 * TRANS_ONE)) as i64
}

/// The absorbed flux of every cell for the given sub-solar direction.
pub fn flux_pp(c: &SimConfig, sun: &SunDirection) -> (r: CellArray)
    requires
        c.wf(),
        sun.wf(),
    ensures
        cells_of(r) == flux_field(*c, *sun),
        has_shape(cells_of(r), c.width as int, c.height as int),
{
    let w = c.width;
    let h = c.height;
    let mut r = cells_zeroed(w, h);
    let mut x: usize = 0;
    while x < w
        invariant
            c.wf(),
            sun.wf(),
            w == c.width,
            h == c.height,
            x <= w,
            has_shape(cells_of(r), w as int, h as int),
            forall|i: int, j: int|
                0 <= i < x && 0 <= j < h ==> #[trigger] cells_of(r)[i][j] == flux_at(
                    *c,
                    zenith_cos(*c, *sun, i, j),
                ),
        decreases w - x,
    {
        let mut y: usize = 0;
        while y < h
            invariant
                c.wf(),
                sun.wf(),
                w == c.width,
                h == c.height,
                x < w,
                y <= h,
                has_shape(cells_of(r), w as int, h as int),
                forall|i: int, j: int|
                    0 <= i < x && 0 <= j < h ==> #[trigger] cells_of(r)[i][j] == flux_at(
                        *c,
                        zenith_cos(*c, *sun, i, j),
                    ),
                forall|j: int|
                    0 <= j < y ==> #[trigger] cells_of(r)[x as int][j] == flux_at(
                        *c,
                        zenith_cos(*c, *sun, x as int, j),
                    ),
            decreases h - y,
        {
            let mu = zenith_cos_at(c, x, y, sun);
            let f = flux(c, mu);
            cell_set(&mut r, x, y, f);
            y += 1;
        }
        x += 1;
    }
    proof {
        assert(cells_of(r) =~~= flux_field(*c, *sun));
    }
    r
}

/// Night-side cells receive no flux: at a cell whose surface normal has a
/// non-positive dot product with the sub-solar direction the flux is exactly
/// zero, and no cell's flux is negative.
pub proof fn lemma_night_side_zero_flux(c: SimConfig, sun: SunDirection, x: int, y: int)
    requires
        c.wf(),
        sun.wf(),
        0 <= x < c.width,
        0 <= y < c.height,
    ensures
        normal_dot(c, sun, x, y) <= 0 ==> flux_field(c, sun)[x][y] == 0,
        flux_field(c, sun)[x][y] >= 0,
{
    let mu = zenith_cos(c, sun, x, y);
    let d = normal_dot(c, sun, x, y);
    if d > 0 {
        vstd::arithmetic::div_mod::lemma_div_pos_is_pos(d, UNIT * UNIT);
    } else {
        assert(c.flux_gain * mu * transmission(c, mu) == 0) by (nonlinear_arith)
            requires
                mu == 0,
        ;
    }
    lemma_flux_bounds(c, mu);
}

} // verus!
