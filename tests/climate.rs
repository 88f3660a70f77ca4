use planet_heat::config::{COEF_ONE, RAD_DEN, TRANS_ONE, UNIT};
use planet_heat::fixed::{floor_div, saturate_exec, TEMP_LIMIT, TEMP_ONE};
use planet_heat::diffusion::system_rk4_step;
use planet_heat::texture::heat_color;
use planet_heat::grid::{break_rows_of, east_of, north_of, south_of, west_of};
use planet_heat::{
    apply_black_body_radiation, apply_heat_eq, apply_heat_in, flux, flux_pp,
    heat_eq_step_spherical, my_f, tick_climate, transmission_f, CellArray, HeatStats, SimConfig,
    SunDirection, TempMap,
};
use std::f64::consts::PI;

const KAPPA: f64 = 10.0;
const CFL: f64 = 0.3;
const SOLAR_CONSTANT: f64 = 0.1;
const RHO: f64 = 0.05;
const R: f64 = 0.08;
const OMEGA: f64 = 0.98;
const TAU: f64 = 0.3;
const M_EFF: f64 = 1.7;
const EPS: f64 = 1.0;
const SIGMA: f64 = 1e-7;
const C: f64 = 1.0;

fn fixed(v: f64, scale: f64) -> i64 {
    (v * scale).round() as i64
}

/// The configuration for a `width` by `height` grid with the default physical
/// constants.
fn config(width: usize, height: usize, substeps: u32) -> SimConfig {
    let dtheta = PI / height as f64;
    let dphi = 2.0 * PI / width as f64;
    let dt = CFL * dphi * dtheta / (2.0 * KAPPA);
    let coef = COEF_ONE as f64;
    let unit = UNIT as f64;
    let mut gradient_weight = Vec::new();
    let mut longitude_weight = Vec::new();
    let mut row_sin = Vec::new();
    let mut row_cos = Vec::new();
    for y in 0..height {
        let theta = PI * y as f64 / height as f64;
        let theta_break = if y < height / 2 { theta + dtheta / 2.0 } else { theta - dtheta / 2.0 };
        let s = theta_break.sin();
        gradient_weight.push(fixed(KAPPA * dt * theta_break.cos() / s / dtheta, coef));
        longitude_weight.push(fixed(KAPPA * dt / (s * s * dphi * dphi), coef));
        row_sin.push(fixed(theta.sin(), unit));
        row_cos.push(fixed(theta.cos(), unit));
    }
    let mut col_cos = Vec::new();
    let mut col_sin = Vec::new();
    for x in 0..width {
        let phi = 2.0 * PI * x as f64 / width as f64;
        col_cos.push(fixed(phi.cos(), unit));
        col_sin.push(fixed(phi.sin(), unit));
    }
    let c_diff = OMEGA * TAU * M_EFF / 2.0;
    let mut transmission = vec![0];
    for i in 1..=UNIT {
        let mu = i as f64 / unit;
        transmission.push(fixed(c_diff + (-TAU / mu).exp(), TRANS_ONE as f64));
    }
    let one = TEMP_ONE as f64;
    let da = dphi * dtheta;
    SimConfig {
        width,
        height,
        gradient_weight,
        curvature_weight: fixed(KAPPA * dt / (dtheta * dtheta), coef),
        longitude_weight,
        substeps,
        row_sin,
        row_cos,
        col_cos,
        col_sin,
        transmission,
        flux_gain: fixed(SOLAR_CONSTANT / (1.0 - RHO * R), one),
        radiation: fixed(EPS * SIGMA * da / C * RAD_DEN as f64 / (one * one * one), 1.0),
    }
}

fn sun(x: f64, y: f64, z: f64) -> SunDirection {
    let unit = UNIT as f64;
    SunDirection { x: fixed(x, unit), y: fixed(y, unit), z: fixed(z, unit) }
}

fn uniform(width: usize, height: usize, v: i64) -> TempMap {
    let mut t = TempMap::new(width, height);
    for x in 0..width {
        for y in 0..height {
            t.set_at(x, y, v);
        }
    }
    t
}

/// A small configuration whose numbers are easy to follow by hand.
fn toy_config() -> SimConfig {
    let unit = UNIT;
    let mut transmission = vec![0; unit as usize + 1];
    transmission[unit as usize] = TRANS_ONE as i64;
    transmission[unit as usize / 2] = TRANS_ONE as i64 / 2;
    SimConfig {
        width: 4,
        height: 3,
        gradient_weight: vec![0, 0, 0],
        curvature_weight: COEF_ONE as i64 / 8,
        longitude_weight: vec![COEF_ONE as i64 / 8; 3],
        substeps: 1,
        row_sin: vec![0, unit, 0],
        row_cos: vec![unit, 0, -unit],
        col_cos: vec![unit, 0, -unit, 0],
        col_sin: vec![0, unit, 0, -unit],
        transmission,
        flux_gain: 1000,
        radiation: 1,
    }
}

#[test]
fn floor_div_rounds_down() {
    assert_eq!(floor_div(7, 2), 3);
    assert_eq!(floor_div(-7, 2), -4);
    assert_eq!(floor_div(-6, 3), -2);
    assert_eq!(floor_div(0, 5), 0);
}

#[test]
fn saturation_limits_range() {
    assert_eq!(saturate_exec(5), 5);
    assert_eq!(saturate_exec(TEMP_LIMIT as i128 + 1), TEMP_LIMIT);
    assert_eq!(saturate_exec(-(TEMP_LIMIT as i128) - 9), -TEMP_LIMIT);
}

#[test]
fn neighbours_wrap_in_longitude_and_clamp_at_poles() {
    assert_eq!(west_of(161, 0), 160);
    assert_eq!(east_of(161, 160), 0);
    assert_eq!(west_of(161, 7), 6);
    assert_eq!(east_of(161, 7), 8);
    assert_eq!(north_of(0), 0);
    assert_eq!(north_of(5), 4);
    assert_eq!(south_of(51, 50), 50);
    assert_eq!(south_of(51, 5), 6);
    assert_eq!(break_rows_of(51, 0), (1, 0));
    assert_eq!(break_rows_of(51, 24), (25, 24));
    assert_eq!(break_rows_of(51, 25), (25, 24));
    assert_eq!(break_rows_of(51, 50), (50, 49));
}

#[test]
fn default_config_is_valid() {
    assert!(config(161, 51, 10).is_valid());
    assert!(toy_config().is_valid());
    let mut bad = toy_config();
    bad.height = 1;
    assert!(!bad.is_valid());
    let mut bad = toy_config();
    bad.transmission.pop();
    assert!(!bad.is_valid());
    let mut bad = toy_config();
    bad.flux_gain = -1;
    assert!(!bad.is_valid());
}

#[test]
fn transmission_is_zero_below_horizon() {
    let c = toy_config();
    assert_eq!(transmission_f(&c, 0), 0);
    assert_eq!(transmission_f(&c, -3), 0);
    assert_eq!(transmission_f(&c, UNIT), TRANS_ONE as i64);
    assert_eq!(transmission_f(&c, UNIT / 2), TRANS_ONE as i64 / 2);
}

#[test]
fn flux_formula_exact_values() {
    let c = toy_config();
    // gain * mu * transmission / (UNIT * TRANS_ONE)
    assert_eq!(flux(&c, UNIT), 1000);
    assert_eq!(flux(&c, UNIT / 2), 250);
    assert_eq!(flux(&c, 0), 0);
}

#[test]
fn normal_dot_product() {
    let c = toy_config();
    let s = SunDirection { x: UNIT, y: 0, z: 0 };
    let u = UNIT as i128;
    // Cell (0, 1) faces +x; cell (2, 1) faces -x; row 0 is the +z pole.
    assert_eq!(my_f(&c, 0, 1, &s), u * u * u);
    assert_eq!(my_f(&c, 2, 1, &s), -u * u * u);
    assert_eq!(my_f(&c, 0, 0, &s), 0);
}

#[test]
fn night_side_receives_zero_flux() {
    let c = config(161, 51, 10);
    let s = sun(1.0, 0.0, 0.0);
    let f = flux_pp(&c, &s);
    for x in 0..161 {
        for y in 0..51 {
            let v = f.get(x, y);
            assert!(v >= 0);
            if my_f(&c, x, y, &s) <= 0 {
                assert_eq!(v, 0);
            }
        }
    }
}

#[test]
fn uniform_field_stays_uniform() {
    let c = config(161, 51, 10);
    let mut t = uniform(161, 51, 500 * TEMP_ONE);
    for _ in 0..3 {
        t.apply_heat_eq(&c);
    }
    apply_heat_eq(&mut t, &c);
    for x in 0..161 {
        for y in 0..51 {
            assert_eq!(t.get(x, y), 500 * TEMP_ONE);
        }
    }
}

#[test]
fn rk4_step_of_uniform_field_is_identity() {
    let c = toy_config();
    let mut a = CellArray::new(4, 3);
    for x in 0..4 {
        for y in 0..3 {
            a.set(x, y, -77);
        }
    }
    let b = heat_eq_step_spherical(&c, &a);
    for x in 0..4 {
        for y in 0..3 {
            assert_eq!(b.get(x, y), -77);
        }
    }
}

#[test]
fn rk4_step_exact_values() {
    // Colatitude curvature and longitude weights of 1/8, no one-sided term:
    // a single hot cell spreads to its neighbours.
    let c = toy_config();
    let mut a = CellArray::new(4, 3);
    a.set(1, 1, 8 * 4096);
    let b = heat_eq_step_spherical(&c, &a);
    let expected = [[345, 2530, 345], [2688, 20546, 2688], [345, 2530, 345], [36, 330, 36]];
    for x in 0..4 {
        for y in 0..3 {
            assert_eq!(b.get(x, y), expected[x][y]);
        }
    }
}

#[test]
fn generic_rk4_step_matches_diffusion_step() {
    let c = toy_config();
    let mut a = CellArray::new(4, 3);
    a.set(1, 1, 8 * 4096);
    a.set(3, 0, -500);
    let b = system_rk4_step(&c, &a, 4, 3);
    let d = heat_eq_step_spherical(&c, &a);
    for x in 0..4 {
        for y in 0..3 {
            assert_eq!(b.get(x, y), d.get(x, y));
        }
    }
}

#[test]
fn heat_step_homogenizes_exact_values() {
    let c = toy_config();
    let mut t = TempMap::new(4, 3);
    t.set_at(1, 1, 8 * 4096);
    t.apply_heat_eq(&c);
    let expected = [[853, 2530, 853], [853, 20546, 853], [853, 2530, 853], [853, 330, 853]];
    for x in 0..4 {
        for y in 0..3 {
            assert_eq!(t.get(x, y), expected[x][y]);
        }
    }
}

#[test]
fn heat_color_palette() {
    assert_eq!(heat_color(0, 0, 200), [0, 0, 127, 255]);
    assert_eq!(heat_color(200, 0, 200), [127, 0, 0, 255]);
    assert_eq!(heat_color(100, 0, 200), [127, 255, 127, 255]);
    assert_eq!(heat_color(-50, 0, 200), [0, 0, 127, 255]);
    assert_eq!(heat_color(999, 0, 200), [127, 0, 0, 255]);
}

#[test]
fn heat_texture_layout() {
    let mut t = TempMap::new(2, 2);
    t.set_at(1, 0, 200);
    t.set_at(0, 1, 100);
    let tex = t.get_heat_texture(0, 200);
    assert_eq!(
        tex,
        vec![0, 0, 127, 255, 127, 0, 0, 255, 127, 255, 127, 255, 0, 0, 127, 255]
    );
}

#[test]
fn pole_rows_are_homogenized() {
    let c = config(161, 51, 10);
    let mut t = TempMap::new(161, 51);
    for x in 0..161 {
        for y in 0..51 {
            t.set_at(x, y, ((x * 37 + y * 11) % 1000) as i64 * TEMP_ONE);
        }
    }
    t.apply_heat_eq(&c);
    for x in 0..161 {
        assert_eq!(t.get(x, 0), t.get(0, 0));
        assert_eq!(t.get(x, 50), t.get(0, 50));
    }
}

#[test]
fn stepping_stays_bounded() {
    let c = config(20, 7, 10);
    let mut t = TempMap::new(20, 7);
    for x in 0..20 {
        for y in 0..7 {
            t.set_at(x, y, ((x * 131 + y * 71) % 1001) as i64 * TEMP_ONE);
        }
    }
    for _ in 0..10_000 {
        t.apply_heat_eq(&c);
    }
    let st = t.get_heat_stats();
    assert!(st.max < TEMP_LIMIT);
    assert!(st.min > -TEMP_LIMIT);
}

#[test]
fn heat_stats_exact() {
    let mut t = TempMap::new(3, 2);
    t.set_at(0, 0, 4);
    t.set_at(1, 0, -2);
    t.set_at(2, 0, 9);
    t.set_at(0, 1, 1);
    t.set_at(1, 1, 0);
    t.set_at(2, 1, -1);
    let st = t.get_heat_stats();
    assert_eq!(st, HeatStats { max: 9, min: -2, avg: 1, south: 1, north: 4 });
    t.set_at(2, 0, 8);
    // sum 10 over 6 cells rounds down to 1; a negative mean rounds down too
    assert_eq!(t.get_heat_stats().avg, 1);
    let mut n = TempMap::new(2, 2);
    n.set_at(0, 0, -3);
    assert_eq!(n.get_heat_stats().avg, -1);
}

#[test]
fn set_at_saturates() {
    let mut t = TempMap::new(2, 2);
    t.set_at(1, 1, i64::MAX);
    assert_eq!(t.get(1, 1), TEMP_LIMIT);
    t.set_at(0, 1, i64::MIN);
    assert_eq!(t.get(0, 1), -TEMP_LIMIT);
}

#[test]
fn set_heat_uses_seed_function() {
    let mut t = TempMap::new(3, 2);
    t.set_heat(|x, y| (x * 10 + y) as i64);
    assert_eq!(t.get(2, 1), 21);
    assert_eq!(t.get(1, 0), 10);
}

#[test]
fn add_heat_adds_cellwise() {
    let mut t = uniform(3, 2, 100);
    let mut f = CellArray::new(3, 2);
    f.set(1, 1, 23);
    f.set(2, 0, -5);
    t.add_heat(&f);
    assert_eq!(t.get(1, 1), 123);
    assert_eq!(t.get(2, 0), 95);
    assert_eq!(t.get(0, 0), 100);
}

#[test]
fn black_body_loss_exact() {
    let mut c = toy_config();
    c.radiation = 1;
    // t^4 * radiation / RAD_DEN: t = 2^20 gives 2^80 / 2^76 = 16.
    let mut t = uniform(4, 3, 1 << 20);
    t.set_at(0, 0, 0);
    t.set_at(1, 0, -(1 << 20));
    apply_black_body_radiation(&mut t, &c);
    assert_eq!(t.get(2, 2), (1 << 20) - 16);
    assert_eq!(t.get(0, 0), 0);
    assert_eq!(t.get(1, 0), -(1 << 20) - 16);
    assert_eq!(RAD_DEN, 1i128 << 76);
}

#[test]
fn insolation_is_added_to_field() {
    let c = toy_config();
    let mut t = uniform(4, 3, 10);
    apply_heat_in(&mut t, &c, &SunDirection { x: UNIT, y: 0, z: 0 });
    assert_eq!(t.get(0, 1), 1010);
    assert_eq!(t.get(2, 1), 10);
    assert_eq!(t.get(1, 1), 10);
}

#[test]
fn scenario_sun_facing_cell_heats() {
    let width = 161;
    let height = 51;
    let c = config(width, height, 10);
    let mut t = TempMap::new(width, height);
    t.set_heat(|x, y| {
        let theta = 2.0 * PI * x as f64 / width as f64;
        let phi = PI * y as f64 / height as f64;
        fixed(1000.0 / (theta + phi + 1.0), TEMP_ONE as f64)
    });
    let s = sun(1.0, 0.0, 0.0);
    let f = flux_pp(&c, &s);
    let facing_y = (height as f64 / 2.0).round() as usize;
    assert!(f.get(0, facing_y) > 0);
    let anti_x = (width as f64 / 2.0).round() as usize;
    assert_eq!(f.get(anti_x, facing_y), 0);
    let before = t.get_heat_stats();
    tick_climate(&mut t, &c, &s);
    let after = t.get_heat_stats();
    assert!(after.max <= TEMP_LIMIT);
    assert!(before.max > 0);
    for x in 0..width {
        assert_eq!(t.get(x, 0), t.get(0, 0));
    }
}
