use vstd::prelude::*;
use crate::cells::MAX_CELLS;

verus! {

/// Scale of the diffusion weights: a weight of `COEF_ONE` stands for `1`.
pub const COEF_ONE: i128 = 0x10_0000;

/// Largest magnitude of a diffusion weight.
pub const COEF_MAX: i64 = 0x100_0000_0000;

/// Scale of unit-vector components, sines and cosines.
pub const UNIT: i64 = 0x8000;

/// Scale of the atmospheric transmission table.
pub const TRANS_ONE: i128 = 0x10_0000;

/// Largest transmission table entry.
pub const TRANS_MAX: i64 = 0x100_0000;

/// Largest flux gain.
pub const GAIN_MAX: i64 = 0x100_0000_0000;

/// Divisor of the black-body loss: a cell at `t` loses
/// `t^4 * radiation / RAD_DEN`.
pub const RAD_DEN: i128 = 0x1000_0000_0000_0000_0000;

/// Largest radiation coefficient.
pub const RAD_MAX: i64 = 0x7fff;

/// The fixed configuration of a simulation, built once at start-up: grid
/// size, diffusion weights per row (the time step folded in), the geometry of
/// each cell's surface normal, and the radiative constants.
pub struct SimConfig {
    /// Number of longitude columns.
    pub width: usize,
    /// Number of colatitude rows; row `0` and row `height - 1` are the poles.
    pub height: usize,
    /// Per row: weight of the one-sided colatitude difference
    /// (`kappa * dt * cot(theta_break) / dtheta`, scaled by `COEF_ONE`).
    pub gradient_weight: Vec<i64>,
    /// Weight of the centred colatitude second difference
    /// (`kappa * dt / dtheta^2`, scaled by `COEF_ONE`).
    pub curvature_weight: i64,
    /// Per row: weight of the centred longitude second difference
    /// (`kappa * dt / (theta_break^2 * dphi^2)`, scaled by `COEF_ONE`).
    pub longitude_weight: Vec<i64>,
    /// Runge-Kutta sub-steps per tick.
    pub substeps: u32,
    /// Per row: sine of the row's colatitude, scaled by `UNIT`.
    pub row_sin: Vec<i64>,
    /// Per row: cosine of the row's colatitude, scaled by `UNIT`.
    pub row_cos: Vec<i64>,
    /// Per column: cosine of the column's longitude, scaled by `UNIT`.
    pub col_cos: Vec<i64>,
    /// Per column: sine of the column's longitude, scaled by `UNIT`.
    pub col_sin: Vec<i64>,
    /// Atmospheric transmission at zenith cosine `i / UNIT`, for `i` in
    /// `0..=UNIT`, scaled by `TRANS_ONE`.
    pub transmission: Vec<i64>,
    /// Solar constant over `1 - rho * r`, in temperature units per tick.
    pub flux_gain: i64,
    /// Black-body coefficient `eps * sigma * dA / C`, over `RAD_DEN`.
    pub radiation: i64,
}

pub open spec fn all_within(v: Seq<i64>, lo: int, hi: int) -> bool {
    forall|i: int| 0 <= i < v.len() ==> lo <= #[trigger] v[i] <= hi
}

impl SimConfig {
    /// The configuration's invariant.
    pub open spec fn wf(&self) -> bool {
        &&& 2 <= self.width
        &&& 2 <= self.height
        &&& self.width * self.height <= MAX_CELLS
        &&& self.gradient_weight@.len() == self.height
        &&& self.longitude_weight@.len() == self.height
        &&& all_within(self.gradient_weight@, -COEF_MAX, COEF_MAX as int)
        &&& all_within(self.longitude_weight@, -COEF_MAX, COEF_MAX as int)
        &&& -COEF_MAX <= self.curvature_weight <= COEF_MAX
        &&& self.row_sin@.len() == self.height
        &&& self.row_cos@.len() == self.height
        &&& self.col_cos@.len() == self.width
        &&& self.col_sin@.len() == self.width
        &&& all_within(self.row_sin@, -UNIT, UNIT as int)
        &&& all_within(self.row_cos@, -UNIT, UNIT as int)
        &&& all_within(self.col_cos@, -UNIT, UNIT as int)
        &&& all_within(self.col_sin@, -UNIT, UNIT as int)
        &&& self.transmission@.len() == UNIT + 1
        &&& all_within(self.transmission@, 0, TRANS_MAX as int)
        &&& 0 <= self.flux_gain <= GAIN_MAX
        &&& 0 <= self.radiation <= RAD_MAX
    }

    /// Checks the configuration's invariant.
    pub fn is_valid(&self) -> (r: bool)
        ensures
            r == self.wf(),
    {
        if self.width < 2 || self.height < 2 {
            return false;
        }
        if self.width > MAX_CELLS / self.height {
            proof {
                let w = self.width as int;
                let h = self.height as int;
                let q = MAX_CELLS as int / h;
                vstd::arithmetic::div_mod::lemma_fundamental_div_mod(MAX_CELLS as int, h);
                assert(w * h > MAX_CELLS) by (nonlinear_arith)
                    requires
                        w >= q + 1,
                        h >= 2,
                        MAX_CELLS == h * q + MAX_CELLS as int % h,
                        MAX_CELLS as int % h < h,
                ;
            }
            return false;
        }
        proof {
            let w = self.width as int;
            let h = self.height as int;
            let q = MAX_CELLS as int / h;
            vstd::arithmetic::div_mod::lemma_fundamental_div_mod(MAX_CELLS as int, h);
            assert(w * h <= MAX_CELLS) by (nonlinear_arith)
                requires
                    w <= q,
                    h >= 2,
                    MAX_CELLS == h * q + MAX_CELLS as int % h,
                    0 <= MAX_CELLS as int % h,
            ;
        }
        self.gradient_weight.len() == self.height && self.longitude_weight.len() == self.height
            && within(&self.gradient_weight, -COEF_MAX, COEF_MAX)
            && within(&self.longitude_weight, -COEF_MAX, COEF_MAX)
            && -COEF_MAX <= self.curvature_weight && self.curvature_weight <= COEF_MAX
            && self.row_sin.len() == self.height && self.row_cos.len() == self.height
            && self.col_cos.len() == self.width && self.col_sin.len() == self.width
            && within(&self.row_sin, -UNIT, UNIT) && within(&self.row_cos, -UNIT, UNIT)
            && within(&self.col_cos, -UNIT, UNIT) && within(&self.col_sin, -UNIT, UNIT)
            && self.transmission.len() == UNIT as usize + 1
            && within(&self.transmission, 0, TRANS_MAX)
            && 0 <= self.flux_gain && self.flux_gain <= GAIN_MAX
            && 0 <= self.radiation && self.radiation <= RAD_MAX
    }
}

/// Whether every entry of `v` lies in `[lo, hi]`.
pub fn within(v: &Vec<i64>, lo: i64, hi: i64) -> (r: bool)
    ensures
        r == all_within(v@, lo as int, hi as int),
{
    let mut i: usize = 0;
    while i < v.len()
        invariant
            i <= v.len(),
            all_within(v@.subrange(0, i as int), lo as int, hi as int),
            forall|j: int| 0 <= j < i ==> lo <= #[trigger] v@[j] <= hi,
        decreases v.len() - i,
    {
        if v[i] < lo || v[i] > hi {
            return false;
        }
        i += 1;
    }
    true
}

/// The sub-solar direction in the planet's own frame: a unit vector whose
/// components are scaled by `UNIT`.
#[derive(Clone, Copy, Debug)]
pub struct SunDirection {
    pub x: i64,
    pub y: i64,
    pub z: i64,
}

impl SunDirection {
    pub open spec fn wf(&self) -> bool {
        &&& -UNIT <= self.x <= UNIT
        &&& -UNIT <= self.y <= UNIT
        &&& -UNIT <= self.z <= UNIT
    }
}

} // verus!
