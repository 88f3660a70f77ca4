//! A fixed-point thermal model of a rotating, orbiting planet: spherical heat
//! diffusion advanced by a classical Runge-Kutta step, solar insolation and
//! black-body cooling on a longitude/colatitude grid.
//!
//! Temperatures are integers in fixed-point units, saturated to
//! `[-TEMP_LIMIT, TEMP_LIMIT]`, so every run is bit-for-bit reproducible. The
//! quantities that need trigonometry (per-row diffusion weights, cell normals,
//! the transmission curve) are computed once at start-up into a `SimConfig`.
pub mod fixed;
pub mod cells;
pub mod grid;
pub mod config;
pub mod diffusion;
pub mod poles;
pub mod insolation;
pub mod temp;
pub mod stats;
pub mod climate;
pub mod texture;

pub use cells::CellArray;
pub use climate::{apply_black_body_radiation, apply_heat_eq, apply_heat_in, tick_climate};
pub use config::{SimConfig, SunDirection};
pub use diffusion::heat_eq_step_spherical;
pub use insolation::{flux, flux_pp, my_f, transmission_f};
pub use stats::HeatStats;
pub use temp::TempMap;
