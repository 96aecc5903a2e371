//! Simulation configuration: every physical constant of the kernel, fixed at
//! initialization and validated up front, so that the grid-correctness
//! invariant (cell size at least the interaction radius) and the arithmetic
//! bounds of the fixed-point pipeline hold throughout.

use vstd::prelude::*;
use crate::fixed::{FX_LIM, SCALE};

verus! {

/// Largest admissible interaction radius and grid cell size.
pub const RANGE_MAX: i64 = 1_000_000_000_000;

/// Largest admissible gravity and pressure/viscosity coefficient.
pub const COEFF_MAX: i64 = 1_000_000_000;

/// Largest admissible grid dimension along one axis.
pub const GRID_MAX: usize = 32768;

/// Why a configuration was rejected at initialization.
#[derive(Clone, Copy, Debug, PartialEq, Eq, Structural)]
pub enum ConfigError {
    /// The interaction radius is zero or negative.
    NonPositiveRange,
    /// The interaction radius exceeds `RANGE_MAX`.
    RangeTooLarge,
    /// The grid cell size is below the interaction radius, which would let
    /// true neighbors escape the 3x3 cell window.
    CellSizeBelowRange,
    /// The grid cell size exceeds `RANGE_MAX`.
    CellSizeTooLarge,
    /// The rest-density floor is not in `(0, FX_LIM]`.
    BadDensityFloor,
    /// Gravity is not in `[0, COEFF_MAX]`.
    BadGravity,
    /// The pressure coefficient is not in `[0, COEFF_MAX]`.
    BadPressureCoeff,
    /// The viscosity coefficient is not in `[0, COEFF_MAX]`.
    BadViscosityCoeff,
    /// The boundary spring coefficient is not in `[0, SCALE]`.
    BadSpring,
    /// The boundary damping coefficient is not in `[0, SCALE]`.
    BadDamping,
    /// The boundary margins do not satisfy `0 < lower < upper <= FX_LIM`.
    BadBounds,
    /// A grid dimension is zero or exceeds `GRID_MAX`.
    BadGridDims,
}

/// All constants of one simulation instance, in fixed-point units
/// (`SCALE` = one real unit).
#[derive(Clone, Copy, Debug, PartialEq, Eq, Structural)]
pub struct SimConfig {
    /// Per-step downward velocity increment.
    pub gravity: i64,
    /// Interaction radius: pairs farther apart than this never interact.
    pub range: i64,
    /// Scale of the pairwise pressure force.
    pub pressure_coeff: i64,
    /// Scale of the pairwise viscosity force.
    pub viscosity_coeff: i64,
    /// Rest density: densities are floored here and pressure is the excess.
    pub density_floor: i64,
    /// Lower boundary margin of the square domain, on both axes.
    pub lower_bound: i64,
    /// Upper boundary margin of the square domain, on both axes.
    pub upper_bound: i64,
    /// Boundary containment spring coefficient (a fraction of `SCALE`).
    pub spring: i64,
    /// Boundary containment damping coefficient (a fraction of `SCALE`).
    pub damping: i64,
    /// Side length of one square grid cell; at least `range`.
    pub cell_size: i64,
    /// Number of grid cells along the x axis.
    pub grid_cols: usize,
    /// Number of grid cells along the y axis.
    pub grid_rows: usize,
}

impl SimConfig {
    /// The well-formedness every component of the kernel relies on.
    pub open spec fn valid(self) -> bool {
        &&& 0 < self.range <= RANGE_MAX
        &&& self.range <= self.cell_size <= RANGE_MAX
        &&& 0 < self.density_floor <= FX_LIM
        &&& 0 <= self.gravity <= COEFF_MAX
        &&& 0 <= self.pressure_coeff <= COEFF_MAX
        &&& 0 <= self.viscosity_coeff <= COEFF_MAX
        &&& 0 <= self.spring <= SCALE
        &&& 0 <= self.damping <= SCALE
        &&& 0 < self.lower_bound < self.upper_bound <= FX_LIM
        &&& 1 <= self.grid_cols <= GRID_MAX
        &&& 1 <= self.grid_rows <= GRID_MAX
    }

    /// The first reason, in checking order, why a configuration is invalid.
    pub open spec fn issue(self) -> Option<ConfigError> {
        if self.range <= 0 {
            Some(ConfigError::NonPositiveRange)
        } else if self.range > RANGE_MAX {
            Some(ConfigError::RangeTooLarge)
        } else if self.cell_size < self.range {
            Some(ConfigError::CellSizeBelowRange)
        } else if self.cell_size > RANGE_MAX {
            Some(ConfigError::CellSizeTooLarge)
        } else if self.density_floor <= 0 || self.density_floor > FX_LIM {
            Some(ConfigError::BadDensityFloor)
        } else if self.gravity < 0 || self.gravity > COEFF_MAX {
            Some(ConfigError::BadGravity)
        } else if self.pressure_coeff < 0 || self.pressure_coeff > COEFF_MAX {
            Some(ConfigError::BadPressureCoeff)
        } else if self.viscosity_coeff < 0 || self.viscosity_coeff > COEFF_MAX {
            Some(ConfigError::BadViscosityCoeff)
        } else if self.spring < 0 || self.spring > SCALE {
            Some(ConfigError::BadSpring)
        } else if self.damping < 0 || self.damping > SCALE {
            Some(ConfigError::BadDamping)
        } else if self.lower_bound <= 0 || self.lower_bound >= self.upper_bound
            || self.upper_bound > FX_LIM {
            Some(ConfigError::BadBounds)
        } else if self.grid_cols < 1 || self.grid_cols > GRID_MAX
            || self.grid_rows < 1 || self.grid_rows > GRID_MAX {
            Some(ConfigError::BadGridDims)
        } else {
            None
        }
    }

    /// Fail-fast validation: a configuration is accepted exactly when it is
    /// `valid`, and otherwise the first offending constant is reported.
    pub fn validated(self) -> (r: Result<SimConfig, ConfigError>)
        ensures
            self.valid() <==> r == Ok::<SimConfig, ConfigError>(self),
            !self.valid() ==> r == Err::<SimConfig, ConfigError>(self.issue()->Some_0),
            self.valid() <==> self.issue() is None,
    {
        if self.range <= 0 {
            Err(ConfigError::NonPositiveRange)
        } else if self.range > RANGE_MAX {
            Err(ConfigError::RangeTooLarge)
        } else if self.cell_size < self.range {
            Err(ConfigError::CellSizeBelowRange)
        } else if self.cell_size > RANGE_MAX {
            Err(ConfigError::CellSizeTooLarge)
        } else if self.density_floor <= 0 || self.density_floor > FX_LIM {
            Err(ConfigError::BadDensityFloor)
        } else if self.gravity < 0 || self.gravity > COEFF_MAX {
            Err(ConfigError::BadGravity)
        } else if self.pressure_coeff < 0 || self.pressure_coeff > COEFF_MAX {
            Err(ConfigError::BadPressureCoeff)
        } else if self.viscosity_coeff < 0 || self.viscosity_coeff > COEFF_MAX {
            Err(ConfigError::BadViscosityCoeff)
        } else if self.spring < 0 || self.spring > SCALE {
            Err(ConfigError::BadSpring)
        } else if self.damping < 0 || self.damping > SCALE {
            Err(ConfigError::BadDamping)
        } else if self.lower_bound <= 0 || self.lower_bound >= self.upper_bound
            || self.upper_bound > FX_LIM {
            Err(ConfigError::BadBounds)
        } else if self.grid_cols < 1 || self.grid_cols > GRID_MAX
            || self.grid_rows < 1 || self.grid_rows > GRID_MAX {
            Err(ConfigError::BadGridDims)
        } else {
            Ok(self)
        }
    }
}

} // verus!
