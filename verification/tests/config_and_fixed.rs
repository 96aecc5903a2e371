use sph_kernel::config::{ConfigError, SimConfig, COEFF_MAX, GRID_MAX, RANGE_MAX};
use sph_kernel::fixed::{div_tz128, isqrt64, sat64, FX_LIM, SCALE};

fn base_cfg() -> SimConfig {
    SimConfig {
        gravity: 25_000,
        range: 10 * SCALE,
        pressure_coeff: SCALE,
        viscosity_coeff: 50_000,
        density_floor: 200_000,
        lower_bound: 5 * SCALE,
        upper_bound: 460 * SCALE,
        spring: 500_000,
        damping: 500_000,
        cell_size: 10 * SCALE,
        grid_cols: 47,
        grid_rows: 47,
    }
}

#[test]
fn accepts_reference_configuration() {
    let cfg = base_cfg().validated();
    assert!(cfg.is_ok());
}

#[test]
fn rejects_nonpositive_range() {
    let mut c = base_cfg();
    c.range = 0;
    assert_eq!(c.validated(), Err(ConfigError::NonPositiveRange));
    c.range = -5;
    assert_eq!(c.validated(), Err(ConfigError::NonPositiveRange));
}

#[test]
fn rejects_oversized_range() {
    let mut c = base_cfg();
    c.range = RANGE_MAX + 1;
    assert_eq!(c.validated(), Err(ConfigError::RangeTooLarge));
}

#[test]
fn rejects_cell_smaller_than_range() {
    let mut c = base_cfg();
    c.cell_size = c.range - 1;
    assert_eq!(c.validated(), Err(ConfigError::CellSizeBelowRange));
}

#[test]
fn rejects_oversized_cell() {
    let mut c = base_cfg();
    c.range = RANGE_MAX;
    c.cell_size = RANGE_MAX + 1;
    assert_eq!(c.validated(), Err(ConfigError::CellSizeTooLarge));
}

#[test]
fn rejects_bad_density_floor() {
    let mut c = base_cfg();
    c.density_floor = 0;
    assert_eq!(c.validated(), Err(ConfigError::BadDensityFloor));
    c.density_floor = FX_LIM + 1;
    assert_eq!(c.validated(), Err(ConfigError::BadDensityFloor));
}

#[test]
fn rejects_bad_gravity() {
    let mut c = base_cfg();
    c.gravity = -1;
    assert_eq!(c.validated(), Err(ConfigError::BadGravity));
    c.gravity = COEFF_MAX + 1;
    assert_eq!(c.validated(), Err(ConfigError::BadGravity));
}

#[test]
fn rejects_bad_pressure_coeff() {
    let mut c = base_cfg();
    c.pressure_coeff = -1;
    assert_eq!(c.validated(), Err(ConfigError::BadPressureCoeff));
}

#[test]
fn rejects_bad_viscosity_coeff() {
    let mut c = base_cfg();
    c.viscosity_coeff = COEFF_MAX + 1;
    assert_eq!(c.validated(), Err(ConfigError::BadViscosityCoeff));
}

#[test]
fn rejects_bad_spring_and_damping() {
    let mut c = base_cfg();
    c.spring = SCALE + 1;
    assert_eq!(c.validated(), Err(ConfigError::BadSpring));
    let mut c = base_cfg();
    c.damping = -1;
    assert_eq!(c.validated(), Err(ConfigError::BadDamping));
}

#[test]
fn rejects_bad_bounds() {
    let mut c = base_cfg();
    c.lower_bound = c.upper_bound;
    assert_eq!(c.validated(), Err(ConfigError::BadBounds));
    let mut c = base_cfg();
    c.lower_bound = 0;
    assert_eq!(c.validated(), Err(ConfigError::BadBounds));
}

#[test]
fn rejects_bad_grid_dims() {
    let mut c = base_cfg();
    c.grid_cols = 0;
    assert_eq!(c.validated(), Err(ConfigError::BadGridDims));
    let mut c = base_cfg();
    c.grid_rows = GRID_MAX + 1;
    assert_eq!(c.validated(), Err(ConfigError::BadGridDims));
}

#[test]
fn isqrt_exact_values() {
    assert_eq!(isqrt64(0), 0);
    assert_eq!(isqrt64(1), 1);
    assert_eq!(isqrt64(3), 1);
    assert_eq!(isqrt64(4), 2);
    assert_eq!(isqrt64(99), 9);
    assert_eq!(isqrt64(100), 10);
    assert_eq!(isqrt64(1_000_000_000_000), 1_000_000);
    let big: u128 = (1u128 << 104) - 1;
    assert_eq!(isqrt64(big), (1u64 << 52) - 1);
}

#[test]
fn saturation_boundaries() {
    assert_eq!(sat64(0), 0);
    assert_eq!(sat64(FX_LIM as i128), FX_LIM);
    assert_eq!(sat64(FX_LIM as i128 + 1), FX_LIM);
    assert_eq!(sat64(-(FX_LIM as i128) - 1), -FX_LIM);
    assert_eq!(sat64(12345), 12345);
}

#[test]
fn division_rounds_toward_zero() {
    assert_eq!(div_tz128(7, 2), 3);
    assert_eq!(div_tz128(-7, 2), -3);
    assert_eq!(div_tz128(-1, 2), 0);
    assert_eq!(div_tz128(6, 3), 2);
    assert_eq!(div_tz128(-6, 3), -2);
}
