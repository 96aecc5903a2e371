use sph_kernel::config::SimConfig;
use sph_kernel::engine::SphEngine;
use sph_kernel::fixed::SCALE;
use sph_kernel::particle::Particle;

fn reference_cfg() -> SimConfig {
    let cfg = SimConfig {
        gravity: 25_000,
        range: 10 * SCALE,
        pressure_coeff: SCALE,
        viscosity_coeff: 50_000,
        density_floor: 200_000,
        lower_bound: 5 * SCALE,
        upper_bound: 460 * SCALE,
        spring: 500_000,
        damping: 500_000,
        cell_size: 10 * SCALE,
        grid_cols: 47,
        grid_rows: 47,
    };
    cfg.validated().unwrap()
}

fn engine_with(particles: Vec<Particle>) -> SphEngine {
    SphEngine { cfg: reference_cfg(), particles, neighbors: Vec::new() }
}

#[test]
fn pair_at_exact_range_is_excluded() {
    // two particles exactly RANGE apart: weight would be zero, and the
    // strict radius test excludes the pair entirely
    let mut e = engine_with(vec![
        Particle::at(100 * SCALE, 100 * SCALE),
        Particle::at(110 * SCALE, 100 * SCALE),
    ]);
    e.initialize();
    e.find_neighbors();
    assert_eq!(e.neighbors.len(), 0);
    e.calc_force();
    assert_eq!(e.particles[0].density, 200_000);
    assert_eq!(e.particles[1].density, 200_000);
    assert_eq!(e.particles[0].pressure, 0);
    assert_eq!(e.particles[1].pressure, 0);
}

#[test]
fn pair_just_inside_range_is_included() {
    let mut e = engine_with(vec![
        Particle::at(100 * SCALE, 100 * SCALE),
        Particle::at(110 * SCALE - 1, 100 * SCALE),
    ]);
    e.initialize();
    e.find_neighbors();
    assert_eq!(e.neighbors.len(), 1);
    assert_eq!(e.neighbors[0].i1, 0);
    assert_eq!(e.neighbors[0].i2, 1);
}

#[test]
fn coincident_particles_are_skipped() {
    let mut e = engine_with(vec![
        Particle::at(100 * SCALE, 100 * SCALE),
        Particle::at(100 * SCALE, 100 * SCALE),
    ]);
    e.initialize();
    e.find_neighbors();
    assert_eq!(e.neighbors.len(), 0);
}

#[test]
fn neighbor_record_exact_values() {
    // separation 6 units along x, radius 10: weight = 1 - 6/10 = 0.4
    let mut e = engine_with(vec![
        Particle::at(100 * SCALE, 100 * SCALE),
        Particle::at(106 * SCALE, 100 * SCALE),
    ]);
    e.initialize();
    e.find_neighbors();
    assert_eq!(e.neighbors.len(), 1);
    let nb = e.neighbors[0];
    assert_eq!(nb.distance, 6 * SCALE);
    assert_eq!(nb.weight, 400_000);
    assert_eq!(nb.nx, -SCALE);
    assert_eq!(nb.ny, 0);
}

#[test]
fn density_accumulation_exact_value() {
    // separation of one raw unit: the kernel weight rounds to a full unit,
    // its cube is one full unit, well above the floor
    let mut e = engine_with(vec![
        Particle::at(100 * SCALE, 100 * SCALE),
        Particle::at(100 * SCALE + 1, 100 * SCALE),
    ]);
    e.initialize();
    e.find_neighbors();
    e.calc_force();
    assert_eq!(e.particles[0].density, SCALE);
    assert_eq!(e.particles[1].density, SCALE);
    assert_eq!(e.particles[0].pressure, SCALE - 200_000);
    assert_eq!(e.particles[1].pressure, SCALE - 200_000);
}

#[test]
fn force_accumulation_is_antisymmetric() {
    // two interacting particles with different velocities: after the force
    // pass the accumulated forces are exact opposites on both axes
    let mut a = Particle::at(100 * SCALE, 100 * SCALE);
    let mut b = Particle::at(103 * SCALE, 104 * SCALE);
    a.vx = 300_000;
    a.vy = -100_000;
    b.vx = -200_000;
    b.vy = 250_000;
    let mut e = engine_with(vec![a, b]);
    e.initialize();
    e.find_neighbors();
    assert_eq!(e.neighbors.len(), 1);
    e.calc_force();
    assert_eq!(e.particles[0].fx, -e.particles[1].fx);
    assert_eq!(e.particles[0].fy, -e.particles[1].fy);
    assert_ne!(e.particles[0].fx, 0);
}

#[test]
fn isolated_particle_density_is_floored() {
    let mut e = engine_with(vec![Particle::at(200 * SCALE, 200 * SCALE)]);
    e.initialize();
    e.find_neighbors();
    e.calc_force();
    assert_eq!(e.particles[0].density, 200_000);
    assert_eq!(e.particles[0].pressure, 0);
}

#[test]
fn corner_particle_is_pulled_inward() {
    // a particle at the origin sits outside the lower margin on both axes;
    // one step must push both velocity components toward the interior
    let mut e = engine_with(vec![Particle::at(0, 0)]);
    e.update();
    assert!(e.particles[0].vx > 0);
    assert!(e.particles[0].vy > 0);
}

#[test]
fn settles_under_gravity_end_to_end() {
    // 10x10 block seeded at (100, 100) with 8-unit spacing, 100 steps
    let cfg = reference_cfg();
    let mut e = SphEngine::new(cfg, 100, 100 * SCALE, 100 * SCALE, 8 * SCALE, 10);
    let start: Vec<Particle> = e.snapshot();
    let avg_y_start: i128 = start.iter().map(|p| p.y as i128).sum::<i128>() / 100;
    for _ in 0..100 {
        e.update();
        for p in &e.particles {
            assert!(p.density >= 200_000);
            assert!(p.pressure >= 0);
        }
    }
    let end: Vec<Particle> = e.snapshot();
    let avg_y_end: i128 = end.iter().map(|p| p.y as i128).sum::<i128>() / 100;
    assert!(avg_y_end > avg_y_start);
}

#[test]
fn repeated_runs_are_bit_identical() {
    let cfg = reference_cfg();
    let mut e1 = SphEngine::new(cfg, 100, 100 * SCALE, 100 * SCALE, 8 * SCALE, 10);
    let mut e2 = SphEngine::new(cfg, 100, 100 * SCALE, 100 * SCALE, 8 * SCALE, 10);
    for _ in 0..50 {
        e1.update();
        e2.update();
    }
    assert_eq!(e1.snapshot(), e2.snapshot());
    assert_eq!(e1.neighbors, e2.neighbors);
}

#[test]
fn snapshot_matches_state() {
    let mut e = engine_with(vec![
        Particle::at(10 * SCALE, 20 * SCALE),
        Particle::at(30 * SCALE, 40 * SCALE),
    ]);
    e.update();
    let s = e.snapshot();
    assert_eq!(s, e.particles);
}
