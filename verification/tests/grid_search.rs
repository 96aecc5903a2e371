use sph_kernel::config::SimConfig;
use sph_kernel::engine::SphEngine;
use sph_kernel::fixed::SCALE;
use sph_kernel::grid::SpatialGrid;
use sph_kernel::particle::Particle;

fn reference_cfg() -> SimConfig {
    let cfg = SimConfig {
        gravity: 25_000,
        range: 10 * SCALE,
        pressure_coeff: SCALE,
        viscosity_coeff: 50_000,
        density_floor: 200_000,
        lower_bound: 5 * SCALE,
        upper_bound: 460 * SCALE,
        spring: 500_000,
        damping: 500_000,
        cell_size: 10 * SCALE,
        grid_cols: 47,
        grid_rows: 47,
    };
    cfg.validated().unwrap()
}

#[test]
fn insert_computes_and_clamps_cell_coordinates() {
    let cfg = reference_cfg();
    let mut g = SpatialGrid::new(&cfg);
    // inside the domain: plain flooring
    let c = g.insert(0, Particle::at(25 * SCALE, 37 * SCALE), &cfg);
    assert_eq!(c, (2, 3));
    // below the domain on both axes: clamped to the first cell
    let c = g.insert(1, Particle::at(-500 * SCALE, -1), &cfg);
    assert_eq!(c, (0, 0));
    // beyond the domain: clamped to the last cell
    let c = g.insert(2, Particle::at(5_000 * SCALE, 470 * SCALE), &cfg);
    assert_eq!(c, (46, 46));
}

#[test]
fn binning_stores_cell_coordinates_on_particles() {
    let cfg = reference_cfg();
    let mut e = SphEngine {
        cfg,
        particles: vec![
            Particle::at(25 * SCALE, 37 * SCALE),
            Particle::at(-3 * SCALE, 1_000 * SCALE),
        ],
        neighbors: Vec::new(),
    };
    e.find_neighbors_grid();
    assert_eq!((e.particles[0].gx, e.particles[0].gy), (2, 3));
    assert_eq!((e.particles[1].gx, e.particles[1].gy), (0, 46));
}

fn pairs_of(e: &SphEngine) -> Vec<(usize, usize)> {
    let mut v: Vec<(usize, usize)> = e.neighbors.iter().map(|n| (n.i1, n.i2)).collect();
    v.sort();
    v
}

fn scattered_particles(count: u64) -> Vec<Particle> {
    // a fixed linear-congruential sequence scatters particles over the
    // domain, with some clusters and some out-of-domain stragglers
    let mut seed: u64 = 0x2545F4914F6CDD1D;
    let mut ps: Vec<Particle> = Vec::new();
    for _ in 0..count {
        seed = seed.wrapping_mul(6364136223846793005).wrapping_add(1442695040888963407);
        let x = (seed >> 16) % 500;
        seed = seed.wrapping_mul(6364136223846793005).wrapping_add(1442695040888963407);
        let y = (seed >> 16) % 500;
        let px = x as i64 * SCALE - 10 * SCALE;
        let py = y as i64 * SCALE - 10 * SCALE;
        ps.push(Particle::at(px, py));
    }
    ps
}

#[test]
fn grid_and_exhaustive_agree_on_scattered_configuration() {
    let cfg = reference_cfg();
    let ps = scattered_particles(120);
    let mut e1 = SphEngine { cfg, particles: ps.clone(), neighbors: Vec::new() };
    let mut e2 = SphEngine { cfg, particles: ps, neighbors: Vec::new() };
    e1.find_neighbors();
    e2.find_neighbors_grid();
    let p1 = pairs_of(&e1);
    let p2 = pairs_of(&e2);
    assert!(!p1.is_empty());
    assert_eq!(p1, p2);
}

#[test]
fn grid_and_exhaustive_agree_on_dense_block() {
    let cfg = reference_cfg();
    let mut ps: Vec<Particle> = Vec::new();
    for i in 0..100i64 {
        ps.push(Particle::at(
            100 * SCALE + (i % 10) * 8 * SCALE,
            100 * SCALE + (i / 10) * 8 * SCALE,
        ));
    }
    let mut e1 = SphEngine { cfg, particles: ps.clone(), neighbors: Vec::new() };
    let mut e2 = SphEngine { cfg, particles: ps, neighbors: Vec::new() };
    e1.find_neighbors();
    e2.find_neighbors_grid();
    assert_eq!(pairs_of(&e1), pairs_of(&e2));
}

#[test]
fn grid_search_excludes_far_pairs() {
    let cfg = reference_cfg();
    let mut e = SphEngine {
        cfg,
        particles: vec![
            Particle::at(100 * SCALE, 100 * SCALE),
            Particle::at(110 * SCALE, 100 * SCALE),
            Particle::at(300 * SCALE, 300 * SCALE),
        ],
        neighbors: Vec::new(),
    };
    e.find_neighbors_grid();
    assert_eq!(e.neighbors.len(), 0);
}
