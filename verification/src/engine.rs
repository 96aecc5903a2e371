//! The simulation engine: owns the particle array and the per-step neighbor
//! list, and runs the fixed pipeline reset -> neighbor search -> density ->
//! pressure -> force -> integrate, each tick computing exactly `step_spec`
//! of the previous snapshot.

use vstd::prelude::*;
use crate::fixed::lemma_mul_le;
use crate::config::SimConfig;
use crate::particle::{Particle, all_bounded};
use crate::neighbor::{Neighbor, nb_seq, nbs_wf, within_range, lemma_nb_seq_pairs,
    lemma_nbs_wf_same_positions, all_upto, row_upto};
use crate::solver::{reset_all, reset_step, lemma_reset_all, density_all, accumulate_density,
    lemma_density_upto, nbs_idx, pressure_all, derive_pressure, lemma_pressure_all, force_all,
    accumulate_force, lemma_force_upto, integrate_all, integrate};

verus! {

/// One full tick as a pure function of the previous particle snapshot: the
/// accumulators are cleared, the interacting pairs of the (unchanged)
/// positions are found, densities then pressures then forces are derived
/// from them, and every particle is integrated forward.
pub open spec fn step_spec(ps: Seq<Particle>, cfg: SimConfig) -> Seq<Particle> {
    let ps1: Seq<Particle> = reset_all(ps);
    let nbs: Seq<Neighbor> = nb_seq(ps1, cfg);
    let ps2: Seq<Particle> = density_all(ps1, nbs);
    let ps3: Seq<Particle> = pressure_all(ps2, cfg.density_floor as int);
    let ps4: Seq<Particle> = force_all(ps3, nbs, cfg);
    integrate_all(ps4, cfg)
}

/// The particle seeded at slot `i` of a grid-like layout: `cols` particles
/// per row, `sp` apart, starting at `(ox, oy)`.
pub open spec fn seed_spec(i: int, ox: int, oy: int, sp: int, cols: int) -> Particle {
    Particle::at_spec((ox + (i % cols) * sp) as i64, (oy + (i / cols) * sp) as i64)
}

/// The SPH simulation engine.
pub struct SphEngine {
    /// The configuration constants, fixed at construction.
    pub cfg: SimConfig,
    /// The particle array; no particle is created or destroyed after
    /// construction.
    pub particles: Vec<Particle>,
    /// The interacting pairs of the current step; rebuilt every tick.
    pub neighbors: Vec<Neighbor>,
}

impl SphEngine {
    /// A valid configuration and every particle within the fixed-point
    /// range; every operation preserves this.
    pub open spec fn wf(self) -> bool {
        &&& self.cfg.valid()
        &&& all_bounded(self.particles@)
    }

    /// Create an engine over `n` particles seeded in a grid-like layout of
    /// `cols` columns spaced `spacing` apart starting at the given origin,
    /// all at rest.
    pub fn new(cfg: SimConfig, n: usize, origin_x: i64, origin_y: i64, spacing: i64, cols:
        usize) -> (e: SphEngine)
        requires
            cfg.valid(),
            n <= 1_000_000,
            1 <= cols,
            0 <= origin_x <= 1_000_000_000_000,
            0 <= origin_y <= 1_000_000_000_000,
            0 <= spacing <= 100_000_000,
        ensures
            e.cfg == cfg,
            e.particles@.len() == n,
            forall|i: int| 0 <= i < n ==> e.particles@[i] == seed_spec(
                i,
                origin_x as int,
                origin_y as int,
                spacing as int,
                cols as int,
            ),
            e.neighbors@.len() == 0,
            e.wf(),
    {
        let mut particles: Vec<Particle> = Vec::new();
        for i in 0..n
            invariant
                n <= 1_000_000,
                1 <= cols,
                0 <= origin_x <= 1_000_000_000_000,
                0 <= origin_y <= 1_000_000_000_000,
                0 <= spacing <= 100_000_000,
                particles@.len() == i,
                forall|t: int| 0 <= t < i ==> particles@[t] == seed_spec(
                    t,
                    origin_x as int,
                    origin_y as int,
                    spacing as int,
                    cols as int,
                ),
                all_bounded(particles@),
        {
            let cx: usize = i % cols;
            let cy: usize = i / cols;
            proof {
                assert(cx <= i && cy <= i) by (nonlinear_arith)
                    requires
                        cx == i as int % cols as int,
                        cy == i as int / cols as int,
                        cols >= 1,
                        i >= 0,
                ;
                lemma_mul_le(cx as int, spacing as int, 1_000_000, 100_000_000);
                lemma_mul_le(cy as int, spacing as int, 1_000_000, 100_000_000);
            }
            let x: i64 = origin_x + (cx as i64) * spacing;
            let y: i64 = origin_y + (cy as i64) * spacing;
            particles.push(Particle::at(x, y));
        }
        SphEngine { cfg, particles, neighbors: Vec::new() }
    }

    /// Reset the per-step accumulators of every particle and discard the
    /// previous step's neighbor list.
    pub fn initialize(&mut self)
        requires
            old(self).wf(),
        ensures
            final(self).cfg == old(self).cfg,
            final(self).particles@ == reset_all(old(self).particles@),
            final(self).neighbors@.len() == 0,
            final(self).wf(),
    {
        proof {
            lemma_reset_all(self.particles@);
        }
        reset_step(&mut self.particles);
        self.neighbors.clear();
    }

    /// Exhaustive neighbor search: test every unordered pair of particles
    /// against the interaction radius and record exactly the in-range,
    /// non-coincident pairs, smaller index first, in lexicographic order.
    pub fn find_neighbors(&mut self)
        requires
            old(self).wf(),
        ensures
            final(self).cfg == old(self).cfg,
            final(self).particles@ == old(self).particles@,
            final(self).neighbors@ == nb_seq(old(self).particles@, old(self).cfg),
            final(self).wf(),
    {
        let ghost ps: Seq<Particle> = self.particles@;
        let ghost cfg: SimConfig = self.cfg;
        let n: usize = self.particles.len();
        self.neighbors.clear();
        for i in 0..n
            invariant
                self.cfg == cfg,
                self.particles@ == ps,
                n == ps.len(),
                cfg.valid(),
                all_bounded(ps),
                self.neighbors@ == all_upto(ps, cfg, i as int),
        {
            proof {
                assert(self.neighbors@ =~= all_upto(ps, cfg, i as int) + row_upto(
                    ps,
                    cfg,
                    i as int,
                    i as int + 1,
                ));
            }
            let mut j: usize = i + 1;
            while j < n
                invariant
                    self.cfg == cfg,
                    self.particles@ == ps,
                    n == ps.len(),
                    cfg.valid(),
                    all_bounded(ps),
                    i < n,
                    i < j <= n,
                    self.neighbors@ == all_upto(ps, cfg, i as int) + row_upto(
                        ps,
                        cfg,
                        i as int,
                        j as int,
                    ),
                decreases n - j,
            {
                let pi: Particle = self.particles[i];
                let pj: Particle = self.particles[j];
                if within_range(&pi, &pj, &self.cfg) {
                    let nb: Neighbor = Neighbor::new(i, j, &pi, &pj, &self.cfg);
                    self.neighbors.push(nb);
                    proof {
                        assert(self.neighbors@ =~= all_upto(ps, cfg, i as int) + row_upto(
                            ps,
                            cfg,
                            i as int,
                            j as int + 1,
                        ));
                    }
                }
                j = j + 1;
            }
            proof {
                assert(all_upto(ps, cfg, i as int + 1) == all_upto(ps, cfg, i as int)
                    + row_upto(ps, cfg, i as int, ps.len() as int));
            }
        }
    }

    /// Grid-accelerated neighbor search: rebin every particle into the
    /// spatial grid (storing its clamped cell coordinates), then test only
    /// the 3x3 block of cells around each particle. Produces exactly the
    /// pair set of the exhaustive `find_neighbors`.
    pub fn find_neighbors_grid(&mut self)
        requires
            old(self).wf(),
        ensures
            final(self).cfg == old(self).cfg,
            final(self).particles@ == crate::grid::bin_all(
                old(self).particles@,
                old(self).cfg,
            ),
            nbs_wf(final(self).neighbors@, final(self).particles@, final(self).cfg),
            forall|a: int, b: int|
                #[trigger] crate::neighbor::has_pair(final(self).neighbors@, a, b) <==> (0 <= a
                    < b < final(self).particles@.len() && crate::neighbor::in_range(
                    final(self).particles@[a],
                    final(self).particles@[b],
                    final(self).cfg,
                )),
            final(self).wf(),
    {
        let ghost ps0: Seq<Particle> = self.particles@;
        let nbs: Vec<Neighbor> = crate::grid::grid_search(&mut self.particles, &self.cfg);
        self.neighbors = nbs;
        proof {
            assert(all_bounded(self.particles@)) by {
                assert forall|m: int| 0 <= m < self.particles@.len() implies (
                #[trigger] self.particles@[m]).bounded() by {
                    assert(self.particles@[m] == crate::grid::bin_one(ps0[m], self.cfg));
                    assert(ps0[m].bounded());
                }
            }
        }
    }

    /// Derive this step's densities, pressures and forces from the current
    /// neighbor list: accumulate each pair's density contribution, floor
    /// densities and derive pressures, then accumulate the antisymmetric
    /// pressure and viscosity forces.
    pub fn calc_force(&mut self)
        requires
            old(self).wf(),
            nbs_wf(old(self).neighbors@, old(self).particles@, old(self).cfg),
        ensures
            final(self).cfg == old(self).cfg,
            final(self).neighbors@ == old(self).neighbors@,
            final(self).particles@ == force_all(
                pressure_all(
                    density_all(old(self).particles@, old(self).neighbors@),
                    old(self).cfg.density_floor as int,
                ),
                old(self).neighbors@,
                old(self).cfg,
            ),
            final(self).wf(),
    {
        let ghost ps0: Seq<Particle> = self.particles@;
        let ghost nbs: Seq<Neighbor> = self.neighbors@;
        let ghost cfg: SimConfig = self.cfg;
        proof {
            assert(nbs_idx(nbs, ps0.len() as int)) by {
                assert forall|t: int| 0 <= t < nbs.len() implies ((#[trigger] nbs[t]).i1
                    as int) < (nbs[t].i2 as int) && (nbs[t].i2 as int) < ps0.len() by {
                    assert(crate::neighbor::nb_ok(nbs[t], ps0, cfg));
                }
            }
        }
        accumulate_density(&mut self.particles, &self.neighbors, &self.cfg);
        let ghost ps1: Seq<Particle> = self.particles@;
        proof {
            crate::solver::lemma_density_upto(ps0, nbs, nbs.len() as int);
            assert(all_bounded(ps1)) by {
                assert forall|m: int| 0 <= m < ps1.len() implies (#[trigger] ps1[m])
                    .bounded() by {
                    assert(ps0[m].bounded());
                }
            }
            lemma_nbs_wf_same_positions(nbs, ps0, ps1, cfg);
        }
        derive_pressure(&mut self.particles, self.cfg.density_floor);
        let ghost ps2: Seq<Particle> = self.particles@;
        proof {
            lemma_pressure_all(ps1, cfg.density_floor as int);
            lemma_nbs_wf_same_positions(nbs, ps1, ps2, cfg);
        }
        accumulate_force(&mut self.particles, &self.neighbors, &self.cfg);
        proof {
            lemma_force_upto(ps2, nbs, cfg, nbs.len() as int);
            assert(all_bounded(self.particles@)) by {
                assert forall|m: int| 0 <= m < self.particles@.len() implies (
                #[trigger] self.particles@[m]).bounded() by {
                    assert(ps2[m].bounded());
                }
            }
        }
    }

    /// Run one full simulation step: reset, neighbor search, density and
    /// pressure derivation, force accumulation, and integration. The new
    /// snapshot is exactly `step_spec` of the previous one.
    pub fn update(&mut self)
        requires
            old(self).wf(),
        ensures
            final(self).cfg == old(self).cfg,
            final(self).particles@ == step_spec(old(self).particles@, old(self).cfg),
            final(self).wf(),
    {
        let ghost ps0: Seq<Particle> = self.particles@;
        let ghost cfg: SimConfig = self.cfg;
        self.initialize();
        let ghost ps1: Seq<Particle> = self.particles@;
        let nlen: usize = self.particles.len();
        self.find_neighbors();
        proof {
            assert(ps1.len() == nlen as int);
            lemma_nb_seq_pairs(ps1, cfg);
        }
        self.calc_force();
        integrate(&mut self.particles, &self.cfg);
    }

    /// A copy of the current particle snapshot, safe to consume while the
    /// engine is not being advanced.
    pub fn snapshot(&self) -> (r: Vec<Particle>)
        ensures
            r@ == self.particles@,
    {
        let mut r: Vec<Particle> = Vec::new();
        let n: usize = self.particles.len();
        for i in 0..n
            invariant
                n == self.particles@.len(),
                r@ == self.particles@.subrange(0, i as int),
        {
            r.push(self.particles[i]);
            proof {
                assert(r@ =~= self.particles@.subrange(0, i as int + 1));
            }
        }
        proof {
            assert(r@ =~= self.particles@);
        }
        r
    }
}

} // verus!
