//! The per-step passes of the pipeline: reset, density accumulation,
//! pressure derivation, force accumulation, and integration.
//!
//! Each pass is specified as a fold over the particle array (or over the
//! neighbor list) and the executable pass is proved to compute exactly that
//! fold, so a whole step is a pure function of the previous snapshot.

use vstd::prelude::*;
use crate::fixed::{SCALE, FX_LIM, sat_i, div_tz, sat64, div_tz128,
    lemma_mul_le, lemma_mul_abs_bound, lemma_div_tz_bound};
use crate::config::SimConfig;
use crate::particle::{Particle, all_bounded, integrate_spec};
use crate::neighbor::{Neighbor, nbs_wf};

verus! {

// ---------------------------------------------------------------- reset

/// Zero the per-step accumulators of one particle.
pub open spec fn reset_one(p: Particle) -> Particle {
    Particle { fx: 0, fy: 0, density: 0, ..p }
}

/// The first `k` particles reset, the rest untouched.
pub open spec fn reset_upto(ps: Seq<Particle>, k: int) -> Seq<Particle>
    decreases k,
{
    if k <= 0 {
        ps
    } else {
        reset_upto(ps, k - 1).update(k - 1, reset_one(ps[k - 1]))
    }
}

/// Every particle's per-step accumulators zeroed.
pub open spec fn reset_all(ps: Seq<Particle>) -> Seq<Particle> {
    reset_upto(ps, ps.len() as int)
}

proof fn lemma_reset_upto(ps: Seq<Particle>, k: int)
    requires
        0 <= k <= ps.len(),
    ensures
        reset_upto(ps, k).len() == ps.len(),
        forall|m: int| 0 <= m < k ==> reset_upto(ps, k)[m] == reset_one(#[trigger] ps[m]),
        forall|m: int| k <= m < ps.len() ==> reset_upto(ps, k)[m] == #[trigger] ps[m],
    decreases k,
{
    if k > 0 {
        lemma_reset_upto(ps, k - 1);
    }
}

/// What the reset pass does to every particle.
pub proof fn lemma_reset_all(ps: Seq<Particle>)
    ensures
        reset_all(ps).len() == ps.len(),
        forall|m: int| 0 <= m < ps.len() ==> reset_all(ps)[m] == reset_one(#[trigger] ps[m]),
        all_bounded(ps) ==> all_bounded(reset_all(ps)),
{
    lemma_reset_upto(ps, ps.len() as int);
    if all_bounded(ps) {
        assert forall|m: int| 0 <= m < reset_all(ps).len() implies (#[trigger] reset_all(
            ps,
        )[m]).bounded() by {
            assert(ps[m].bounded());
        }
    }
}

/// Zero `fx`, `fy` and `density` of every particle, leaving position,
/// velocity and the previous pressure untouched.
pub fn reset_step(ps: &mut Vec<Particle>)
    ensures
        final(ps)@ == reset_all(old(ps)@),
{
    let ghost ps0: Seq<Particle> = ps@;
    let n: usize = ps.len();
    proof {
        lemma_reset_upto(ps0, n as int);
    }
    for m in 0..n
        invariant
            n == ps0.len(),
            ps@ == reset_upto(ps0, m as int),
    {
        proof {
            lemma_reset_upto(ps0, m as int);
        }
        let p: Particle = ps[m];
        ps[m] = Particle { fx: 0, fy: 0, density: 0, ..p };
    }
}

// -------------------------------------------------------------- density

/// The cubed kernel weight, the density contribution of one pair to each of
/// its two particles.
pub open spec fn w3_of(w: int) -> int {
    (w * w * w) / ((SCALE as int) * (SCALE as int))
}

/// One pair's symmetric density contribution applied to both its particles.
pub open spec fn add_density(ps: Seq<Particle>, nb: Neighbor) -> Seq<Particle> {
    let w3: int = w3_of(nb.weight as int);
    let p1: Particle = ps[nb.i1 as int];
    let p2: Particle = ps[nb.i2 as int];
    ps.update(nb.i1 as int, Particle { density: sat_i(p1.density + w3) as i64, ..p1 }).update(
        nb.i2 as int,
        Particle { density: sat_i(p2.density + w3) as i64, ..p2 },
    )
}

/// The first `k` pairs' density contributions applied.
pub open spec fn density_upto(ps: Seq<Particle>, nbs: Seq<Neighbor>, k: int) -> Seq<Particle>
    decreases k,
{
    if k <= 0 {
        ps
    } else {
        add_density(density_upto(ps, nbs, k - 1), nbs[k - 1])
    }
}

/// Every pair's density contribution applied.
pub open spec fn density_all(ps: Seq<Particle>, nbs: Seq<Neighbor>) -> Seq<Particle> {
    density_upto(ps, nbs, nbs.len() as int)
}

/// Index validity of a neighbor list against an array length: each record
/// names two distinct particles, smaller index first.
pub open spec fn nbs_idx(nbs: Seq<Neighbor>, len: int) -> bool {
    forall|k: int| 0 <= k < nbs.len() ==> ((#[trigger] nbs[k]).i1 as int) < (nbs[k].i2 as int)
        && (nbs[k].i2 as int) < len
}

/// The density fold changes only densities, and keeps them in range.
pub proof fn lemma_density_upto(ps: Seq<Particle>, nbs: Seq<Neighbor>, k: int)
    requires
        nbs_idx(nbs, ps.len() as int),
        0 <= k <= nbs.len(),
    ensures
        density_upto(ps, nbs, k).len() == ps.len(),
        forall|m: int| 0 <= m < ps.len() ==> {
            let q = #[trigger] density_upto(ps, nbs, k)[m];
            q == Particle { density: q.density, ..ps[m] } && (q.density == ps[m].density
                || -FX_LIM <= q.density <= FX_LIM)
        },
    decreases k,
{
    if k > 0 {
        lemma_density_upto(ps, nbs, k - 1);
    }
}

/// Accumulate each pair's cubed kernel weight into both of its particles'
/// densities, symmetrically.
pub fn accumulate_density(ps: &mut Vec<Particle>, nbs: &Vec<Neighbor>, cfg: &SimConfig)
    requires
        cfg.valid(),
        all_bounded(old(ps)@),
        nbs_wf(nbs@, old(ps)@, *cfg),
    ensures
        final(ps)@ == density_all(old(ps)@, nbs@),
{
    let ghost ps0: Seq<Particle> = ps@;
    let kn: usize = nbs.len();
    for k in 0..kn
        invariant
            cfg.valid(),
            all_bounded(ps0),
            nbs_wf(nbs@, ps0, *cfg),
            kn == nbs@.len(),
            ps@ == density_upto(ps0, nbs@, k as int),
    {
        proof {
            assert(nbs_idx(nbs@, ps0.len() as int)) by {
                assert forall|t: int| 0 <= t < nbs@.len() implies ((#[trigger] nbs@[t]).i1
                    as int) < (nbs@[t].i2 as int) && (nbs@[t].i2 as int) < ps0.len() by {
                    assert(crate::neighbor::nb_ok(nbs@[t], ps0, *cfg));
                }
            }
            lemma_density_upto(ps0, nbs@, k as int);
            assert(crate::neighbor::nb_ok(nbs@[k as int], ps0, *cfg));
            crate::neighbor::lemma_mk_nb_ranges(
                nbs@[k as int].i1 as int,
                nbs@[k as int].i2 as int,
                ps0[nbs@[k as int].i1 as int],
                ps0[nbs@[k as int].i2 as int],
                *cfg,
            );
        }
        let nb: Neighbor = nbs[k];
        let w: i64 = nb.weight;
        proof {
            lemma_mul_le(w as int, w as int, 1_000_000, 1_000_000);
            lemma_mul_le(w as int * w as int, w as int, 1_000_000_000_000, 1_000_000);
        }
        let w3: u128 = (w as u128) * (w as u128) * (w as u128) / ((SCALE as u128) * (SCALE
            as u128));
        proof {
            assert(w3 <= (w as u128) * (w as u128) * (w as u128)) by (nonlinear_arith)
                requires
                    w3 == (w as u128) * (w as u128) * (w as u128) / ((SCALE as u128) * (SCALE
                        as u128)),
                    (SCALE as u128) * (SCALE as u128) >= 1,
            ;
        }
        let p1: Particle = ps[nb.i1];
        let p2: Particle = ps[nb.i2];
        ps[nb.i1] = Particle { density: sat64(p1.density as i128 + w3 as i128), ..p1 };
        ps[nb.i2] = Particle { density: sat64(p2.density as i128 + w3 as i128), ..p2 };
    }
}

// ------------------------------------------------------------- pressure

/// Floor one particle's density at the rest density and derive its pressure
/// as the excess over the floor.
pub open spec fn floor_one(p: Particle, floor: int) -> Particle {
    let d: int = if p.density < floor {
        floor
    } else {
        p.density as int
    };
    Particle { density: d as i64, pressure: (d - floor) as i64, ..p }
}

/// The first `k` particles floored, the rest untouched.
pub open spec fn pressure_upto(ps: Seq<Particle>, floor: int, k: int) -> Seq<Particle>
    decreases k,
{
    if k <= 0 {
        ps
    } else {
        pressure_upto(ps, floor, k - 1).update(k - 1, floor_one(ps[k - 1], floor))
    }
}

/// Every particle floored and given its pressure.
pub open spec fn pressure_all(ps: Seq<Particle>, floor: int) -> Seq<Particle> {
    pressure_upto(ps, floor, ps.len() as int)
}

proof fn lemma_pressure_upto(ps: Seq<Particle>, floor: int, k: int)
    requires
        0 <= k <= ps.len(),
    ensures
        pressure_upto(ps, floor, k).len() == ps.len(),
        forall|m: int| 0 <= m < k ==> pressure_upto(ps, floor, k)[m] == floor_one(
            #[trigger] ps[m],
            floor,
        ),
        forall|m: int| k <= m < ps.len() ==> pressure_upto(ps, floor, k)[m] == #[trigger] ps[m],
    decreases k,
{
    if k > 0 {
        lemma_pressure_upto(ps, floor, k - 1);
    }
}

/// What the pressure pass does to every particle. After it no density is
/// below the floor, and every pressure is the non-negative excess.
pub proof fn lemma_pressure_all(ps: Seq<Particle>, floor: int)
    requires
        0 < floor <= FX_LIM,
    ensures
        pressure_all(ps, floor).len() == ps.len(),
        forall|m: int| 0 <= m < ps.len() ==> pressure_all(ps, floor)[m] == floor_one(
            #[trigger] ps[m],
            floor,
        ),
        forall|m: int| 0 <= m < ps.len() ==> (#[trigger] pressure_all(ps, floor)[m]).density
            >= floor,
        all_bounded(ps) ==> all_bounded(pressure_all(ps, floor)),
        all_bounded(ps) ==> forall|m: int| 0 <= m < ps.len() ==> 0 <= (
        #[trigger] pressure_all(ps, floor)[m]).pressure,
{
    lemma_pressure_upto(ps, floor, ps.len() as int);
    assert forall|m: int| 0 <= m < ps.len() implies (#[trigger] pressure_all(ps, floor)[m])
        .density >= floor by {
        assert(pressure_all(ps, floor)[m] == floor_one(ps[m], floor));
    }
    if all_bounded(ps) {
        assert forall|m: int| 0 <= m < pressure_all(ps, floor).len() implies (
        #[trigger] pressure_all(ps, floor)[m]).bounded() && 0 <= pressure_all(ps, floor)[m]
            .pressure by {
            assert(ps[m].bounded());
            assert(pressure_all(ps, floor)[m] == floor_one(ps[m], floor));
        }
    }
}

/// Floor every density at the rest density and derive every pressure.
pub fn derive_pressure(ps: &mut Vec<Particle>, floor: i64)
    requires
        0 < floor <= FX_LIM,
        all_bounded(old(ps)@),
    ensures
        final(ps)@ == pressure_all(old(ps)@, floor as int),
{
    let ghost ps0: Seq<Particle> = ps@;
    let n: usize = ps.len();
    proof {
        lemma_pressure_upto(ps0, floor as int, n as int);
    }
    for m in 0..n
        invariant
            0 < floor <= FX_LIM,
            all_bounded(ps0),
            n == ps0.len(),
            ps@ == pressure_upto(ps0, floor as int, m as int),
    {
        proof {
            lemma_pressure_upto(ps0, floor as int, m as int);
        }
        let p: Particle = ps[m];
        let d: i64 = if p.density < floor {
            floor
        } else {
            p.density
        };
        ps[m] = Particle { density: d, pressure: d - floor, ..p };
    }
}

// ---------------------------------------------------------------- force

/// The pressure weight of a pair: kernel weight times the pressure sum over
/// the density sum, scaled by the pressure coefficient.
pub open spec fn pw_of(w: int, pr1: int, pr2: int, d1: int, d2: int, pc: int) -> int {
    ((w * (pr1 + pr2)) / (d1 + d2) * pc) / (SCALE as int)
}

/// The viscosity weight of a pair: kernel weight times the viscosity
/// coefficient over the density sum.
pub open spec fn vw_of(w: int, d1: int, d2: int, vc: int) -> int {
    (w * vc) / (d1 + d2)
}

/// The pressure weight of one recorded pair.
pub open spec fn pair_pw(ps: Seq<Particle>, nb: Neighbor, cfg: SimConfig) -> int {
    pw_of(
        nb.weight as int,
        ps[nb.i1 as int].pressure as int,
        ps[nb.i2 as int].pressure as int,
        ps[nb.i1 as int].density as int,
        ps[nb.i2 as int].density as int,
        cfg.pressure_coeff as int,
    )
}

/// The viscosity weight of one recorded pair.
pub open spec fn pair_vw(ps: Seq<Particle>, nb: Neighbor, cfg: SimConfig) -> int {
    vw_of(
        nb.weight as int,
        ps[nb.i1 as int].density as int,
        ps[nb.i2 as int].density as int,
        cfg.viscosity_coeff as int,
    )
}

/// The x force a pair contributes: pressure force along the pair direction.
pub open spec fn pair_tpx(ps: Seq<Particle>, nb: Neighbor, cfg: SimConfig) -> int {
    div_tz(nb.nx * pair_pw(ps, nb, cfg), SCALE as int)
}

/// The y force a pair contributes: pressure force along the pair direction.
pub open spec fn pair_tpy(ps: Seq<Particle>, nb: Neighbor, cfg: SimConfig) -> int {
    div_tz(nb.ny * pair_pw(ps, nb, cfg), SCALE as int)
}

/// The x viscosity force of a pair, along the relative velocity.
pub open spec fn pair_tvx(ps: Seq<Particle>, nb: Neighbor, cfg: SimConfig) -> int {
    div_tz((ps[nb.i2 as int].vx - ps[nb.i1 as int].vx) * pair_vw(ps, nb, cfg), SCALE as int)
}

/// The y viscosity force of a pair, along the relative velocity.
pub open spec fn pair_tvy(ps: Seq<Particle>, nb: Neighbor, cfg: SimConfig) -> int {
    div_tz((ps[nb.i2 as int].vy - ps[nb.i1 as int].vy) * pair_vw(ps, nb, cfg), SCALE as int)
}

/// One pair's antisymmetric force contribution: the pressure force along
/// the pair direction and the viscosity force along the relative velocity,
/// added to the first particle and subtracted from the second.
pub open spec fn add_force(ps: Seq<Particle>, nb: Neighbor, cfg: SimConfig) -> Seq<Particle> {
    let p1: Particle = ps[nb.i1 as int];
    let p2: Particle = ps[nb.i2 as int];
    let tpx: int = pair_tpx(ps, nb, cfg);
    let tpy: int = pair_tpy(ps, nb, cfg);
    let tvx: int = pair_tvx(ps, nb, cfg);
    let tvy: int = pair_tvy(ps, nb, cfg);
    let q1: Particle = Particle {
        fx: sat_i(sat_i(p1.fx + tpx) + tvx) as i64,
        fy: sat_i(sat_i(p1.fy + tpy) + tvy) as i64,
        ..p1
    };
    let q2: Particle = Particle {
        fx: sat_i(sat_i(p2.fx - tpx) - tvx) as i64,
        fy: sat_i(sat_i(p2.fy - tpy) - tvy) as i64,
        ..p2
    };
    ps.update(nb.i1 as int, q1).update(nb.i2 as int, q2)
}

/// The first `k` pairs' force contributions applied.
pub open spec fn force_upto(ps: Seq<Particle>, nbs: Seq<Neighbor>, cfg: SimConfig, k: int)
    -> Seq<Particle>
    decreases k,
{
    if k <= 0 {
        ps
    } else {
        add_force(force_upto(ps, nbs, cfg, k - 1), nbs[k - 1], cfg)
    }
}

/// Every pair's force contribution applied.
pub open spec fn force_all(ps: Seq<Particle>, nbs: Seq<Neighbor>, cfg: SimConfig)
    -> Seq<Particle> {
    force_upto(ps, nbs, cfg, nbs.len() as int)
}

/// The force fold changes only forces, and keeps them in range.
pub proof fn lemma_force_upto(ps: Seq<Particle>, nbs: Seq<Neighbor>, cfg: SimConfig, k: int)
    requires
        nbs_idx(nbs, ps.len() as int),
        0 <= k <= nbs.len(),
    ensures
        force_upto(ps, nbs, cfg, k).len() == ps.len(),
        forall|m: int| 0 <= m < ps.len() ==> {
            let q = #[trigger] force_upto(ps, nbs, cfg, k)[m];
            q == Particle { fx: q.fx, fy: q.fy, ..ps[m] } && ((q.fx == ps[m].fx && q.fy
                == ps[m].fy) || (-FX_LIM <= q.fx <= FX_LIM && -FX_LIM <= q.fy <= FX_LIM))
        },
    decreases k,
{
    if k > 0 {
        lemma_force_upto(ps, nbs, cfg, k - 1);
    }
}

impl Neighbor {
    /// One pair's force application, reusing the record's cached weight and
    /// direction and the finalized densities and pressures: the pressure
    /// force along the pair direction and the viscosity force along the
    /// relative velocity, added to the first particle and subtracted from
    /// the second.
    pub fn calc_force(&self, ps: &mut Vec<Particle>, cfg: &SimConfig)
        requires
            cfg.valid(),
            (self.i1 as int) < (self.i2 as int),
            (self.i2 as int) < old(ps)@.len(),
            1 <= self.weight <= SCALE,
            -SCALE <= self.nx <= SCALE,
            -SCALE <= self.ny <= SCALE,
            old(ps)@[self.i1 as int].bounded(),
            old(ps)@[self.i2 as int].bounded(),
            old(ps)@[self.i1 as int].density >= 1,
            old(ps)@[self.i2 as int].density >= 1,
            old(ps)@[self.i1 as int].pressure >= 0,
            old(ps)@[self.i2 as int].pressure >= 0,
        ensures
            final(ps)@ == add_force(old(ps)@, *self, *cfg),
    {
        let p1: Particle = ps[self.i1];
        let p2: Particle = ps[self.i2];
        let w_u: u128 = self.weight as u128;
        let prsum: u128 = p1.pressure as u128 + p2.pressure as u128;
        let dsum: u128 = p1.density as u128 + p2.density as u128;
        proof {
            lemma_mul_le(w_u as int, prsum as int, 1_000_000, 2_000_000_000_000_000);
        }
        let t1: u128 = w_u * prsum;
        let t2: u128 = t1 / dsum;
        proof {
            assert(t2 <= t1) by (nonlinear_arith)
                requires
                    t2 == t1 / dsum,
                    dsum >= 1,
            ;
            lemma_mul_le(t2 as int, cfg.pressure_coeff as int,
                2_000_000_000_000_000_000_000, 1_000_000_000);
        }
        let t3: u128 = t2 * (cfg.pressure_coeff as u128);
        let pw: u128 = t3 / (SCALE as u128);
        proof {
            assert(pw <= t3) by (nonlinear_arith)
                requires
                    pw == t3 / (SCALE as u128),
                    (SCALE as u128) >= 1,
            ;
            lemma_mul_abs_bound(self.nx as int, pw as int, 1_000_000,
                2_000_000_000_000_000_000_000_000_000_000);
            lemma_mul_abs_bound(self.ny as int, pw as int, 1_000_000,
                2_000_000_000_000_000_000_000_000_000_000);
        }
        let tpx: i128 = div_tz128(self.nx as i128 * pw as i128, SCALE as i128);
        let tpy: i128 = div_tz128(self.ny as i128 * pw as i128, SCALE as i128);
        proof {
            lemma_mul_le(w_u as int, cfg.viscosity_coeff as int, 1_000_000, 1_000_000_000);
        }
        let tv: u128 = w_u * (cfg.viscosity_coeff as u128);
        let vw: u128 = tv / dsum;
        proof {
            assert(vw <= tv) by (nonlinear_arith)
                requires
                    vw == tv / dsum,
                    dsum >= 1,
            ;
        }
        let rvx: i128 = p2.vx as i128 - p1.vx as i128;
        let rvy: i128 = p2.vy as i128 - p1.vy as i128;
        proof {
            lemma_mul_abs_bound(rvx as int, vw as int, 2_000_000_000_000_000,
                1_000_000_000_000_000);
            lemma_mul_abs_bound(rvy as int, vw as int, 2_000_000_000_000_000,
                1_000_000_000_000_000);
            lemma_div_tz_bound(self.nx as int * pw as int, SCALE as int,
                2_000_000_000_000_000_000_000_000_000_000_000_000);
            lemma_div_tz_bound(self.ny as int * pw as int, SCALE as int,
                2_000_000_000_000_000_000_000_000_000_000_000_000);
            lemma_div_tz_bound(rvx as int * vw as int, SCALE as int,
                2_000_000_000_000_000_000_000_000_000_000);
            lemma_div_tz_bound(rvy as int * vw as int, SCALE as int,
                2_000_000_000_000_000_000_000_000_000_000);
        }
        let tvx: i128 = div_tz128(rvx * vw as i128, SCALE as i128);
        let tvy: i128 = div_tz128(rvy * vw as i128, SCALE as i128);
        let f1x: i64 = sat64(sat64(p1.fx as i128 + tpx) as i128 + tvx);
        let f1y: i64 = sat64(sat64(p1.fy as i128 + tpy) as i128 + tvy);
        let f2x: i64 = sat64(sat64(p2.fx as i128 - tpx) as i128 - tvx);
        let f2y: i64 = sat64(sat64(p2.fy as i128 - tpy) as i128 - tvy);
        ps[self.i1] = Particle { fx: f1x, fy: f1y, ..p1 };
        ps[self.i2] = Particle { fx: f2x, fy: f2y, ..p2 };
    }
}

/// Accumulate each pair's pressure and viscosity forces into both of its
/// particles, antisymmetrically, reusing each record's cached weight and
/// direction.
pub fn accumulate_force(ps: &mut Vec<Particle>, nbs: &Vec<Neighbor>, cfg: &SimConfig)
    requires
        cfg.valid(),
        all_bounded(old(ps)@),
        nbs_wf(nbs@, old(ps)@, *cfg),
        forall|m: int| 0 <= m < old(ps)@.len() ==> (#[trigger] old(ps)@[m]).density >= 1
            && old(ps)@[m].pressure >= 0,
    ensures
        final(ps)@ == force_all(old(ps)@, nbs@, *cfg),
{
    let ghost ps0: Seq<Particle> = ps@;
    let kn: usize = nbs.len();
    for k in 0..kn
        invariant
            cfg.valid(),
            all_bounded(ps0),
            nbs_wf(nbs@, ps0, *cfg),
            forall|m: int| 0 <= m < ps0.len() ==> (#[trigger] ps0[m]).density >= 1
                && ps0[m].pressure >= 0,
            kn == nbs@.len(),
            ps@ == force_upto(ps0, nbs@, *cfg, k as int),
    {
        proof {
            assert(nbs_idx(nbs@, ps0.len() as int)) by {
                assert forall|t: int| 0 <= t < nbs@.len() implies ((#[trigger] nbs@[t]).i1
                    as int) < (nbs@[t].i2 as int) && (nbs@[t].i2 as int) < ps0.len() by {
                    assert(crate::neighbor::nb_ok(nbs@[t], ps0, *cfg));
                }
            }
            lemma_force_upto(ps0, nbs@, *cfg, k as int);
            assert(crate::neighbor::nb_ok(nbs@[k as int], ps0, *cfg));
            crate::neighbor::lemma_mk_nb_ranges(
                nbs@[k as int].i1 as int,
                nbs@[k as int].i2 as int,
                ps0[nbs@[k as int].i1 as int],
                ps0[nbs@[k as int].i2 as int],
                *cfg,
            );
            assert(ps0[nbs@[k as int].i1 as int].bounded());
            assert(ps0[nbs@[k as int].i2 as int].bounded());
        }
        let nb: Neighbor = nbs[k];
        nb.calc_force(ps, cfg);
    }
}

// ------------------------------------------------------------ integrate

/// The first `k` particles advanced by the integrator, the rest untouched.
pub open spec fn integrate_upto(ps: Seq<Particle>, cfg: SimConfig, k: int) -> Seq<Particle>
    decreases k,
{
    if k <= 0 {
        ps
    } else {
        integrate_upto(ps, cfg, k - 1).update(k - 1, integrate_spec(ps[k - 1], cfg))
    }
}

/// Every particle advanced by one tick of the integrator.
pub open spec fn integrate_all(ps: Seq<Particle>, cfg: SimConfig) -> Seq<Particle> {
    integrate_upto(ps, cfg, ps.len() as int)
}

/// What the integration pass does to every particle.
pub proof fn lemma_integrate_upto(ps: Seq<Particle>, cfg: SimConfig, k: int)
    requires
        0 <= k <= ps.len(),
    ensures
        integrate_upto(ps, cfg, k).len() == ps.len(),
        forall|m: int| 0 <= m < k ==> integrate_upto(ps, cfg, k)[m] == integrate_spec(
            #[trigger] ps[m],
            cfg,
        ),
        forall|m: int| k <= m < ps.len() ==> integrate_upto(ps, cfg, k)[m] == #[trigger] ps[m],
    decreases k,
{
    if k > 0 {
        lemma_integrate_upto(ps, cfg, k - 1);
    }
}

/// Advance every particle by one tick of the integrator.
pub fn integrate(ps: &mut Vec<Particle>, cfg: &SimConfig)
    requires
        cfg.valid(),
        all_bounded(old(ps)@),
    ensures
        final(ps)@ == integrate_all(old(ps)@, *cfg),
        all_bounded(final(ps)@),
{
    let ghost ps0: Seq<Particle> = ps@;
    let n: usize = ps.len();
    proof {
        lemma_integrate_upto(ps0, *cfg, n as int);
    }
    for m in 0..n
        invariant
            cfg.valid(),
            all_bounded(ps0),
            n == ps0.len(),
            ps@ == integrate_upto(ps0, *cfg, m as int),
    {
        proof {
            lemma_integrate_upto(ps0, *cfg, m as int);
            assert(ps@[m as int] == ps0[m as int]);
            assert(ps0[m as int].bounded());
        }
        let mut p: Particle = ps[m];
        p.update(cfg);
        ps[m] = p;
    }
    proof {
        lemma_integrate_upto(ps0, *cfg, n as int);
        assert forall|m: int| 0 <= m < ps@.len() implies (#[trigger] ps@[m]).bounded() by {
            assert(ps@[m] == integrate_spec(ps0[m], *cfg));
            assert(ps0[m].bounded());
        }
    }
}

} // verus!
