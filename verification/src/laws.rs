//! The global guarantees of the kernel, stated and proved over the step
//! specification: pair exclusion beyond the interaction radius, symmetry of
//! the pairwise accumulation, the density floor, the kernel weight at the
//! radius boundary, the inward pull of the boundary springs, and the
//! determinism of a step.

use vstd::prelude::*;
use crate::fixed::{SCALE, FX_LIM, sat_i, div_tz};
use crate::config::SimConfig;
use crate::particle::{Particle, all_bounded, integrate_spec, spring_dv};
use crate::neighbor::{Neighbor, dist2, in_range, weight_of, nb_seq, has_pair, nb_ok};
use crate::solver::{reset_all, lemma_reset_all, density_all, lemma_density_upto, nbs_idx,
    pressure_all, lemma_pressure_all, force_all, lemma_force_upto, lemma_integrate_upto,
    add_density, add_force, w3_of, pair_tpx, pair_tpy, pair_tvx, pair_tvy};
use crate::engine::step_spec;

verus! {

/// Two particles at squared separation at least the squared interaction
/// radius never share a neighbor record; neither do coincident particles.
pub proof fn lemma_far_pair_never_neighbors(ps: Seq<Particle>, cfg: SimConfig, a: int, b: int)
    requires
        ps.len() <= usize::MAX,
        0 <= a < ps.len(),
        0 <= b < ps.len(),
        dist2(ps[a], ps[b]) >= cfg.range * cfg.range || dist2(ps[a], ps[b]) == 0,
    ensures
        !has_pair(nb_seq(ps, cfg), a, b),
{
    crate::neighbor::lemma_nb_seq_pairs(ps, cfg);
    assert(!in_range(ps[a], ps[b], cfg));
}

/// A pair's density contribution is the same cubed kernel weight for both
/// of its particles, and where neither accumulator saturates the two
/// density increments are exactly equal.
pub proof fn lemma_density_contribution_symmetric(ps: Seq<Particle>, nb: Neighbor)
    requires
        (nb.i1 as int) < (nb.i2 as int) < ps.len(),
        -FX_LIM <= ps[nb.i1 as int].density + w3_of(nb.weight as int) <= FX_LIM,
        -FX_LIM <= ps[nb.i2 as int].density + w3_of(nb.weight as int) <= FX_LIM,
    ensures
        add_density(ps, nb)[nb.i1 as int].density - ps[nb.i1 as int].density == w3_of(
            nb.weight as int,
        ),
        add_density(ps, nb)[nb.i2 as int].density - ps[nb.i2 as int].density == w3_of(
            nb.weight as int,
        ),
{
}

/// A pair's force contribution is antisymmetric: where no accumulator
/// saturates, the force increment of the first particle is exactly the
/// negation of the second's, on both axes, so momentum is conserved.
pub proof fn lemma_force_contribution_antisymmetric(
    ps: Seq<Particle>,
    nb: Neighbor,
    cfg: SimConfig,
)
    requires
        (nb.i1 as int) < (nb.i2 as int) < ps.len(),
        -FX_LIM <= ps[nb.i1 as int].fx + pair_tpx(ps, nb, cfg) <= FX_LIM,
        -FX_LIM <= ps[nb.i1 as int].fx + pair_tpx(ps, nb, cfg) + pair_tvx(ps, nb, cfg)
            <= FX_LIM,
        -FX_LIM <= ps[nb.i1 as int].fy + pair_tpy(ps, nb, cfg) <= FX_LIM,
        -FX_LIM <= ps[nb.i1 as int].fy + pair_tpy(ps, nb, cfg) + pair_tvy(ps, nb, cfg)
            <= FX_LIM,
        -FX_LIM <= ps[nb.i2 as int].fx - pair_tpx(ps, nb, cfg) <= FX_LIM,
        -FX_LIM <= ps[nb.i2 as int].fx - pair_tpx(ps, nb, cfg) - pair_tvx(ps, nb, cfg)
            <= FX_LIM,
        -FX_LIM <= ps[nb.i2 as int].fy - pair_tpy(ps, nb, cfg) <= FX_LIM,
        -FX_LIM <= ps[nb.i2 as int].fy - pair_tpy(ps, nb, cfg) - pair_tvy(ps, nb, cfg)
            <= FX_LIM,
    ensures
        add_force(ps, nb, cfg)[nb.i1 as int].fx - ps[nb.i1 as int].fx == pair_tpx(ps, nb, cfg)
            + pair_tvx(ps, nb, cfg),
        add_force(ps, nb, cfg)[nb.i1 as int].fx - ps[nb.i1 as int].fx == -(add_force(
            ps,
            nb,
            cfg,
        )[nb.i2 as int].fx - ps[nb.i2 as int].fx),
        add_force(ps, nb, cfg)[nb.i1 as int].fy - ps[nb.i1 as int].fy == -(add_force(
            ps,
            nb,
            cfg,
        )[nb.i2 as int].fy - ps[nb.i2 as int].fy),
{
}

/// After a full step no density is below the rest-density floor and no
/// pressure is negative, whatever the input snapshot.
pub proof fn lemma_step_density_floored(ps: Seq<Particle>, cfg: SimConfig)
    requires
        ps.len() <= usize::MAX,
        cfg.valid(),
        all_bounded(ps),
    ensures
        step_spec(ps, cfg).len() == ps.len(),
        forall|m: int| 0 <= m < ps.len() ==> (#[trigger] step_spec(ps, cfg)[m]).density
            >= cfg.density_floor,
        forall|m: int| 0 <= m < ps.len() ==> (#[trigger] step_spec(ps, cfg)[m]).pressure >= 0,
{
    let floor: int = cfg.density_floor as int;
    let ps1: Seq<Particle> = reset_all(ps);
    lemma_reset_all(ps);
    let nbs: Seq<Neighbor> = nb_seq(ps1, cfg);
    crate::neighbor::lemma_nb_seq_pairs(ps1, cfg);
    assert(nbs_idx(nbs, ps1.len() as int)) by {
        assert forall|t: int| 0 <= t < nbs.len() implies ((#[trigger] nbs[t]).i1 as int) < (
        nbs[t].i2 as int) && (nbs[t].i2 as int) < ps1.len() by {
            assert(nb_ok(nbs[t], ps1, cfg));
        }
    }
    let ps2: Seq<Particle> = density_all(ps1, nbs);
    lemma_density_upto(ps1, nbs, nbs.len() as int);
    let ps3: Seq<Particle> = pressure_all(ps2, floor);
    lemma_pressure_all(ps2, floor);
    assert(all_bounded(ps2)) by {
        assert forall|m: int| 0 <= m < ps2.len() implies (#[trigger] ps2[m]).bounded() by {
            assert(ps1[m].bounded());
        }
    }
    let ps4: Seq<Particle> = force_all(ps3, nbs, cfg);
    lemma_force_upto(ps3, nbs, cfg, nbs.len() as int);
    lemma_integrate_upto(ps4, cfg, ps4.len() as int);
    assert forall|m: int| 0 <= m < ps.len() implies (#[trigger] step_spec(ps, cfg)[m]).density
        >= cfg.density_floor && step_spec(ps, cfg)[m].pressure >= 0 by {
        assert(ps3[m].density >= floor && ps3[m].pressure >= 0);
        assert(ps4[m].density == ps3[m].density && ps4[m].pressure == ps3[m].pressure);
        assert(step_spec(ps, cfg)[m] == integrate_spec(ps4[m], cfg));
    }
}

/// At a separation of exactly the interaction radius the kernel weight is
/// zero; within the radius it never goes negative. Pairs at or beyond the
/// radius are excluded from the neighbor list altogether
/// (`lemma_far_pair_never_neighbors`), so no negative weight is ever used.
pub proof fn lemma_weight_zero_at_radius(cfg: SimConfig, d: int)
    requires
        cfg.valid(),
        0 <= d <= cfg.range,
    ensures
        d == cfg.range ==> weight_of(d, cfg.range as int) == 0,
        weight_of(d, cfg.range as int) >= 0,
{
    let r: int = cfg.range as int;
    if d == r {
        assert((r * (SCALE as int)) / r == SCALE as int) by (nonlinear_arith)
            requires
                r >= 1,
        ;
    }
    assert((d * (SCALE as int)) / r <= SCALE as int) by (nonlinear_arith)
        requires
            0 <= d <= r,
            r >= 1,
            SCALE as int >= 1,
    ;
}

/// A particle resting at the origin, outside the lower boundary margin,
/// is pulled toward the domain interior by one integration step: both
/// velocity components strictly increase.
pub proof fn lemma_boundary_spring_pulls_inward(p: Particle, cfg: SimConfig)
    requires
        cfg.valid(),
        p.x == 0,
        p.y == 0,
        p.vx == 0,
        p.vy == 0,
        p.fx == 0,
        p.fy == 0,
        cfg.gravity < cfg.lower_bound,
        (cfg.lower_bound - cfg.gravity) * cfg.spring >= SCALE,
    ensures
        integrate_spec(p, cfg).vx >= 1,
        integrate_spec(p, cfg).vy >= 1,
        integrate_spec(p, cfg).vx > p.vx,
        integrate_spec(p, cfg).vy > p.vy,
{
    let s: int = SCALE as int;
    let g: int = cfg.gravity as int;
    let lo: int = cfg.lower_bound as int;
    let spr: int = cfg.spring as int;
    let dmp: int = cfg.damping as int;
    // after gravity and movement the particle sits at (0, g), inside both
    // lower margins
    assert(sat_i(0 + g) == g);
    assert(sat_i(0int + 0int) == 0);
    // x axis: no damping term, a positive restoring term
    let tx: int = spring_dv(lo - 0, 0, spr, dmp);
    assert(lo * spr >= (lo - g) * spr) by (nonlinear_arith)
        requires
            g >= 0,
            spr >= 0,
            lo >= 0,
    ;
    assert(div_tz(lo * spr, s) >= 1 && div_tz(lo * spr, s) <= FX_LIM) by (nonlinear_arith)
        requires
            lo * spr >= s,
            s >= 1,
            lo <= FX_LIM,
            0 <= spr <= s,
            lo >= 0,
            spr >= 0,
    ;
    assert(div_tz(0 * dmp, s) == 0) by (nonlinear_arith)
        requires
            s >= 1,
    ;
    assert(tx >= 1);
    assert(integrate_spec(p, cfg).vx == sat_i(0 + tx));
    assert(sat_i(0 + tx) >= 1);
    // y axis: the damping of the gravity-given velocity never exceeds that
    // velocity, and the restoring term is at least one unit
    let ty: int = spring_dv(lo - g, g, spr, dmp);
    assert(div_tz((lo - g) * spr, s) >= 1) by (nonlinear_arith)
        requires
            (lo - g) * spr >= s,
            s >= 1,
    ;
    assert(div_tz((lo - g) * spr, s) <= FX_LIM) by (nonlinear_arith)
        requires
            lo - g <= FX_LIM,
            lo - g >= 0,
            0 <= spr <= s,
            s >= 1,
    ;
    assert(0 <= div_tz(g * dmp, s) <= g) by (nonlinear_arith)
        requires
            g >= 0,
            0 <= dmp <= s,
            s >= 1,
    ;
    assert(ty >= 1 - g);
    assert(g + ty >= 1);
    assert(integrate_spec(p, cfg).vy == sat_i(g + ty));
    assert(sat_i(g + ty) >= 1);
}

/// The two search strategies agree exactly: any neighbor list whose pair
/// set is the in-range relation (as the grid-accelerated search ensures)
/// holds a pair exactly when the exhaustive pair list does.
pub proof fn lemma_search_strategies_agree(
    grid_nbs: Seq<Neighbor>,
    ps: Seq<Particle>,
    cfg: SimConfig,
)
    requires
        ps.len() <= usize::MAX,
        forall|a: int, b: int|
            #[trigger] has_pair(grid_nbs, a, b) <==> (0 <= a < b < ps.len() && in_range(
                ps[a],
                ps[b],
                cfg,
            )),
    ensures
        forall|a: int, b: int|
            #[trigger] has_pair(grid_nbs, a, b) <==> has_pair(nb_seq(ps, cfg), a, b),
{
    crate::neighbor::lemma_nb_seq_pairs(ps, cfg);
    assert forall|a: int, b: int| #[trigger] has_pair(grid_nbs, a, b) <==> has_pair(
        nb_seq(ps, cfg),
        a,
        b,
    ) by {
        assert(has_pair(nb_seq(ps, cfg), a, b) <==> (0 <= a < b < ps.len() && in_range(
            ps[a],
            ps[b],
            cfg,
        )));
    }
}

/// One step is a pure function of the snapshot and the configuration:
/// running the same snapshot under the same constants twice gives
/// identical results, bit for bit.
pub proof fn lemma_step_deterministic(
    ps1: Seq<Particle>,
    ps2: Seq<Particle>,
    cfg1: SimConfig,
    cfg2: SimConfig,
)
    requires
        ps1 == ps2,
        cfg1 == cfg2,
    ensures
        step_spec(ps1, cfg1) == step_spec(ps2, cfg2),
{
}

} // verus!
