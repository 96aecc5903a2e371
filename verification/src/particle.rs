//! The particle data model and the per-particle integration step.

use vstd::prelude::*;
use crate::fixed::{FX_LIM, SCALE, sat_i, div_tz, sat64, div_tz128, lemma_mul_bound};
use crate::config::SimConfig;

verus! {

/// One fluid particle. All scalar fields are fixed-point quantities; the
/// grid-cell coordinates are derived from the position and recomputed on
/// every binning pass.
#[derive(Clone, Copy, Debug, PartialEq, Eq, Structural)]
pub struct Particle {
    /// Position.
    pub x: i64,
    /// Position.
    pub y: i64,
    /// Velocity.
    pub vx: i64,
    /// Velocity.
    pub vy: i64,
    /// Force accumulated during the current step.
    pub fx: i64,
    /// Force accumulated during the current step.
    pub fy: i64,
    /// Density accumulated during the current step.
    pub density: i64,
    /// Pressure derived from the floored density.
    pub pressure: i64,
    /// Grid cell coordinate, recomputed by each binning pass.
    pub gx: usize,
    /// Grid cell coordinate, recomputed by each binning pass.
    pub gy: usize,
}

impl Particle {
    /// Every scalar field lies within the saturation range; the whole
    /// pipeline preserves this.
    pub open spec fn bounded(self) -> bool {
        &&& -FX_LIM <= self.x <= FX_LIM
        &&& -FX_LIM <= self.y <= FX_LIM
        &&& -FX_LIM <= self.vx <= FX_LIM
        &&& -FX_LIM <= self.vy <= FX_LIM
        &&& -FX_LIM <= self.fx <= FX_LIM
        &&& -FX_LIM <= self.fy <= FX_LIM
        &&& -FX_LIM <= self.density <= FX_LIM
        &&& -FX_LIM <= self.pressure <= FX_LIM
    }

    /// A particle at rest at the given position, with empty accumulators.
    pub open spec fn at_spec(x: i64, y: i64) -> Particle {
        Particle {
            x: x,
            y: y,
            vx: 0,
            vy: 0,
            fx: 0,
            fy: 0,
            density: 0,
            pressure: 0,
            gx: 0,
            gy: 0,
        }
    }

    /// Construct a particle at rest at the given position.
    pub fn at(x: i64, y: i64) -> (p: Particle)
        ensures
            p == Particle::at_spec(x, y),
    {
        Particle { x, y, vx: 0, vy: 0, fx: 0, fy: 0, density: 0, pressure: 0, gx: 0, gy: 0 }
    }

    /// Advance this particle by one tick: apply gravity and the accumulated
    /// force to the velocity, move, then apply the soft boundary springs.
    pub fn update(&mut self, cfg: &SimConfig)
        requires
            cfg.valid(),
            old(self).bounded(),
        ensures
            *final(self) == integrate_spec(*old(self), *cfg),
            final(self).bounded(),
    {
        let vy1: i64 = sat64(self.vy as i128 + cfg.gravity as i128);
        let vx1: i64 = sat64(self.vx as i128 + self.fx as i128);
        let vy2: i64 = sat64(vy1 as i128 + self.fy as i128);
        let x1: i64 = sat64(self.x as i128 + vx1 as i128);
        let y1: i64 = sat64(self.y as i128 + vy2 as i128);

        let vx2: i64 = if x1 < cfg.lower_bound {
            sat64(vx1 as i128 + spring_delta(cfg.lower_bound - x1, vx1, cfg))
        } else if x1 > cfg.upper_bound {
            sat64(vx1 as i128 + spring_delta(cfg.upper_bound - x1, vx1, cfg))
        } else {
            vx1
        };
        let vy3: i64 = if y1 < cfg.lower_bound {
            sat64(vy2 as i128 + spring_delta(cfg.lower_bound - y1, vy2, cfg))
        } else if y1 > cfg.upper_bound {
            sat64(vy2 as i128 + spring_delta(cfg.upper_bound - y1, vy2, cfg))
        } else {
            vy2
        };

        self.x = x1;
        self.y = y1;
        self.vx = vx2;
        self.vy = vy3;
    }
}

/// Every particle of the array lies within the saturation range.
pub open spec fn all_bounded(ps: Seq<Particle>) -> bool {
    forall|m: int| 0 <= m < ps.len() ==> (#[trigger] ps[m]).bounded()
}

/// The velocity correction of the soft boundary spring: a restoring term
/// proportional to how far past the margin the particle sits, damped by the
/// particle's own velocity.
pub open spec fn spring_dv(delta: int, v: int, spring: int, damping: int) -> int {
    div_tz(delta * spring, SCALE as int) - div_tz(v * damping, SCALE as int)
}

/// One tick of the integrator: gravity, accumulated force, movement, then
/// one boundary spring per axis (at most one margin can be crossed per axis).
pub open spec fn integrate_spec(p: Particle, cfg: SimConfig) -> Particle {
    let vy1: int = sat_i(p.vy + cfg.gravity);
    let vx1: int = sat_i(p.vx + p.fx);
    let vy2: int = sat_i(vy1 + p.fy);
    let x1: int = sat_i(p.x + vx1);
    let y1: int = sat_i(p.y + vy2);
    let vx2: int = if x1 < cfg.lower_bound {
        sat_i(vx1 + spring_dv(cfg.lower_bound - x1, vx1, cfg.spring as int, cfg.damping as int))
    } else if x1 > cfg.upper_bound {
        sat_i(vx1 + spring_dv(cfg.upper_bound - x1, vx1, cfg.spring as int, cfg.damping as int))
    } else {
        vx1
    };
    let vy3: int = if y1 < cfg.lower_bound {
        sat_i(vy2 + spring_dv(cfg.lower_bound - y1, vy2, cfg.spring as int, cfg.damping as int))
    } else if y1 > cfg.upper_bound {
        sat_i(vy2 + spring_dv(cfg.upper_bound - y1, vy2, cfg.spring as int, cfg.damping as int))
    } else {
        vy2
    };
    Particle {
        x: x1 as i64,
        y: y1 as i64,
        vx: vx2 as i64,
        vy: vy3 as i64,
        ..p
    }
}

/// Compute the spring correction exactly as `spring_dv` states it.
fn spring_delta(delta: i64, v: i64, cfg: &SimConfig) -> (r: i128)
    requires
        cfg.valid(),
        -2 * (FX_LIM as int) <= delta as int <= 2 * (FX_LIM as int),
        -FX_LIM <= v <= FX_LIM,
    ensures
        r == spring_dv(delta as int, v as int, cfg.spring as int, cfg.damping as int),
        -5_000_000_000_000_000_000_000_000_000_000 <= r as int
            <= 5_000_000_000_000_000_000_000_000_000_000,
{
    proof {
        lemma_mul_bound(delta as int, cfg.spring as int, 2_000_000_000_000_000);
        lemma_mul_bound(v as int, cfg.damping as int, 1_000_000_000_000_000);
    }
    let t1: i128 = div_tz128(delta as i128 * cfg.spring as i128, SCALE as i128);
    let t2: i128 = div_tz128(v as i128 * cfg.damping as i128, SCALE as i128);
    proof {
        crate::fixed::lemma_div_tz_bound(
            delta as int * cfg.spring as int,
            SCALE as int,
            4_000_000_000_000_000_000_000_000_000_000,
        );
        crate::fixed::lemma_div_tz_bound(
            v as int * cfg.damping as int,
            SCALE as int,
            1_000_000_000_000_000_000_000_000_000_000,
        );
    }
    t1 - t2
}

} // verus!
