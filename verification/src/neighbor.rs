//! Neighbor discovery: the interacting-pair records and the exhaustive
//! pair-set specification that both search strategies are held to.
//!
//! A pair interacts exactly when its squared separation is strictly between
//! zero and the squared interaction radius; coincident particles are skipped
//! so that direction normalization never divides by zero. Each unordered
//! pair is recorded once, with the smaller index first.

use vstd::prelude::*;
use crate::fixed::{SCALE, div_tz, isqrt_spec, div_tz128, isqrt64,
    lemma_mul_bound, lemma_mul_le, lemma_isqrt_bounds};
use crate::config::SimConfig;
use crate::particle::Particle;

verus! {

/// One interacting pair: the two particle indices (smaller first), the
/// normalized displacement direction from the second toward the first,
/// their separation, and the linear kernel weight.
#[derive(Clone, Copy, Debug, PartialEq, Eq, Structural)]
pub struct Neighbor {
    /// Index of the first particle of the pair; always below `i2`.
    pub i1: usize,
    /// Index of the second particle of the pair.
    pub i2: usize,
    /// Normalized displacement, x component, as a fraction of `SCALE`.
    pub nx: i64,
    /// Normalized displacement, y component, as a fraction of `SCALE`.
    pub ny: i64,
    /// Separation distance.
    pub distance: i64,
    /// Kernel weight `1 - distance / range`, as a fraction of `SCALE`.
    pub weight: i64,
}

/// Squared separation of two particles.
pub open spec fn dist2(p1: Particle, p2: Particle) -> int {
    (p1.x - p2.x) * (p1.x - p2.x) + (p1.y - p2.y) * (p1.y - p2.y)
}

/// Whether two particles interact: strictly closer than the interaction
/// radius, and not coincident.
pub open spec fn in_range(p1: Particle, p2: Particle, cfg: SimConfig) -> bool {
    0 < dist2(p1, p2) < cfg.range * cfg.range
}

/// The linear kernel weight at separation `d`: one unit at zero
/// separation, falling to zero at the interaction radius.
pub open spec fn weight_of(d: int, range: int) -> int {
    (SCALE as int) - (d * (SCALE as int)) / range
}

/// The record built for an interacting pair, as a function of the two
/// particles' positions and the configuration alone.
pub open spec fn mk_nb(i: int, j: int, p1: Particle, p2: Particle, cfg: SimConfig) -> Neighbor {
    let d: int = isqrt_spec(dist2(p1, p2));
    Neighbor {
        i1: i as usize,
        i2: j as usize,
        nx: div_tz((p1.x - p2.x) * SCALE, d) as i64,
        ny: div_tz((p1.y - p2.y) * SCALE, d) as i64,
        distance: d as i64,
        weight: weight_of(d, cfg.range as int) as i64,
    }
}

/// A well-formed record: indices ordered and in bounds, the pair in range,
/// and every field exactly what `mk_nb` computes from the particle array.
pub open spec fn nb_ok(nb: Neighbor, ps: Seq<Particle>, cfg: SimConfig) -> bool {
    &&& (nb.i1 as int) < (nb.i2 as int)
    &&& (nb.i2 as int) < ps.len()
    &&& in_range(ps[nb.i1 as int], ps[nb.i2 as int], cfg)
    &&& nb == mk_nb(nb.i1 as int, nb.i2 as int, ps[nb.i1 as int], ps[nb.i2 as int], cfg)
}

/// Every record of the list is well-formed against the particle array.
pub open spec fn nbs_wf(nbs: Seq<Neighbor>, ps: Seq<Particle>, cfg: SimConfig) -> bool {
    forall|k: int| 0 <= k < nbs.len() ==> nb_ok(#[trigger] nbs[k], ps, cfg)
}

/// Whether the list holds a record for the ordered index pair `(a, b)`.
pub open spec fn has_pair(nbs: Seq<Neighbor>, a: int, b: int) -> bool {
    exists|k: int| 0 <= k < nbs.len() && nbs[k].i1 == a && nbs[k].i2 == b
}

/// The records of particle `i` paired with each in-range partner of index
/// strictly between `i` and `j`, in ascending partner order.
pub open spec fn row_upto(ps: Seq<Particle>, cfg: SimConfig, i: int, j: int) -> Seq<Neighbor>
    decreases j - i,
{
    if j <= i + 1 {
        Seq::empty()
    } else if in_range(ps[i], ps[j - 1], cfg) {
        row_upto(ps, cfg, i, j - 1).push(mk_nb(i, j - 1, ps[i], ps[j - 1], cfg))
    } else {
        row_upto(ps, cfg, i, j - 1)
    }
}

/// The records of all pairs whose first index is below `i`, in the order the
/// exhaustive search emits them.
pub open spec fn all_upto(ps: Seq<Particle>, cfg: SimConfig, i: int) -> Seq<Neighbor>
    decreases i,
{
    if i <= 0 {
        Seq::empty()
    } else {
        all_upto(ps, cfg, i - 1) + row_upto(ps, cfg, i - 1, ps.len() as int)
    }
}

/// The full interacting-pair list of a particle array: one record per
/// unordered in-range pair, smaller index first, lexicographic order.
pub open spec fn nb_seq(ps: Seq<Particle>, cfg: SimConfig) -> Seq<Neighbor> {
    all_upto(ps, cfg, ps.len() as int)
}

proof fn lemma_row_upto_ok(ps: Seq<Particle>, cfg: SimConfig, i: int, j: int)
    requires
        ps.len() <= usize::MAX,
        0 <= i < ps.len(),
        i < j <= ps.len(),
    ensures
        forall|k: int| 0 <= k < row_upto(ps, cfg, i, j).len() ==> {
            let nb = #[trigger] row_upto(ps, cfg, i, j)[k];
            nb.i1 == i && i < nb.i2 < j && nb_ok(nb, ps, cfg)
        },
        forall|b: int|
            i < b < j && in_range(ps[i], ps[b], cfg) ==> has_pair(
                row_upto(ps, cfg, i, j),
                i,
                b,
            ),
    decreases j - i,
{
    if j <= i + 1 {
    } else {
        lemma_row_upto_ok(ps, cfg, i, j - 1);
        let prev = row_upto(ps, cfg, i, j - 1);
        let cur = row_upto(ps, cfg, i, j);
        assert forall|b: int|
            i < b < j && in_range(ps[i], ps[b], cfg) implies has_pair(cur, i, b) by {
            if b == j - 1 {
                let k: int = cur.len() - 1;
                assert(cur[k].i1 == i && cur[k].i2 == b);
            } else {
                assert(has_pair(prev, i, b));
                let k: int = choose|k: int|
                    0 <= k < prev.len() && prev[k].i1 == i && prev[k].i2 == b;
                assert(0 <= k < cur.len() && cur[k].i1 == i && cur[k].i2 == b);
            }
        }
    }
}

proof fn lemma_all_upto_ok(ps: Seq<Particle>, cfg: SimConfig, i: int)
    requires
        ps.len() <= usize::MAX,
        0 <= i <= ps.len(),
    ensures
        forall|k: int| 0 <= k < all_upto(ps, cfg, i).len() ==> {
            let nb = #[trigger] all_upto(ps, cfg, i)[k];
            nb.i1 < i && nb_ok(nb, ps, cfg)
        },
        forall|a: int, b: int|
            0 <= a < i && a < b < ps.len() && in_range(ps[a], ps[b], cfg) ==> has_pair(
                all_upto(ps, cfg, i),
                a,
                b,
            ),
    decreases i,
{
    if i <= 0 {
    } else {
        lemma_all_upto_ok(ps, cfg, i - 1);
        lemma_row_upto_ok(ps, cfg, i - 1, ps.len() as int);
        let prev = all_upto(ps, cfg, i - 1);
        let row = row_upto(ps, cfg, i - 1, ps.len() as int);
        let cur = all_upto(ps, cfg, i);
        assert forall|a: int, b: int|
            0 <= a < i && a < b < ps.len() && in_range(ps[a], ps[b], cfg) implies has_pair(
            cur,
            a,
            b,
        ) by {
            if a == i - 1 {
                assert(has_pair(row, a, b));
                let k: int = choose|k: int|
                    0 <= k < row.len() && row[k].i1 == a && row[k].i2 == b;
                assert(0 <= prev.len() + k < cur.len() && cur[prev.len() + k].i1 == a
                    && cur[prev.len() + k].i2 == b);
            } else {
                assert(has_pair(prev, a, b));
                let k: int = choose|k: int|
                    0 <= k < prev.len() && prev[k].i1 == a && prev[k].i2 == b;
                assert(0 <= k < cur.len() && cur[k].i1 == a && cur[k].i2 == b);
            }
        }
    }
}

/// The exhaustive pair list holds exactly the ordered in-range pairs, and
/// every record in it is well-formed. In particular two particles separated
/// by the interaction radius or more never share a record.
pub proof fn lemma_nb_seq_pairs(ps: Seq<Particle>, cfg: SimConfig)
    requires
        ps.len() <= usize::MAX,
    ensures
        nbs_wf(nb_seq(ps, cfg), ps, cfg),
        forall|a: int, b: int|
            #[trigger] has_pair(nb_seq(ps, cfg), a, b) <==> (0 <= a < b < ps.len()
                && in_range(ps[a], ps[b], cfg)),
{
    lemma_all_upto_ok(ps, cfg, ps.len() as int);
    let nbs = nb_seq(ps, cfg);
    assert forall|a: int, b: int| #[trigger] has_pair(nbs, a, b) implies (0 <= a < b < ps.len()
        && in_range(ps[a], ps[b], cfg)) by {
        let k: int = choose|k: int| 0 <= k < nbs.len() && nbs[k].i1 == a && nbs[k].i2 == b;
        assert(nb_ok(nbs[k], ps, cfg));
    }
}

/// Appending a record keeps every pair already present, and adds its own.
pub proof fn lemma_has_pair_push(nbs: Seq<Neighbor>, e: Neighbor)
    ensures
        forall|a: int, b: int| has_pair(nbs, a, b) ==> #[trigger] has_pair(nbs.push(e), a, b),
        has_pair(nbs.push(e), e.i1 as int, e.i2 as int),
{
    assert forall|a: int, b: int| has_pair(nbs, a, b) implies #[trigger] has_pair(
        nbs.push(e),
        a,
        b,
    ) by {
        let k: int = choose|k: int| 0 <= k < nbs.len() && nbs[k].i1 == a && nbs[k].i2 == b;
        assert(nbs.push(e)[k].i1 == a && nbs.push(e)[k].i2 == b);
    }
    assert(nbs.push(e)[nbs.len() as int] == e);
}

/// A neighbor record depends only on particle positions, so a list that is
/// well-formed against one array stays well-formed against any array with
/// the same positions.
pub proof fn lemma_nbs_wf_same_positions(
    nbs: Seq<Neighbor>,
    ps1: Seq<Particle>,
    ps2: Seq<Particle>,
    cfg: SimConfig,
)
    requires
        nbs_wf(nbs, ps1, cfg),
        ps2.len() == ps1.len(),
        forall|m: int| 0 <= m < ps1.len() ==> (#[trigger] ps2[m]).x == ps1[m].x && ps2[m].y
            == ps1[m].y,
    ensures
        nbs_wf(nbs, ps2, cfg),
{
    assert forall|k: int| 0 <= k < nbs.len() implies nb_ok(#[trigger] nbs[k], ps2, cfg) by {
        assert(nb_ok(nbs[k], ps1, cfg));
        let i1: int = nbs[k].i1 as int;
        let i2: int = nbs[k].i2 as int;
        assert(ps2[i1].x == ps1[i1].x && ps2[i1].y == ps1[i1].y);
        assert(ps2[i2].x == ps1[i2].x && ps2[i2].y == ps1[i2].y);
        assert(dist2(ps2[i1], ps2[i2]) == dist2(ps1[i1], ps1[i2]));
        assert(mk_nb(i1, i2, ps2[i1], ps2[i2], cfg) == mk_nb(i1, i2, ps1[i1], ps1[i2], cfg));
    }
}

/// Field ranges of a record built for an in-range pair of bounded particles:
/// the separation is positive and below the radius, the weight is positive
/// and at most one unit, and the direction components are unit-bounded.
pub proof fn lemma_mk_nb_ranges(i: int, j: int, p1: Particle, p2: Particle, cfg: SimConfig)
    requires
        cfg.valid(),
        p1.bounded(),
        p2.bounded(),
        in_range(p1, p2, cfg),
        0 <= i <= usize::MAX,
        0 <= j <= usize::MAX,
    ensures
        ({
            let nb = mk_nb(i, j, p1, p2, cfg);
            let d: int = isqrt_spec(dist2(p1, p2));
            &&& nb.distance == d
            &&& 1 <= d < cfg.range
            &&& nb.weight == weight_of(d, cfg.range as int)
            &&& 1 <= nb.weight <= SCALE
            &&& nb.nx == div_tz((p1.x - p2.x) * SCALE, d)
            &&& nb.ny == div_tz((p1.y - p2.y) * SCALE, d)
            &&& -SCALE <= nb.nx <= SCALE
            &&& -SCALE <= nb.ny <= SCALE
            &&& nb.i1 == i
            &&& nb.i2 == j
        }),
{
    let d2: int = dist2(p1, p2);
    let d: int = isqrt_spec(d2);
    lemma_isqrt_bounds(d2);
    // the separation is at least one unit and strictly below the radius
    assert(d >= 1) by {
        if d == 0 {
            assert(d2 < (d + 1) * (d + 1));
            assert((d + 1) * (d + 1) == 1) by (nonlinear_arith)
                requires
                    d == 0,
            ;
        }
    }
    assert(d < cfg.range) by (nonlinear_arith)
        requires
            d >= 0,
            d * d <= d2,
            d2 < cfg.range * cfg.range,
            cfg.range > 0,
    ;
    // the weight is in [1, SCALE]
    assert((d * (SCALE as int)) / (cfg.range as int) >= 0) by (nonlinear_arith)
        requires
            d >= 0,
            SCALE as int >= 1,
            cfg.range >= 1,
    ;
    assert((d * (SCALE as int)) / (cfg.range as int) <= (SCALE as int) - 1) by (nonlinear_arith)
        requires
            1 <= d,
            d <= cfg.range - 1,
            SCALE as int >= 1,
            cfg.range >= 1,
    ;
    // the direction components are fractions of SCALE in magnitude
    let dx: int = p1.x - p2.x;
    let dy: int = p1.y - p2.y;
    assert(-d <= dx <= d && -d <= dy <= d) by (nonlinear_arith)
        requires
            dx * dx + dy * dy == d2,
            d2 < (d + 1) * (d + 1),
            d >= 0,
    ;
    assert(-(SCALE as int) <= div_tz(dx * SCALE, d) <= SCALE as int) by (nonlinear_arith)
        requires
            -d <= dx <= d,
            d >= 1,
            SCALE as int >= 1,
    ;
    assert(-(SCALE as int) <= div_tz(dy * SCALE, d) <= SCALE as int) by (nonlinear_arith)
        requires
            -d <= dy <= d,
            d >= 1,
            SCALE as int >= 1,
    ;
}

/// Decide whether two particles interact, exactly as `in_range` states.
pub fn within_range(p1: &Particle, p2: &Particle, cfg: &SimConfig) -> (r: bool)
    requires
        cfg.valid(),
        p1.bounded(),
        p2.bounded(),
    ensures
        r == in_range(*p1, *p2, *cfg),
{
    let dx: i128 = p1.x as i128 - p2.x as i128;
    let dy: i128 = p1.y as i128 - p2.y as i128;
    proof {
        lemma_mul_bound(dx as int, dx as int, 2_000_000_000_000_000);
        lemma_mul_bound(dy as int, dy as int, 2_000_000_000_000_000);
        lemma_mul_le(cfg.range as int, cfg.range as int,
            1_000_000_000_000, 1_000_000_000_000);
    }
    let d2: i128 = dx * dx + dy * dy;
    let r2: i128 = cfg.range as i128 * cfg.range as i128;
    0 < d2 && d2 < r2
}

impl Neighbor {
    /// Build the record for an interacting pair: separation, kernel weight,
    /// and normalized direction, exactly as `mk_nb` states.
    pub fn new(i1: usize, i2: usize, p1: &Particle, p2: &Particle, cfg: &SimConfig) -> (nb:
        Neighbor)
        requires
            cfg.valid(),
            p1.bounded(),
            p2.bounded(),
            in_range(*p1, *p2, *cfg),
            i1 < i2,
        ensures
            nb == mk_nb(i1 as int, i2 as int, *p1, *p2, *cfg),
    {
        proof {
            lemma_mk_nb_ranges(i1 as int, i2 as int, *p1, *p2, *cfg);
        }
        let dx: i128 = p1.x as i128 - p2.x as i128;
        let dy: i128 = p1.y as i128 - p2.y as i128;
        proof {
            lemma_mul_bound(dx as int, dx as int, 2_000_000_000_000_000);
            lemma_mul_bound(dy as int, dy as int, 2_000_000_000_000_000);
        }
        let d2: i128 = dx * dx + dy * dy;
        let dist_u: u64 = isqrt64(d2 as u128);
        let dist: i64 = dist_u as i64;
        proof {
            lemma_mul_le(dist_u as int, SCALE as int, 1_000_000_000_000, 1_000_000);
        }
        let wq: u128 = (dist_u as u128) * (SCALE as u128) / (cfg.range as u128);
        let weight: i64 = SCALE - wq as i64;
        proof {
            lemma_mul_bound(dx as int, SCALE as int, 2_000_000_000_000_000);
            lemma_mul_bound(dy as int, SCALE as int, 2_000_000_000_000_000);
        }
        let nx128: i128 = div_tz128(dx * SCALE as i128, dist as i128);
        let ny128: i128 = div_tz128(dy * SCALE as i128, dist as i128);
        Neighbor {
            i1,
            i2,
            nx: nx128 as i64,
            ny: ny128 as i64,
            distance: dist,
            weight,
        }
    }
}

} // verus!
