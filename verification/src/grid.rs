//! The uniform spatial grid: square cells of side at least the interaction
//! radius, so that every true neighbor of a particle lies in the 3x3 block
//! of cells around it, and the grid-accelerated search finds exactly the
//! pair set of the exhaustive search.

use vstd::prelude::*;
use crate::fixed::{lemma_mul_le};
use crate::config::SimConfig;
use crate::particle::{Particle, all_bounded};
use crate::neighbor::{Neighbor, in_range, nb_ok, nbs_wf, has_pair, within_range};
use vstd::arithmetic::div_mod::{lemma_div_is_ordered, lemma_hoist_over_denominator};

verus! {

/// The grid cell coordinate of a position along one axis: the position
/// divided by the cell size, rounded down, then clamped into the valid
/// cell range so that no particle is ever unindexed.
pub open spec fn cell_coord(x: int, cs: int, n: int) -> int {
    let q: int = x / cs;
    if q < 0 {
        0
    } else if q > n - 1 {
        n - 1
    } else {
        q
    }
}

/// A particle's cell column.
pub open spec fn gcx(p: Particle, cfg: SimConfig) -> int {
    cell_coord(p.x as int, cfg.cell_size as int, cfg.grid_cols as int)
}

/// A particle's cell row.
pub open spec fn gcy(p: Particle, cfg: SimConfig) -> int {
    cell_coord(p.y as int, cfg.cell_size as int, cfg.grid_rows as int)
}

/// A particle's cell slot in the row-major cell array.
pub open spec fn cell_ix(p: Particle, cfg: SimConfig) -> int {
    gcy(p, cfg) * (cfg.grid_cols as int) + gcx(p, cfg)
}

/// The uniform grid: one unordered id list per cell, rebuilt every step.
pub struct SpatialGrid {
    /// Side length of one square cell; at least the interaction radius.
    pub cell_size: i64,
    /// Cells per row.
    pub cols: usize,
    /// Rows of cells.
    pub rows: usize,
    /// Row-major cell array of particle id lists.
    pub cells: Vec<Vec<usize>>,
}

/// A particle with the grid-cell coordinates of its position stored back
/// onto it, as binning leaves it.
pub open spec fn bin_one(p: Particle, cfg: SimConfig) -> Particle {
    Particle { gx: gcx(p, cfg) as usize, gy: gcy(p, cfg) as usize, ..p }
}

/// The whole array rebinned: only the derived cell coordinates change.
pub open spec fn bin_all(ps: Seq<Particle>, cfg: SimConfig) -> Seq<Particle> {
    Seq::new(ps.len(), |i: int| bin_one(ps[i], cfg))
}

/// Compute a clamped cell coordinate, exactly as `cell_coord` states.
pub fn cell_coord_exec(x: i64, cs: i64, n: usize) -> (r: usize)
    requires
        cs >= 1,
        n >= 1,
    ensures
        r as int == cell_coord(x as int, cs as int, n as int),
        r < n,
{
    if x <= 0 {
        proof {
            lemma_div_is_ordered(x as int, 0, cs as int);
            assert(0int / (cs as int) == 0) by (nonlinear_arith)
                requires
                    cs >= 1,
            ;
        }
        0
    } else {
        let q: u64 = (x as u64) / (cs as u64);
        if q > (n - 1) as u64 {
            n - 1
        } else {
            q as usize
        }
    }
}

/// Two positions closer than one cell size land in the same or in adjacent
/// cell coordinates: clamped flooring division moves by at most one cell.
pub proof fn lemma_close_positions_adjacent_cells(x1: int, x2: int, cs: int, n: int)
    requires
        cs >= 1,
        n >= 1,
        -cs < x1 - x2 < cs,
    ensures
        -1 <= cell_coord(x1, cs, n) - cell_coord(x2, cs, n) <= 1,
{
    lemma_div_is_ordered(x1, x2 + cs, cs);
    lemma_div_is_ordered(x2, x1 + cs, cs);
    lemma_hoist_over_denominator(x2, 1, cs as nat);
    lemma_hoist_over_denominator(x1, 1, cs as nat);
    assert(x1 / cs <= x2 / cs + 1);
    assert(x2 / cs <= x1 / cs + 1);
}

/// Two particles within the interaction radius sit in the same or in
/// adjacent cells along both axes: the correctness invariant that lets the
/// search visit only the 3x3 block, guaranteed by `cell_size >= range`.
pub proof fn lemma_in_range_adjacent_cells(p1: Particle, p2: Particle, cfg: SimConfig)
    requires
        cfg.valid(),
        in_range(p1, p2, cfg),
    ensures
        -1 <= gcx(p1, cfg) - gcx(p2, cfg) <= 1,
        -1 <= gcy(p1, cfg) - gcy(p2, cfg) <= 1,
{
    let dx: int = p1.x - p2.x;
    let dy: int = p1.y - p2.y;
    assert(0 <= dx * dx) by (nonlinear_arith);
    assert(0 <= dy * dy) by (nonlinear_arith);
    assert(-cfg.range < dx < cfg.range && -cfg.range < dy < cfg.range) by (nonlinear_arith)
        requires
            dx * dx + dy * dy < cfg.range * cfg.range,
            0 <= dx * dx,
            0 <= dy * dy,
            cfg.range > 0,
    ;
    lemma_close_positions_adjacent_cells(
        p1.x as int,
        p2.x as int,
        cfg.cell_size as int,
        cfg.grid_cols as int,
    );
    lemma_close_positions_adjacent_cells(
        p1.y as int,
        p2.y as int,
        cfg.cell_size as int,
        cfg.grid_rows as int,
    );
}

/// Every clamped cell slot is a valid index into the row-major cell array.
pub proof fn lemma_cell_ix_bounds(p: Particle, cfg: SimConfig)
    requires
        cfg.valid(),
    ensures
        0 <= gcx(p, cfg) < cfg.grid_cols,
        0 <= gcy(p, cfg) < cfg.grid_rows,
        0 <= cell_ix(p, cfg) < cfg.grid_rows * cfg.grid_cols,
{
    assert(0 <= gcy(p, cfg) * (cfg.grid_cols as int) + gcx(p, cfg) < cfg.grid_rows as int
        * cfg.grid_cols as int) by (nonlinear_arith)
        requires
            0 <= gcx(p, cfg) < cfg.grid_cols as int,
            0 <= gcy(p, cfg) < cfg.grid_rows as int,
    ;
}

impl SpatialGrid {
    /// An empty grid shaped by the configuration: `grid_rows * grid_cols`
    /// empty cells of side `cell_size`.
    pub fn new(cfg: &SimConfig) -> (g: SpatialGrid)
        requires
            cfg.valid(),
        ensures
            g.cell_size == cfg.cell_size,
            g.cols == cfg.grid_cols,
            g.rows == cfg.grid_rows,
            g.cells@.len() == cfg.grid_rows * cfg.grid_cols,
            forall|c: int| 0 <= c < g.cells@.len() ==> (#[trigger] g.cells@[c])@.len() == 0,
    {
        proof {
            lemma_mul_le(cfg.grid_rows as int, cfg.grid_cols as int, 32768, 32768);
        }
        let total: usize = cfg.grid_rows * cfg.grid_cols;
        let mut cells: Vec<Vec<usize>> = Vec::new();
        for c in 0..total
            invariant
                cells@.len() == c,
                forall|t: int| 0 <= t < c ==> (#[trigger] cells@[t])@.len() == 0,
        {
            cells.push(Vec::new());
        }
        SpatialGrid { cell_size: cfg.cell_size, cols: cfg.grid_cols, rows: cfg.grid_rows, cells }
    }

    /// Empty every cell's id list, keeping the grid's shape.
    pub fn clear(&mut self)
        ensures
            final(self).cell_size == old(self).cell_size,
            final(self).cols == old(self).cols,
            final(self).rows == old(self).rows,
            final(self).cells@.len() == old(self).cells@.len(),
            forall|c: int| 0 <= c < final(self).cells@.len() ==> (
            #[trigger] final(self).cells@[c])@.len() == 0,
    {
        let total: usize = self.cells.len();
        let mut c: usize = 0;
        while c < total
            invariant
                total == self.cells@.len(),
                c <= total,
                self.cell_size == old(self).cell_size,
                self.cols == old(self).cols,
                self.rows == old(self).rows,
                forall|t: int| 0 <= t < c ==> (#[trigger] self.cells@[t])@.len() == 0,
            decreases total - c,
        {
            self.cells[c] = Vec::new();
            c = c + 1;
        }
    }

    /// Bind one particle id to the cell its position lies in, clamping the
    /// cell coordinates into the grid, and hand the coordinates back.
    pub fn insert(&mut self, id: usize, p: Particle, cfg: &SimConfig) -> (r: (usize, usize))
        requires
            cfg.valid(),
            old(self).cell_size == cfg.cell_size,
            old(self).cols == cfg.grid_cols,
            old(self).rows == cfg.grid_rows,
            old(self).cells@.len() == cfg.grid_rows * cfg.grid_cols,
        ensures
            final(self).cell_size == cfg.cell_size,
            final(self).cols == cfg.grid_cols,
            final(self).rows == cfg.grid_rows,
            final(self).cells@.len() == old(self).cells@.len(),
            r.0 as int == gcx(p, *cfg),
            r.1 as int == gcy(p, *cfg),
            final(self).cells@[cell_ix(p, *cfg)]@ == old(self).cells@[cell_ix(p, *cfg)]@.push(
                id,
            ),
            forall|c: int| 0 <= c < old(self).cells@.len() && c != cell_ix(p, *cfg) ==> (
            #[trigger] final(self).cells@[c])@ == old(self).cells@[c]@,
    {
        let gx: usize = cell_coord_exec(p.x, self.cell_size, self.cols);
        let gy: usize = cell_coord_exec(p.y, self.cell_size, self.rows);
        proof {
            lemma_mul_le(gy as int, self.cols as int, 32767, 32768);
            assert(gy as int * self.cols as int + gx < self.rows as int * self.cols
                as int) by (nonlinear_arith)
                requires
                    gy as int <= self.rows as int - 1,
                    gx < self.cols as int,
                    self.cols >= 1,
                    self.rows >= 1,
            ;
        }
        let idx: usize = gy * self.cols + gx;
        let newc: Vec<usize> = cell_push(&self.cells[idx], id);
        self.cells[idx] = newc;
        (gx, gy)
    }
}

/// Appending to an id list keeps every id already in it, and adds the new.
proof fn lemma_contains_push(s: Seq<usize>, x: usize, y: usize)
    ensures
        s.contains(y) ==> s.push(x).contains(y),
        s.push(x).contains(x),
{
    if s.contains(y) {
        let k: int = choose|k: int| 0 <= k < s.len() && s[k] == y;
        assert(s.push(x)[k] == y);
    }
    assert(s.push(x)[s.len() as int] == x);
}

/// Row-major cell slots decompose uniquely into row and column.
proof fn lemma_cell_slot_unique(a1: int, b1: int, a2: int, b2: int, cols: int)
    requires
        0 <= b1 < cols,
        0 <= b2 < cols,
        0 <= a1,
        0 <= a2,
        a1 * cols + b1 == a2 * cols + b2,
    ensures
        a1 == a2,
        b1 == b2,
{
    assert(a1 == a2 && b1 == b2) by (nonlinear_arith)
        requires
            0 <= b1 < cols,
            0 <= b2 < cols,
            0 <= a1,
            0 <= a2,
            a1 * cols + b1 == a2 * cols + b2,
    ;
}

/// A copy of a cell's id list with one more id at its end.
fn cell_push(cell: &Vec<usize>, id: usize) -> (r: Vec<usize>)
    ensures
        r@ == cell@.push(id),
{
    let mut r: Vec<usize> = Vec::new();
    let n: usize = cell.len();
    for t in 0..n
        invariant
            n == cell@.len(),
            r@ == cell@.subrange(0, t as int),
    {
        r.push(cell[t]);
        proof {
            assert(r@ =~= cell@.subrange(0, t as int + 1));
        }
    }
    proof {
        assert(cell@.subrange(0, n as int) =~= cell@);
    }
    r.push(id);
    r
}

} // verus!

verus! {

/// Grid-accelerated neighbor search: rebin every particle (storing its
/// clamped cell coordinates back onto it), then for each particle test only
/// the ids in the 3x3 block of cells around its own cell, still applying
/// the exact radius test. The recorded pair set is exactly that of the
/// exhaustive search: every in-range, non-coincident unordered pair, once,
/// smaller index first.
pub fn grid_search(ps: &mut Vec<Particle>, cfg: &SimConfig) -> (nbs: Vec<Neighbor>)
    requires
        cfg.valid(),
        all_bounded(old(ps)@),
    ensures
        final(ps)@ == bin_all(old(ps)@, *cfg),
        nbs_wf(nbs@, final(ps)@, *cfg),
        forall|a: int, b: int|
            #[trigger] has_pair(nbs@, a, b) <==> (0 <= a < b < final(ps)@.len() && in_range(
                final(ps)@[a],
                final(ps)@[b],
                *cfg,
            )),
{
    let ghost ps0: Seq<Particle> = ps@;
    let n: usize = ps.len();
    let mut grid: SpatialGrid = SpatialGrid::new(cfg);
    // binning pass: rebind every particle to the cell its position lies in
    for j in 0..n
        invariant
            cfg.valid(),
            all_bounded(ps0),
            n == ps0.len(),
            ps@.len() == n,
            forall|m: int| 0 <= m < j ==> ps@[m] == bin_one(#[trigger] ps0[m], *cfg),
            forall|m: int| j <= m < n ==> ps@[m] == #[trigger] ps0[m],
            grid.cell_size == cfg.cell_size,
            grid.cols == cfg.grid_cols,
            grid.rows == cfg.grid_rows,
            grid.cells@.len() == cfg.grid_rows * cfg.grid_cols,
            forall|c: int, t: int|
                0 <= c < grid.cells@.len() && 0 <= t < (grid.cells@[c])@.len()
                    ==> ((#[trigger] (grid.cells@[c])@[t]) as int) < j && cell_ix(
                    ps0[(grid.cells@[c])@[t] as int],
                    *cfg,
                ) == c,
            forall|e: int|
                0 <= e < j ==> (grid.cells@[cell_ix(#[trigger] ps0[e], *cfg)])@.contains(
                    e as usize,
                ),
    {
        let ghost cells_before: Seq<Vec<usize>> = grid.cells@;
        let p: Particle = ps[j];
        let coords: (usize, usize) = grid.insert(j, p, cfg);
        ps[j] = Particle { gx: coords.0, gy: coords.1, ..p };
        proof {
            let target: int = cell_ix(ps0[j as int], *cfg);
            lemma_cell_ix_bounds(ps0[j as int], *cfg);
            assert forall|e: int|
                0 <= e < j + 1 implies (grid.cells@[cell_ix(
                #[trigger] ps0[e],
                *cfg,
            )])@.contains(e as usize) by {
                let c: int = cell_ix(ps0[e], *cfg);
                lemma_cell_ix_bounds(ps0[e], *cfg);
                if e < j {
                    assert((cells_before[c])@.contains(e as usize));
                    if c == target {
                        lemma_contains_push((cells_before[c])@, j, e as usize);
                    } else {
                        assert((grid.cells@[c])@ == (cells_before[c])@);
                    }
                } else {
                    lemma_contains_push((cells_before[target])@, j, j);
                }
            }
        }
    }
    proof {
        assert(ps@ =~= bin_all(ps0, *cfg));
    }
    // search pass: only the 3x3 block of cells around each particle's cell
    let mut nbs: Vec<Neighbor> = Vec::new();
    let mut i: usize = 0;
    while i < n
        invariant
            cfg.valid(),
            all_bounded(ps0),
            n == ps0.len(),
            ps@ == bin_all(ps0, *cfg),
            grid.cell_size == cfg.cell_size,
            grid.cols == cfg.grid_cols,
            grid.rows == cfg.grid_rows,
            grid.cells@.len() == cfg.grid_rows * cfg.grid_cols,
            forall|c: int, t: int|
                0 <= c < grid.cells@.len() && 0 <= t < (grid.cells@[c])@.len()
                    ==> ((#[trigger] (grid.cells@[c])@[t]) as int) < n && cell_ix(
                    ps0[(grid.cells@[c])@[t] as int],
                    *cfg,
                ) == c,
            forall|e: int|
                0 <= e < n ==> (grid.cells@[cell_ix(#[trigger] ps0[e], *cfg)])@.contains(
                    e as usize,
                ),
            i <= n,
            forall|k: int| 0 <= k < nbs@.len() ==> nb_ok(#[trigger] nbs@[k], ps@, *cfg),
            forall|a: int, b: int|
                0 <= a < i && a < b < n && in_range(ps0[a], ps0[b], *cfg) ==> has_pair(
                    nbs@,
                    a,
                    b,
                ),
        decreases n - i,
    {
        let p_i: Particle = ps[i];
        proof {
            assert(ps@[i as int] == bin_one(ps0[i as int], *cfg));
            assert(p_i.gx as int == gcx(ps0[i as int], *cfg));
            assert(p_i.gy as int == gcy(ps0[i as int], *cfg));
        }
        let gxi: usize = p_i.gx;
        let gyi: usize = p_i.gy;
        let x0: usize = if gxi == 0 { 0 } else { gxi - 1 };
        let x1: usize = if gxi + 1 <= grid.cols - 1 { gxi + 1 } else { grid.cols - 1 };
        let y0: usize = if gyi == 0 { 0 } else { gyi - 1 };
        let y1: usize = if gyi + 1 <= grid.rows - 1 { gyi + 1 } else { grid.rows - 1 };
        let mut cy: usize = y0;
        while cy <= y1
            invariant
                cfg.valid(),
                all_bounded(ps0),
                n == ps0.len(),
                ps@ == bin_all(ps0, *cfg),
                grid.cell_size == cfg.cell_size,
                grid.cols == cfg.grid_cols,
                grid.rows == cfg.grid_rows,
                grid.cells@.len() == cfg.grid_rows * cfg.grid_cols,
                forall|c: int, t: int|
                    0 <= c < grid.cells@.len() && 0 <= t < (grid.cells@[c])@.len()
                        ==> ((#[trigger] (grid.cells@[c])@[t]) as int) < n && cell_ix(
                        ps0[(grid.cells@[c])@[t] as int],
                        *cfg,
                    ) == c,
                forall|e: int|
                    0 <= e < n ==> (grid.cells@[cell_ix(#[trigger] ps0[e], *cfg)])@.contains(
                        e as usize,
                    ),
                i < n,
                p_i == ps@[i as int],
                gxi as int == gcx(ps0[i as int], *cfg),
                gyi as int == gcy(ps0[i as int], *cfg),
                gxi < grid.cols,
                gyi < grid.rows,
                x0 as int == (if gxi as int == 0 { 0int } else { gxi as int - 1 }),
                x1 as int == (if gxi as int + 1 <= grid.cols as int - 1 { gxi as int + 1 } else { grid.cols as int - 1 }),
                y0 as int == (if gyi as int == 0 { 0int } else { gyi as int - 1 }),
                y1 as int == (if gyi as int + 1 <= grid.rows as int - 1 { gyi as int + 1 } else { grid.rows as int - 1 }),
                y0 <= cy,
                cy <= y1 + 1,
                y1 < grid.rows,
                x1 < grid.cols,
                forall|k: int| 0 <= k < nbs@.len() ==> nb_ok(#[trigger] nbs@[k], ps@, *cfg),
                forall|a: int, b: int|
                    0 <= a < i && a < b < n && in_range(ps0[a], ps0[b], *cfg) ==> has_pair(
                        nbs@,
                        a,
                        b,
                    ),
                forall|b: int|
                    i < b < n && in_range(ps0[i as int], #[trigger] ps0[b], *cfg) && x0
                        <= gcx(ps0[b], *cfg) <= x1 && y0 <= gcy(ps0[b], *cfg) < cy
                        ==> has_pair(nbs@, i as int, b),
            decreases y1 + 1 - cy,
        {
            let mut cx: usize = x0;
            while cx <= x1
                invariant
                    cfg.valid(),
                    all_bounded(ps0),
                    n == ps0.len(),
                    ps@ == bin_all(ps0, *cfg),
                    grid.cell_size == cfg.cell_size,
                    grid.cols == cfg.grid_cols,
                    grid.rows == cfg.grid_rows,
                    grid.cells@.len() == cfg.grid_rows * cfg.grid_cols,
                    forall|c: int, t: int|
                        0 <= c < grid.cells@.len() && 0 <= t < (
                        #[trigger] grid.cells@[c])@.len() ==> ((#[trigger] (grid.cells@[c])@[t]) as int)
                            < n && cell_ix(ps0[(grid.cells@[c])@[t] as int], *cfg) == c,
                    forall|e: int|
                        0 <= e < n ==> (grid.cells@[cell_ix(
                            #[trigger] ps0[e],
                            *cfg,
                        )])@.contains(e as usize),
                    i < n,
                    p_i == ps@[i as int],
                    gxi as int == gcx(ps0[i as int], *cfg),
                    gyi as int == gcy(ps0[i as int], *cfg),
                    x0 as int == (if gxi as int == 0 { 0int } else { gxi as int - 1 }),
                    x1 as int == (if gxi as int + 1 <= grid.cols as int - 1 { gxi as int + 1 } else { grid.cols as int - 1 }),
                    x0 <= cx,
                    cx <= x1 + 1,
                    cy <= y1,
                    y0 <= cy,
                    y1 < grid.rows,
                    x1 < grid.cols,
                    forall|k: int| 0 <= k < nbs@.len() ==> nb_ok(#[trigger] nbs@[k], ps@, *cfg),
                    forall|a: int, b: int|
                        0 <= a < i && a < b < n && in_range(ps0[a], ps0[b], *cfg) ==> has_pair(
                            nbs@,
                            a,
                            b,
                        ),
                    forall|b: int|
                        i < b < n && in_range(ps0[i as int], #[trigger] ps0[b], *cfg) && x0
                            <= gcx(ps0[b], *cfg) <= x1 && y0 <= gcy(ps0[b], *cfg) < cy
                            ==> has_pair(nbs@, i as int, b),
                    forall|b: int|
                        i < b < n && in_range(ps0[i as int], #[trigger] ps0[b], *cfg) && x0
                            <= gcx(ps0[b], *cfg) < cx && gcy(ps0[b], *cfg) == cy
                            ==> has_pair(nbs@, i as int, b),
                decreases x1 + 1 - cx,
            {
                proof {
                    crate::fixed::lemma_mul_le(cy as int, grid.cols as int, 32767, 32768);
                    assert(cy as int * grid.cols as int + cx < grid.rows as int
                        * grid.cols as int) by (nonlinear_arith)
                        requires
                            cy as int <= grid.rows as int - 1,
                            cx < grid.cols as int,
                            grid.cols >= 1,
                            grid.rows >= 1,
                    ;
                }
                let idx: usize = cy * grid.cols + cx;
                let clen: usize = grid.cells[idx].len();
                let mut t: usize = 0;
                while t < clen
                    invariant
                        cfg.valid(),
                        all_bounded(ps0),
                        n == ps0.len(),
                        ps@ == bin_all(ps0, *cfg),
                        grid.cell_size == cfg.cell_size,
                        grid.cols == cfg.grid_cols,
                        grid.rows == cfg.grid_rows,
                        grid.cells@.len() == cfg.grid_rows * cfg.grid_cols,
                        forall|c: int, t2: int|
                            0 <= c < grid.cells@.len() && 0 <= t2 < (grid.cells@[c])@.len() ==> ((#[trigger] (grid.cells@[c])@[t2]) as int) < n && cell_ix(ps0[(grid.cells@[c])@[t2] as int], *cfg)
                                == c,
                        forall|e: int|
                            0 <= e < n ==> (grid.cells@[cell_ix(
                                #[trigger] ps0[e],
                                *cfg,
                            )])@.contains(e as usize),
                        i < n,
                        p_i == ps@[i as int],
                        gxi as int == gcx(ps0[i as int], *cfg),
                        gyi as int == gcy(ps0[i as int], *cfg),
                        x0 <= cx <= x1,
                        y0 <= cy <= y1,
                        y1 < grid.rows,
                        x1 < grid.cols,
                        idx as int == cy as int * grid.cols as int + cx as int,
                        idx < grid.cells@.len(),
                        clen == (grid.cells@[idx as int])@.len(),
                        t <= clen,
                        forall|k: int| 0 <= k < nbs@.len() ==> nb_ok(
                            #[trigger] nbs@[k],
                            ps@,
                            *cfg,
                        ),
                        forall|a: int, b: int|
                            0 <= a < i && a < b < n && in_range(ps0[a], ps0[b], *cfg)
                                ==> has_pair(nbs@, a, b),
                        forall|b: int|
                            i < b < n && in_range(ps0[i as int], #[trigger] ps0[b], *cfg) && x0
                                <= gcx(ps0[b], *cfg) <= x1 && y0 <= gcy(ps0[b], *cfg) < cy
                                ==> has_pair(nbs@, i as int, b),
                        forall|b: int|
                            i < b < n && in_range(ps0[i as int], #[trigger] ps0[b], *cfg) && x0
                                <= gcx(ps0[b], *cfg) < cx && gcy(ps0[b], *cfg) == cy
                                ==> has_pair(nbs@, i as int, b),
                        forall|b: int|
                            i < b < n && in_range(ps0[i as int], #[trigger] ps0[b], *cfg)
                                && gcx(ps0[b], *cfg) == cx && gcy(ps0[b], *cfg) == cy && (
                            grid.cells@[idx as int])@.subrange(0, t as int).contains(b as usize)
                                ==> has_pair(nbs@, i as int, b),
                    decreases clen - t,
                {
                    let cell = &grid.cells[idx];
                    let j_id: usize = cell[t];
                    proof {
                        assert(cell_ix(ps0[j_id as int], *cfg) == idx as int);
                        lemma_cell_slot_unique(
                            gcy(ps0[j_id as int], *cfg),
                            gcx(ps0[j_id as int], *cfg),
                            cy as int,
                            cx as int,
                            grid.cols as int,
                        );
                    }
                    let ghost nbs_before: Seq<Neighbor> = nbs@;
                    if j_id > i {
                        let p_j: Particle = ps[j_id];
                        proof {
                            assert(ps@[j_id as int] == bin_one(ps0[j_id as int], *cfg));
                            assert(p_i.bounded() && p_j.bounded()) by {
                                assert(ps0[i as int].bounded());
                                assert(ps0[j_id as int].bounded());
                            }
                        }
                        if within_range(&p_i, &p_j, cfg) {
                            let nb: Neighbor = Neighbor::new(i, j_id, &p_i, &p_j, cfg);
                            proof {
                                crate::neighbor::lemma_has_pair_push(nbs@, nb);
                            }
                            nbs.push(nb);
                        }
                    }
                    proof {
                        assert forall|b: int|
                            i < b < n && in_range(ps0[i as int], #[trigger] ps0[b], *cfg)
                                && gcx(ps0[b], *cfg) == cx && gcy(ps0[b], *cfg) == cy && (
                        grid.cells@[idx as int])@.subrange(0, t as int + 1).contains(
                            b as usize,
                        ) implies has_pair(nbs@, i as int, b) by {
                            let cellv: Seq<usize> = (grid.cells@[idx as int])@;
                            if b == j_id as int {
                                assert(in_range(ps@[i as int], ps@[b], *cfg)) by {
                                    assert(ps@[b] == bin_one(ps0[b], *cfg));
                                }
                                assert(has_pair(nbs@, i as int, b));
                            } else {
                                let s: int = choose|s: int|
                                    0 <= s < t + 1 && #[trigger] cellv.subrange(
                                        0,
                                        t as int + 1,
                                    )[s] == b as usize;
                                assert(cellv.subrange(0, t as int)[s] == b as usize);
                                assert(cellv.subrange(0, t as int).contains(b as usize));
                                assert(has_pair(nbs_before, i as int, b));
                            }
                        }
                    }
                    t = t + 1;
                }
                proof {
                    assert((grid.cells@[idx as int])@.subrange(0, clen as int) =~= (
                    grid.cells@[idx as int])@);
                }
                cx = cx + 1;
            }
            cy = cy + 1;
        }
        proof {
            assert forall|b: int|
                i < b < n && in_range(ps0[i as int], #[trigger] ps0[b], *cfg) implies has_pair(
                nbs@,
                i as int,
                b,
            ) by {
                lemma_in_range_adjacent_cells(ps0[i as int], ps0[b], *cfg);
            }
        }
        i = i + 1;
    }
    proof {
        assert forall|a: int, b: int| #[trigger] has_pair(nbs@, a, b) implies (0 <= a < b
            < ps@.len() && in_range(ps@[a], ps@[b], *cfg)) by {
            let k: int = choose|k: int| 0 <= k < nbs@.len() && nbs@[k].i1 == a && nbs@[k].i2
                == b;
            assert(nb_ok(nbs@[k], ps@, *cfg));
        }
        assert forall|a: int, b: int| (0 <= a < b < ps@.len() && in_range(
            ps@[a],
            ps@[b],
            *cfg,
        )) implies #[trigger] has_pair(nbs@, a, b) by {
            assert(ps@[a] == bin_one(ps0[a], *cfg) && ps@[b] == bin_one(ps0[b], *cfg));
            assert(in_range(ps0[a], ps0[b], *cfg));
        }
    }
    nbs
}

} // verus!
