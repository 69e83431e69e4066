//! The multiplexed display drive: one render pass over the 5x5 grid.
//!
//! A pass walks the grid row-major and, for each lit cell only, pulses
//! the single row/column intersection: row line active, column line
//! active, row line inactive, column line inactive, in that order.  The
//! pass computes the plan of pulses; the embedding shell performs the
//! line writes, ignoring individual write faults.  Each lit cell is
//! pulsed individually and sequentially, so apparent brightness depends
//! entirely on how often the main loop re-invokes the pass.
//!
//! A pass has no explicit off-state restoration step of its own; a line
//! is only ever set by a pulse that touches it.  The line-level model
//! at the end of this module settles what that leaves behind: each
//! pulse drives both of its lines back to their resting level before
//! the next cell, so a pass started from rest returns every line to
//! rest, and a line no pulse touches is never written at all.

use vstd::prelude::*;
use crate::bitmap::Bitmap;
use crate::bitmap::spec_grid_cells;
use crate::bitmap::spec_grid_side;

verus! {

/// One activate/deactivate pulse of a single row/column intersection.
#[derive(Clone, Copy, PartialEq, Eq, Structural, Debug)]
pub struct Pulse {
    pub row: usize,
    pub col: usize,
}

/// A pulse as the specifications see it: its (row, column) pair.
pub open spec fn pulse_pair(p: Pulse) -> (int, int) {
    (p.row as int, p.col as int)
}

/// A whole plan as the specifications see it.
pub open spec fn plan_pairs(ps: Seq<Pulse>) -> Seq<(int, int)> {
    ps.map_values(|p: Pulse| pulse_pair(p))
}

/// The row-major position of a grid cell.
pub open spec fn cell_index(p: (int, int)) -> int {
    p.0 * spec_grid_side() + p.1
}

/// The pulses that row `row` of the grid contributes for its first
/// `col` columns: one pulse per lit cell, in column order.
pub open spec fn row_plan_upto(cells: Seq<bool>, row: int, col: int) -> Seq<(int, int)>
    decreases col,
{
    if col <= 0 {
        Seq::empty()
    } else {
        row_plan_upto(cells, row, col - 1) + (if cells[row * spec_grid_side() + (col - 1)] {
            seq![(row, col - 1)]
        } else {
            Seq::<(int, int)>::empty()
        })
    }
}

/// The pulses that the first `row` full rows of the grid contribute.
pub open spec fn plan_upto_row(cells: Seq<bool>, row: int) -> Seq<(int, int)>
    decreases row,
{
    if row <= 0 {
        Seq::empty()
    } else {
        plan_upto_row(cells, row - 1) + row_plan_upto(cells, row - 1, spec_grid_side())
    }
}

/// The full plan of one render pass: the lit cells of the grid in
/// row-major order.
pub open spec fn render_plan_spec(cells: Seq<bool>) -> Seq<(int, int)> {
    plan_upto_row(cells, spec_grid_side())
}

/// Computes the plan of one render pass over `bm`: one pulse per lit
/// cell, row-major, and nothing for unlit cells.
pub fn render_plan(bm: &Bitmap) -> (plan: Vec<Pulse>)
    ensures
        plan_pairs(plan@) == render_plan_spec(bm.cells()),
{
    proof {
        bm.lemma_cell_count();
    }
    let mut plan: Vec<Pulse> = Vec::new();
    let mut row: usize = 0;
    while row < 5
        invariant
            row <= 5,
            bm.cells().len() == spec_grid_cells(),
            plan_pairs(plan@) == plan_upto_row(bm.cells(), row as int),
        decreases 5 - row,
    {
        let mut col: usize = 0;
        while col < 5
            invariant
                row < 5,
                col <= 5,
                bm.cells().len() == spec_grid_cells(),
                plan_pairs(plan@) == plan_upto_row(bm.cells(), row as int)
                    + row_plan_upto(bm.cells(), row as int, col as int),
            decreases 5 - col,
        {
            if bm.lit(row, col) {
                let ghost before = plan_pairs(plan@);
                plan.push(Pulse { row, col });
                proof {
                    assert(plan_pairs(plan@) =~= before.push((row as int, col as int)));
                    assert(plan_pairs(plan@) =~= plan_upto_row(bm.cells(), row as int)
                        + row_plan_upto(bm.cells(), row as int, col as int + 1));
                }
            } else {
                proof {
                    assert(plan_pairs(plan@) =~= plan_upto_row(bm.cells(), row as int)
                        + row_plan_upto(bm.cells(), row as int, col as int + 1));
                }
            }
            col = col + 1;
        }
        proof {
            assert(plan_pairs(plan@) =~= plan_upto_row(bm.cells(), row as int + 1));
        }
        row = row + 1;
    }
    plan
}

/// Every pulse of the plan addresses a grid cell that is lit.
pub open spec fn plan_hits_lit_cells_only(cells: Seq<bool>, ps: Seq<(int, int)>) -> bool {
    forall|k: int|
        0 <= k < ps.len() ==> {
            let p = #[trigger] ps[k];
            0 <= p.0 < spec_grid_side() && 0 <= p.1 < spec_grid_side() && cells[cell_index(p)]
        }
}

/// The pulses come in strictly increasing row-major position, so no
/// cell is pulsed twice in one pass.
pub open spec fn plan_is_row_major(ps: Seq<(int, int)>) -> bool {
    forall|k1: int, k2: int|
        0 <= k1 < k2 < ps.len() ==> cell_index(#[trigger] ps[k1]) < cell_index(
            #[trigger] ps[k2],
        )
}

/// Every lit cell of the first `rows` rows gets a pulse.
pub open spec fn plan_covers_lit_cells(cells: Seq<bool>, ps: Seq<(int, int)>, rows: int) -> bool {
    forall|r: int, c: int|
        0 <= r < rows && 0 <= c < spec_grid_side() && cells[r * spec_grid_side() + c]
            ==> #[trigger] ps.contains((r, c))
}

/// Shape of one row's contribution to the plan: pulses of that row
/// only, columns strictly increasing and below `col`, lit cells
/// exactly.
proof fn lemma_row_plan_props(cells: Seq<bool>, row: int, col: int)
    requires
        cells.len() == spec_grid_cells(),
        0 <= row < spec_grid_side(),
        0 <= col <= spec_grid_side(),
    ensures
        forall|k: int|
            0 <= k < row_plan_upto(cells, row, col).len() ==> {
                let p = #[trigger] row_plan_upto(cells, row, col)[k];
                p.0 == row && 0 <= p.1 < col && cells[cell_index(p)]
            },
        forall|k1: int, k2: int|
            0 <= k1 < k2 < row_plan_upto(cells, row, col).len()
                ==> (#[trigger] row_plan_upto(cells, row, col)[k1]).1 < (#[trigger] row_plan_upto(
                cells,
                row,
                col,
            )[k2]).1,
        forall|c: int|
            0 <= c < col && cells[row * spec_grid_side() + c] ==> #[trigger] row_plan_upto(
                cells,
                row,
                col,
            ).contains((row, c)),
    decreases col,
{
    if col > 0 {
        lemma_row_plan_props(cells, row, col - 1);
        let prev = row_plan_upto(cells, row, col - 1);
        let cur = row_plan_upto(cells, row, col);
        if cells[row * spec_grid_side() + (col - 1)] {
            assert(cur =~= prev.push((row, col - 1)));
            assert forall|c: int|
                0 <= c < col && cells[row * spec_grid_side() + c] implies cur.contains(
                (row, c),
            ) by {
                if c < col - 1 {
                    assert(row_plan_upto(cells, row, col - 1).contains((row, c)));
                    let k = choose|k: int| 0 <= k < prev.len() && prev[k] == (row, c);
                    assert(cur[k] == (row, c));
                } else {
                    assert(cur[cur.len() - 1] == (row, c));
                }
            }
        } else {
            assert(cur =~= prev);
            assert forall|c: int|
                0 <= c < col && cells[row * spec_grid_side() + c] implies cur.contains(
                (row, c),
            ) by {
                assert(row_plan_upto(cells, row, col - 1).contains((row, c)));
                let k = choose|k: int| 0 <= k < prev.len() && prev[k] == (row, c);
                assert(cur[k] == (row, c));
            }
        }
    }
}

/// Shape of the plan of the first `row` rows: entries lie in earlier
/// rows, are lit, come in strictly increasing row-major position, and
/// cover every lit cell of those rows.
proof fn lemma_plan_upto_row_props(cells: Seq<bool>, row: int)
    requires
        cells.len() == spec_grid_cells(),
        0 <= row <= spec_grid_side(),
    ensures
        forall|k: int|
            0 <= k < plan_upto_row(cells, row).len() ==> {
                let p = #[trigger] plan_upto_row(cells, row)[k];
                0 <= p.0 < row && 0 <= p.1 < spec_grid_side() && cells[cell_index(p)]
            },
        plan_is_row_major(plan_upto_row(cells, row)),
        plan_covers_lit_cells(cells, plan_upto_row(cells, row), row),
    decreases row,
{
    if row > 0 {
        lemma_plan_upto_row_props(cells, row - 1);
        lemma_row_plan_props(cells, row - 1, spec_grid_side());
        let prev = plan_upto_row(cells, row - 1);
        let tail = row_plan_upto(cells, row - 1, spec_grid_side());
        let cur = plan_upto_row(cells, row);
        assert(cur =~= prev + tail);
        assert forall|k: int| 0 <= k < cur.len() implies {
            let p = #[trigger] cur[k];
            0 <= p.0 < row && 0 <= p.1 < spec_grid_side() && cells[cell_index(p)]
        } by {
            if k < prev.len() {
                assert(cur[k] == prev[k]);
            } else {
                assert(cur[k] == tail[k - prev.len()]);
            }
        }
        assert forall|k1: int, k2: int|
            0 <= k1 < k2 < cur.len() implies cell_index(cur[k1]) < cell_index(cur[k2]) by {
            if k2 < prev.len() {
                assert(plan_is_row_major(prev));
                assert(cell_index(prev[k1]) < cell_index(prev[k2]));
            } else if k1 >= prev.len() {
                let p1 = tail[k1 - prev.len()];
                let p2 = tail[k2 - prev.len()];
                assert(p1.1 < p2.1);
                assert(p1.0 == row - 1 && p2.0 == row - 1);
            } else {
                let p1 = prev[k1];
                let p2 = tail[k2 - prev.len()];
                assert(p1.0 <= row - 2);
                assert(cell_index(p1) <= (row - 2) * spec_grid_side() + p1.1);
                assert(p2.0 == row - 1);
            }
        }
        assert forall|r: int, c: int|
            0 <= r < row && 0 <= c < spec_grid_side() && cells[r * spec_grid_side() + c]
            implies cur.contains((r, c)) by {
            if r < row - 1 {
                assert(plan_covers_lit_cells(cells, prev, row - 1));
                assert(prev.contains((r, c)));
                let k = choose|k: int| 0 <= k < prev.len() && prev[k] == (r, c);
                assert(cur[k] == (r, c));
            } else {
                assert(tail.contains((r, c)));
                let k = choose|k: int| 0 <= k < tail.len() && tail[k] == (r, c);
                assert(cur[prev.len() + k] == (r, c));
            }
        }
    }
}

/// One render pass visits the grid in row-major order and pulses
/// exactly the lit cells: every pulse addresses a lit cell, positions
/// strictly increase (so no cell is pulsed twice), and every lit cell
/// is pulsed once.  Unlit cells receive no write at all.
pub proof fn lemma_render_plan_row_major(cells: Seq<bool>)
    requires
        cells.len() == spec_grid_cells(),
    ensures
        plan_hits_lit_cells_only(cells, render_plan_spec(cells)),
        plan_is_row_major(render_plan_spec(cells)),
        plan_covers_lit_cells(cells, render_plan_spec(cells), spec_grid_side()),
{
    lemma_plan_upto_row_props(cells, spec_grid_side());
}

/// One write to a single output line during a pulse.  Rows rest low and
/// are driven high when active; columns rest high and are driven low
/// when active.
#[derive(Clone, Copy, PartialEq, Eq, Structural, Debug)]
pub enum LineOp {
    /// Drive row line `row` high (active).
    RowActive { row: usize },
    /// Drive column line `col` low (active).
    ColActive { col: usize },
    /// Drive row line `row` low (inactive).
    RowInactive { row: usize },
    /// Drive column line `col` high (inactive).
    ColInactive { col: usize },
}

/// The four line writes of one pulse, in their fixed order: energize
/// the intersection, then release it, row first both times.
pub open spec fn pulse_ops_spec(p: Pulse) -> Seq<LineOp> {
    seq![
        (LineOp::RowActive { row: p.row }),
        (LineOp::ColActive { col: p.col }),
        (LineOp::RowInactive { row: p.row }),
        (LineOp::ColInactive { col: p.col }),
    ]
}

/// Computes the four line writes of one pulse, in their fixed order.
pub fn pulse_ops(p: &Pulse) -> (ops: Vec<LineOp>)
    ensures
        ops@ == pulse_ops_spec(*p),
{
    let mut ops: Vec<LineOp> = Vec::new();
    ops.push(LineOp::RowActive { row: p.row });
    ops.push(LineOp::ColActive { col: p.col });
    ops.push(LineOp::RowInactive { row: p.row });
    ops.push(LineOp::ColInactive { col: p.col });
    proof {
        assert(ops@ =~= pulse_ops_spec(*p));
    }
    ops
}

/// The row line levels after one write: `true` is high.
pub open spec fn rows_after_op(rows: Seq<bool>, op: LineOp) -> Seq<bool> {
    match op {
        LineOp::RowActive { row } => rows.update(row as int, true),
        LineOp::RowInactive { row } => rows.update(row as int, false),
        LineOp::ColActive { .. } => rows,
        LineOp::ColInactive { .. } => rows,
    }
}

/// The column line levels after one write: `true` is high.
pub open spec fn cols_after_op(cols: Seq<bool>, op: LineOp) -> Seq<bool> {
    match op {
        LineOp::ColActive { col } => cols.update(col as int, false),
        LineOp::ColInactive { col } => cols.update(col as int, true),
        LineOp::RowActive { .. } => cols,
        LineOp::RowInactive { .. } => cols,
    }
}

/// The row line levels after a list of writes, applied in order.
pub open spec fn rows_after(rows: Seq<bool>, ops: Seq<LineOp>) -> Seq<bool>
    decreases ops.len(),
{
    if ops.len() == 0 {
        rows
    } else {
        rows_after_op(rows_after(rows, ops.drop_last()), ops.last())
    }
}

/// The column line levels after a list of writes, applied in order.
pub open spec fn cols_after(cols: Seq<bool>, ops: Seq<LineOp>) -> Seq<bool>
    decreases ops.len(),
{
    if ops.len() == 0 {
        cols
    } else {
        cols_after_op(cols_after(cols, ops.drop_last()), ops.last())
    }
}

/// All row lines at their resting level: low.
pub open spec fn rows_at_rest(rows: Seq<bool>) -> bool {
    forall|i: int| 0 <= i < rows.len() ==> !(#[trigger] rows[i])
}

/// All column lines at their resting level: high.
pub open spec fn cols_at_rest(cols: Seq<bool>) -> bool {
    forall|i: int| 0 <= i < cols.len() ==> #[trigger] cols[i]
}

/// One pulse leaves both of its lines at their resting level — the row
/// ends low, the column ends high — and writes no other line.
pub proof fn lemma_pulse_restores_rest(rows: Seq<bool>, cols: Seq<bool>, p: Pulse)
    requires
        p.row < rows.len(),
        p.col < cols.len(),
    ensures
        rows_after(rows, pulse_ops_spec(p)) == rows.update(p.row as int, false),
        cols_after(cols, pulse_ops_spec(p)) == cols.update(p.col as int, true),
{
    reveal_with_fuel(rows_after, 5);
    reveal_with_fuel(cols_after, 5);
    let ops = pulse_ops_spec(p);
    assert(ops.drop_last() =~= seq![
        (LineOp::RowActive { row: p.row }),
        (LineOp::ColActive { col: p.col }),
        (LineOp::RowInactive { row: p.row }),
    ]);
    assert(ops.drop_last().drop_last() =~= seq![
        (LineOp::RowActive { row: p.row }),
        (LineOp::ColActive { col: p.col }),
    ]);
    assert(ops.drop_last().drop_last().drop_last() =~= seq![
        (LineOp::RowActive { row: p.row }),
    ]);
    assert(seq![(LineOp::RowActive { row: p.row })].drop_last() =~= Seq::<LineOp>::empty());
    assert(rows_after(rows, ops) =~= rows.update(p.row as int, false));
    assert(cols_after(cols, ops) =~= cols.update(p.col as int, true));
}

/// The line writes of a whole pass: the pulses of the plan, in order,
/// each expanded to its four writes.
pub open spec fn pass_ops(plan: Seq<Pulse>) -> Seq<LineOp>
    decreases plan.len(),
{
    if plan.len() == 0 {
        Seq::empty()
    } else {
        pass_ops(plan.drop_last()) + pulse_ops_spec(plan.last())
    }
}

/// Row levels distribute over concatenated write lists.
proof fn lemma_rows_after_concat(rows: Seq<bool>, a: Seq<LineOp>, b: Seq<LineOp>)
    ensures
        rows_after(rows, a + b) == rows_after(rows_after(rows, a), b),
    decreases b.len(),
{
    if b.len() == 0 {
        assert(a + b =~= a);
    } else {
        lemma_rows_after_concat(rows, a, b.drop_last());
        assert((a + b).drop_last() =~= a + b.drop_last());
    }
}

/// Column levels distribute over concatenated write lists.
proof fn lemma_cols_after_concat(cols: Seq<bool>, a: Seq<LineOp>, b: Seq<LineOp>)
    ensures
        cols_after(cols, a + b) == cols_after(cols_after(cols, a), b),
    decreases b.len(),
{
    if b.len() == 0 {
        assert(a + b =~= a);
    } else {
        lemma_cols_after_concat(cols, a, b.drop_last());
        assert((a + b).drop_last() =~= a + b.drop_last());
    }
}

/// A complete pass started from the resting levels returns every line
/// to rest: each pulse drives both of its lines back inactive before
/// the next cell, and a line no pulse touches is never written.  A
/// pass therefore leaves no line at an active level behind.
pub proof fn lemma_pass_preserves_rest(rows: Seq<bool>, cols: Seq<bool>, plan: Seq<Pulse>)
    requires
        rows_at_rest(rows),
        cols_at_rest(cols),
        forall|k: int|
            0 <= k < plan.len() ==> (#[trigger] plan[k]).row < rows.len() && plan[k].col
                < cols.len(),
    ensures
        rows_after(rows, pass_ops(plan)) == rows,
        cols_after(cols, pass_ops(plan)) == cols,
    decreases plan.len(),
{
    if plan.len() > 0 {
        let prefix = plan.drop_last();
        let p = plan.last();
        assert forall|k: int|
            0 <= k < prefix.len() implies (#[trigger] prefix[k]).row < rows.len() && prefix[k].col
            < cols.len() by {
            assert(prefix[k] == plan[k]);
        }
        lemma_pass_preserves_rest(rows, cols, prefix);
        lemma_rows_after_concat(rows, pass_ops(prefix), pulse_ops_spec(p));
        lemma_cols_after_concat(cols, pass_ops(prefix), pulse_ops_spec(p));
        assert(plan[plan.len() - 1] == p);
        lemma_pulse_restores_rest(rows, cols, p);
        assert(rows.update(p.row as int, false) =~= rows);
        assert(cols.update(p.col as int, true) =~= cols);
    }
}

} // verus!
