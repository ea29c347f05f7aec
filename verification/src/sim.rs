//! Step-driver helpers: building the broad-phase grid for an arena and
//! registering every participant into it.
//!
//! The grid is rebuilt every simulation step: construct, populate, query,
//! discard.  It holds integer handles (positions in the step's
//! participant list), never the participants themselves.

use vstd::prelude::*;
use vstd::arithmetic::div_mod::lemma_div_nonincreasing;
use crate::grid::{in_cell_block, Grid};
use crate::traits::{
    lemma_grid_item_sides_in_range, spec_aabb, spec_div_clamp, GridItem, Sides,
};
use crate::ENTITY_LIMIT;

verus! {

/// The inclusive row range of the cells an item registers into: the rows
/// of its bounding box, unexpanded.
pub open spec fn spec_item_rows(it: GridItem, spacing: int) -> (int, int) {
    let bb = spec_aabb(it.spec_top(), it.spec_right(), it.spec_bottom(), it.spec_left());
    (spec_div_clamp(bb.start.y as int, spacing), spec_div_clamp(bb.end.y as int, spacing))
}

/// The inclusive column range of the cells an item registers into.
pub open spec fn spec_item_cols(it: GridItem, spacing: int) -> (int, int) {
    let bb = spec_aabb(it.spec_top(), it.spec_right(), it.spec_bottom(), it.spec_left());
    (spec_div_clamp(bb.start.x as int, spacing), spec_div_clamp(bb.end.x as int, spacing))
}

/// Whether registering item `h` of the list reaches the cell `(r, c)`:
/// the item's cell block fits the grid and covers the cell.  A block
/// that sticks out of the grid is not registered at all.
pub open spec fn item_covers(g: Grid, items: Seq<GridItem>, h: int, r: int, c: int) -> bool {
    let rows = spec_item_rows(items[h], g.spacing as int);
    let cols = spec_item_cols(items[h], g.spacing as int);
    &&& g.block_in_bounds(rows.0, rows.1, cols.0, cols.1)
    &&& in_cell_block(rows.0, rows.1, cols.0, cols.1, r, c)
}

/// The handles among the first `upto` items that register into the cell
/// `(r, c)`, in insertion order.
pub open spec fn inserted_handles(
    g: Grid,
    items: Seq<GridItem>,
    upto: int,
    r: int,
    c: int,
) -> Seq<usize>
    decreases upto,
{
    if upto <= 0 {
        Seq::empty()
    } else {
        let pre = inserted_handles(g, items, upto - 1, r, c);
        if item_covers(g, items, upto - 1, r, c) {
            pre.push((upto - 1) as usize)
        } else {
            pre
        }
    }
}

/// Registers every participant into the grid under its handle (its
/// position in the list), each into all cells its bounding box overlaps.
/// A participant whose cell block sticks out of the grid is skipped, as
/// the range insertion refuses it.
pub fn insert_items(grid: &mut Grid, items: &Vec<GridItem>)
    requires
        old(grid).wf(),
        1 <= old(grid).spacing,
        forall|k: int| 0 <= k < items@.len() ==> (#[trigger] items@[k]).wf(),
    ensures
        final(grid).wf(),
        final(grid).same_shape(old(grid)),
        forall|r: int, c: int|
            old(grid).in_bounds(r, c) ==> #[trigger] final(grid).cell_seq(r, c) == old(
                grid,
            ).cell_seq(r, c) + inserted_handles(*old(grid), items@, items@.len() as int, r, c),
{
    let mut i: usize = 0;
    while i < items.len()
        invariant
            0 <= i <= items@.len(),
            grid.wf(),
            grid.same_shape(old(grid)),
            1 <= old(grid).spacing,
            forall|k: int| 0 <= k < items@.len() ==> (#[trigger] items@[k]).wf(),
            forall|r: int, c: int|
                old(grid).in_bounds(r, c) ==> #[trigger] grid.cell_seq(r, c) == old(
                    grid,
                ).cell_seq(r, c) + inserted_handles(*old(grid), items@, i as int, r, c),
        decreases items@.len() - i,
    {
        let it = &items[i];
        proof {
            lemma_grid_item_sides_in_range(items@[i as int]);
        }
        let ranges = it.calculate_grid_ranges(grid.spacing);
        let ghost prev = *grid;
        let _ = grid.set_many(i, ranges.0, ranges.1);
        proof {
            let gr = spec_item_rows(items@[i as int], old(grid).spacing as int);
            let gc = spec_item_cols(items@[i as int], old(grid).spacing as int);
            assert(ranges.0.0.0 == gr.0 && ranges.0.1.0 == gr.1);
            assert(ranges.1.0.0 == gc.0 && ranges.1.1.0 == gc.1);
            assert forall|r: int, c: int| old(grid).in_bounds(r, c) implies #[trigger] grid.cell_seq(
                r,
                c,
            ) == old(grid).cell_seq(r, c) + inserted_handles(
                *old(grid),
                items@,
                i + 1,
                r,
                c,
            ) by {
                let pre = inserted_handles(*old(grid), items@, i as int, r, c);
                assert(prev.cell_seq(r, c) == old(grid).cell_seq(r, c) + pre);
                assert(inserted_handles(*old(grid), items@, i + 1, r, c) == (
                if item_covers(*old(grid), items@, i as int, r, c) {
                    pre.push(i)
                } else {
                    pre
                }));
                if item_covers(*old(grid), items@, i as int, r, c) {
                    assert(grid.cell_seq(r, c) == prev.cell_seq(r, c).push(i));
                    assert((old(grid).cell_seq(r, c) + pre).push(i) =~= old(grid).cell_seq(r, c)
                        + pre.push(i));
                } else {
                    assert(grid.cell_seq(r, c) == prev.cell_seq(r, c));
                }
            }
        }
        i += 1;
    }
}

/// Builds the empty broad-phase grid for an arena of the given size,
/// with square cells of twice the body size.  Misconfiguration — a
/// non-positive or oversized dimension, a dimension the cell size does
/// not evenly divide, or a cell count beyond the machine — is a fatal
/// setup error reported as `None`; no grid exists then and no simulation
/// step can run.
pub fn build_grid(block_size: i64, window_width: i64, window_height: i64) -> (g: Option<Grid>)
    ensures
        g is Some <==> ({
            &&& 1 <= block_size <= ENTITY_LIMIT
            &&& 0 < window_width <= ENTITY_LIMIT
            &&& 0 < window_height <= ENTITY_LIMIT
            &&& (window_width as int) % (2 * (block_size as int)) == 0
            &&& (window_height as int) % (2 * (block_size as int)) == 0
            &&& ((window_height as int) / (2 * (block_size as int))) * ((window_width as int) / (2
                * (block_size as int))) <= usize::MAX
        }),
        g matches Some(grid) ==> {
            &&& grid.wf()
            &&& grid.rows == (window_height as int) / (2 * (block_size as int))
            &&& grid.cols == (window_width as int) / (2 * (block_size as int))
            &&& grid.spacing == 2 * block_size
            &&& forall|r: int, c: int|
                grid.in_bounds(r, c) ==> #[trigger] grid.cell_seq(r, c) == Seq::<usize>::empty()
        },
{
    if !(1 <= block_size && block_size <= ENTITY_LIMIT && 0 < window_width && window_width
        <= ENTITY_LIMIT && 0 < window_height && window_height <= ENTITY_LIMIT) {
        return None;
    }
    let spacing: i64 = 2 * block_size;
    let ww: u64 = window_width as u64;
    let hh: u64 = window_height as u64;
    let sp: u64 = spacing as u64;
    if ww % sp != 0 || hh % sp != 0 {
        return None;
    }
    let rows64: u64 = hh / sp;
    let cols64: u64 = ww / sp;
    proof {
        lemma_div_nonincreasing(hh as int, sp as int);
        lemma_div_nonincreasing(ww as int, sp as int);
    }
    let rows: usize = rows64 as usize;
    let cols: usize = cols64 as usize;
    match rows.checked_mul(cols) {
        Some(_) => Some(Grid::new(rows, cols, spacing)),
        None => None,
    }
}

} // verus!
