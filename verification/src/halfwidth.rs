//! Full-width digits and Latin letters become half-width.

use vstd::prelude::*;
use crate::cells::{cell_of, Cell};
use crate::charset::{fullwidth_alnum, halfwidth_of, is_fullwidth_alnum, no_kind, to_halfwidth, Kind};

verus! {

/// The cell at `k` after the pass: a full-width digit or letter stands in
/// its half-width form; any other cell is kept.
pub open spec fn halfwidth_cell(cells: Seq<Cell>, k: int) -> Cell {
    if is_fullwidth_alnum(cells[k].c) {
        cell_of(to_halfwidth(cells[k].c), cells[k].gap, no_kind())
    } else {
        cells[k]
    }
}

/// The cells with every full-width digit and Latin letter replaced by its
/// half-width counterpart.
pub open spec fn halfwidth_cells(cells: Seq<Cell>) -> Seq<Cell> {
    Seq::new(cells.len(), |k: int| halfwidth_cell(cells, k))
}

/// Replaces full-width digits and Latin letters by their half-width
/// counterparts.
pub fn halfwidth(cells: &Vec<Cell>) -> (out: Vec<Cell>)
    ensures
        out@ == halfwidth_cells(cells@),
{
    let mut out: Vec<Cell> = Vec::new();
    let mut k: usize = 0;
    while k < cells.len()
        invariant
            k <= cells.len(),
            out@.len() == k,
            forall|j: int| 0 <= j < k ==> out@[j] == halfwidth_cell(cells@, j),
        decreases cells.len() - k,
    {
        let cell = cells[k];
        if fullwidth_alnum(cell.c) {
            out.push(
                Cell {
                    c: halfwidth_of(cell.c),
                    gap: cell.gap,
                    kind: Kind { script: false, word: false },
                },
            );
        } else {
            out.push(cell);
        }
        k = k + 1;
    }
    proof {
        assert(out@ =~= halfwidth_cells(cells@));
    }
    out
}

} // verus!
