//! Half-width sentence punctuation that closes CJK text becomes full-width.

use vstd::prelude::*;
use crate::cells::{cell_cjk, cell_of, Cell};
use crate::charset::{
    alnum_like, fullwidth_of, is_alnum_like, is_cjk_kind, is_line_break, is_sentence_mark,
    line_break, no_kind, sentence_mark, to_fullwidth, Kind,
};

verus! {

/// What may follow a converted mark, over any spaces: a line break or a
/// CJK character; after a mark other than the full stop also a letter or
/// digit. A full stop before a letter or digit is part of a name or a
/// number and stays.
pub open spec fn follower_allows(mark: char, next: Cell) -> bool {
    cell_cjk(next) || is_line_break(next.c) || (mark != '.' && is_alnum_like(next.c))
}

/// Whether the character of the cell at `k` is a sentence mark that is
/// converted: it stands directly behind a CJK character, and it is the
/// last character of the text or what follows allows it.
pub open spec fn converts_at(cells: Seq<Cell>, k: int) -> bool {
    &&& 0 < k < cells.len()
    &&& is_sentence_mark(cells[k].c)
    &&& cells[k - 1].gap == 0
    &&& cell_cjk(cells[k - 1])
    &&& (k + 1 == cells.len() || follower_allows(cells[k].c, cells[k + 1]))
}

/// The cell at `k` after the pass: a converted mark stands in its
/// full-width form, without spaces behind it; any other cell is kept.
pub open spec fn fullwidth_cell(cells: Seq<Cell>, k: int) -> Cell {
    if converts_at(cells, k) {
        cell_of(to_fullwidth(cells[k].c), 0, no_kind())
    } else {
        cells[k]
    }
}

/// The cells after the conversion of sentence marks.
pub open spec fn fullwidth_cells(cells: Seq<Cell>) -> Seq<Cell> {
    Seq::new(cells.len(), |k: int| fullwidth_cell(cells, k))
}

/// Converts `, . ! ? : ;` behind a CJK character to their full-width forms.
pub fn fullwidth(cells: &Vec<Cell>) -> (out: Vec<Cell>)
    ensures
        out@ == fullwidth_cells(cells@),
{
    let mut out: Vec<Cell> = Vec::new();
    let mut k: usize = 0;
    while k < cells.len()
        invariant
            k <= cells.len(),
            out@.len() == k,
            forall|j: int| 0 <= j < k ==> out@[j] == fullwidth_cell(cells@, j),
        decreases cells.len() - k,
    {
        let cell = cells[k];
        let mut converted = false;
        if k > 0 && sentence_mark(cell.c) && cells[k - 1].gap == 0 && is_cjk_kind(
            cells[k - 1].c,
            cells[k - 1].kind,
        ) {
            if k + 1 == cells.len() {
                converted = true;
            } else {
                let next = cells[k + 1];
                converted = is_cjk_kind(next.c, next.kind) || line_break(next.c) || (cell.c != '.'
                    && alnum_like(next.c));
            }
        }
        if converted {
            out.push(
                Cell { c: fullwidth_of(cell.c), gap: 0, kind: Kind { script: false, word: false } },
            );
        } else {
            out.push(cell);
        }
        k = k + 1;
    }
    proof {
        assert(out@ =~= fullwidth_cells(cells@));
    }
    out
}

} // verus!
