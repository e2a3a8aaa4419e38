//! The plain-text engine: punctuation width, the spacing rules, dashes
//! between CJK text, and brackets without stray spaces.

use vstd::prelude::*;
use crate::cells::{
    cell_cjk, cell_of, parse, parse_text, render, render_text, Cell, Cells, Layout,
};
use crate::charset::{
    classify, close_bracket, is_cjk_kind, is_close_bracket, is_open_bracket, kinds_of,
    open_bracket, Kind,
};
use crate::fullwidth::{fullwidth, fullwidth_cells};
use crate::halfwidth::{halfwidth, halfwidth_cells};
use crate::scan::{any_cjk, range_has_cjk};
use crate::strategery::{apply, apply_spec, strategies, strategies_spec};
use crate::text::{to_chars, to_string};
use crate::unicode::Classes;

verus! {

/// What may stand before a dash that gets spaces: a CJK character, a
/// full-width closing bracket or a closing quote.
pub open spec fn is_dash_left(cell: Cell) -> bool {
    cell_cjk(cell) || is_close_bracket(cell.c) || cell.c == '”' || cell.c == '’'
}

/// What may stand behind a dash that gets spaces: a CJK character, a
/// full-width opening bracket or an opening quote.
pub open spec fn is_dash_right(cell: Cell) -> bool {
    cell_cjk(cell) || is_open_bracket(cell.c) || cell.c == '“' || cell.c == '‘'
}

/// The last dash of the run of dashes that holds the dash at `j`: the run
/// goes on while a dash is directly followed by another.
pub open spec fn last_dash(cells: Seq<Cell>, j: int) -> int
    decreases cells.len() - j,
{
    if 0 <= j && j + 1 < cells.len() && cells[j].gap == 0 && cells[j + 1].c == '-' {
        last_dash(cells, j + 1)
    } else {
        j
    }
}

/// The first dash of the run of dashes that holds the dash at `j`.
pub open spec fn first_dash(cells: Seq<Cell>, j: int) -> int
    decreases j,
{
    if 0 < j < cells.len() && cells[j - 1].gap == 0 && cells[j - 1].c == '-' {
        first_dash(cells, j - 1)
    } else {
        j
    }
}

/// Whether the cell at `k` stands before a run of dashes between CJK text:
/// its character may stand before a dash, the next character starts a run
/// of dashes, and the character behind the run may stand behind a dash.
pub open spec fn before_run(cells: Seq<Cell>, k: int) -> bool {
    &&& 0 <= k
    &&& k + 1 < cells.len()
    &&& is_dash_left(cells[k])
    &&& cells[k + 1].c == '-'
    &&& last_dash(cells, k + 1) + 1 < cells.len()
    &&& is_dash_right(cells[last_dash(cells, k + 1) + 1])
}

/// Whether the cell at `k` is the last dash of a run of dashes between CJK
/// text.
pub open spec fn after_run(cells: Seq<Cell>, k: int) -> bool {
    &&& 0 <= k
    &&& k + 1 < cells.len()
    &&& cells[k].c == '-'
    &&& is_dash_right(cells[k + 1])
    &&& first_dash(cells, k) >= 1
    &&& is_dash_left(cells[first_dash(cells, k) - 1])
}

/// The cell at `k` after the dash pass: before and behind a run of dashes
/// between CJK text stands one space.
pub open spec fn dash_cell(cells: Seq<Cell>, k: int) -> Cell {
    if before_run(cells, k) || after_run(cells, k) {
        cell_of(cells[k].c, 1, cells[k].kind)
    } else {
        cells[k]
    }
}

/// The cells with every run of dashes between CJK text set between single
/// spaces.
pub open spec fn dash_cells(cells: Seq<Cell>) -> Seq<Cell> {
    Seq::new(cells.len(), |k: int| dash_cell(cells, k))
}

/// The cell at `k` without spaces before a full-width opening bracket.
pub open spec fn tighten_left_cell(cells: Seq<Cell>, k: int) -> Cell {
    if k + 1 < cells.len() && is_open_bracket(cells[k + 1].c) {
        cell_of(cells[k].c, 0, cells[k].kind)
    } else {
        cells[k]
    }
}

/// The cell at `k` without spaces behind a full-width closing bracket.
pub open spec fn tighten_right_cell(cells: Seq<Cell>, k: int) -> Cell {
    if is_close_bracket(cells[k].c) {
        cell_of(cells[k].c, 0, cells[k].kind)
    } else {
        cells[k]
    }
}

/// The layout without spaces before full-width opening brackets.
pub open spec fn tighten_left_spec(t: Layout) -> Layout {
    Layout {
        lead: if t.cells.len() > 0 && is_open_bracket(t.cells[0].c) {
            0
        } else {
            t.lead
        },
        cells: Seq::new(t.cells.len(), |k: int| tighten_left_cell(t.cells, k)),
    }
}

/// The cells without spaces behind full-width closing brackets.
pub open spec fn tighten_right_cells(cells: Seq<Cell>) -> Seq<Cell> {
    Seq::new(cells.len(), |k: int| tighten_right_cell(cells, k))
}

/// The last stage of the engine: dashes, then brackets.
pub open spec fn space_dash_spec(t: Layout) -> Layout {
    let dashed = Layout { lead: t.lead, cells: dash_cells(t.cells) };
    let left = tighten_left_spec(dashed);
    Layout { lead: left.lead, cells: tighten_right_cells(left.cells) }
}

/// The layout after all passes of the engine: the width conversions, the
/// spacing rules and the last stage, in this order.
pub open spec fn normalize(t: Layout) -> Layout {
    space_dash_spec(
        Layout {
            lead: t.lead,
            cells: apply_spec(strategies_spec(), halfwidth_cells(fullwidth_cells(t.cells))),
        },
    )
}

/// What the engine makes of `s`, whose characters are of the kinds `kinds`:
/// a text without CJK characters is left as it is; the layout of any other
/// goes through the passes of the engine.
pub open spec fn formatted(s: Seq<char>, kinds: Seq<Kind>) -> Seq<char> {
    if any_cjk(s, kinds) {
        render(normalize(parse(s, kinds)))
    } else {
        s
    }
}

/// What the engine makes of `s`, with the kinds that the tables give its
/// characters.
pub open spec fn format_spec(s: Seq<char>) -> Seq<char> {
    formatted(s, kinds_of(s))
}

fn dash_left(cell: Cell) -> (r: bool)
    ensures
        r == is_dash_left(cell),
{
    is_cjk_kind(cell.c, cell.kind) || close_bracket(cell.c) || cell.c == '”' || cell.c == '’'
}

fn dash_right(cell: Cell) -> (r: bool)
    ensures
        r == is_dash_right(cell),
{
    is_cjk_kind(cell.c, cell.kind) || open_bracket(cell.c) || cell.c == '“' || cell.c == '‘'
}

fn end_of_run(cells: &Vec<Cell>, j: usize) -> (b: usize)
    requires
        j < cells.len(),
    ensures
        b == last_dash(cells@, j as int),
        j <= b < cells.len(),
{
    let mut b: usize = j;
    while b + 1 < cells.len() && cells[b].gap == 0 && cells[b + 1].c == '-'
        invariant
            j <= b < cells.len(),
            last_dash(cells@, b as int) == last_dash(cells@, j as int),
        decreases cells.len() - b,
    {
        b = b + 1;
    }
    b
}

fn start_of_run(cells: &Vec<Cell>, j: usize) -> (a: usize)
    requires
        j < cells.len(),
    ensures
        a == first_dash(cells@, j as int),
        a <= j,
{
    let mut a: usize = j;
    while a > 0 && cells[a - 1].gap == 0 && cells[a - 1].c == '-'
        invariant
            a <= j < cells.len(),
            first_dash(cells@, a as int) == first_dash(cells@, j as int),
        decreases a,
    {
        a = a - 1;
    }
    a
}

fn is_before_run(cells: &Vec<Cell>, k: usize) -> (r: bool)
    requires
        k < cells.len(),
    ensures
        r == before_run(cells@, k as int),
{
    if k + 1 < cells.len() && dash_left(cells[k]) && cells[k + 1].c == '-' {
        let b = end_of_run(cells, k + 1);
        b + 1 < cells.len() && dash_right(cells[b + 1])
    } else {
        false
    }
}

fn is_after_run(cells: &Vec<Cell>, k: usize) -> (r: bool)
    requires
        k < cells.len(),
    ensures
        r == after_run(cells@, k as int),
{
    if k + 1 < cells.len() && cells[k].c == '-' && dash_right(cells[k + 1]) {
        let a = start_of_run(cells, k);
        a >= 1 && dash_left(cells[a - 1])
    } else {
        false
    }
}

/// Sets every run of dashes between CJK text between single spaces.
pub fn space_dashes(cells: &Vec<Cell>) -> (out: Vec<Cell>)
    ensures
        out@ == dash_cells(cells@),
{
    let mut out: Vec<Cell> = Vec::new();
    let mut k: usize = 0;
    while k < cells.len()
        invariant
            k <= cells.len(),
            out@.len() == k,
            forall|j: int| 0 <= j < k ==> out@[j] == dash_cell(cells@, j),
        decreases cells.len() - k,
    {
        let cell = cells[k];
        if is_before_run(cells, k) || is_after_run(cells, k) {
            out.push(Cell { c: cell.c, gap: 1, kind: cell.kind });
        } else {
            out.push(cell);
        }
        k = k + 1;
    }
    proof {
        assert(out@ =~= dash_cells(cells@));
    }
    out
}

/// Drops the spaces before full-width opening brackets.
pub fn tighten_left(t: &Cells) -> (out: Cells)
    ensures
        out@ == tighten_left_spec(t@),
{
    let mut cells: Vec<Cell> = Vec::new();
    let mut k: usize = 0;
    while k < t.cells.len()
        invariant
            k <= t.cells.len(),
            cells@.len() == k,
            forall|j: int| 0 <= j < k ==> cells@[j] == tighten_left_cell(t.cells@, j),
        decreases t.cells.len() - k,
    {
        let cell = t.cells[k];
        if k + 1 < t.cells.len() && open_bracket(t.cells[k + 1].c) {
            cells.push(Cell { c: cell.c, gap: 0, kind: cell.kind });
        } else {
            cells.push(cell);
        }
        k = k + 1;
    }
    let lead = if t.cells.len() > 0 && open_bracket(t.cells[0].c) {
        0
    } else {
        t.lead
    };
    proof {
        assert(cells@ =~= tighten_left_spec(t@).cells);
    }
    Cells { lead, cells }
}

/// Drops the spaces behind full-width closing brackets.
pub fn tighten_right(cells: &Vec<Cell>) -> (out: Vec<Cell>)
    ensures
        out@ == tighten_right_cells(cells@),
{
    let mut out: Vec<Cell> = Vec::new();
    let mut k: usize = 0;
    while k < cells.len()
        invariant
            k <= cells.len(),
            out@.len() == k,
            forall|j: int| 0 <= j < k ==> out@[j] == tighten_right_cell(cells@, j),
        decreases cells.len() - k,
    {
        let cell = cells[k];
        if close_bracket(cell.c) {
            out.push(Cell { c: cell.c, gap: 0, kind: cell.kind });
        } else {
            out.push(cell);
        }
        k = k + 1;
    }
    proof {
        assert(out@ =~= tighten_right_cells(cells@));
    }
    out
}

/// The last stage of the engine on a layout: a run of dashes between CJK
/// text is set between single spaces, then the spaces before full-width
/// opening brackets and behind full-width closing brackets are dropped.
pub fn space_dash_cells(t: Cells) -> (out: Cells)
    ensures
        out@ == space_dash_spec(t@),
{
    let dashed = Cells { lead: t.lead, cells: space_dashes(&t.cells) };
    let left = tighten_left(&dashed);
    Cells { lead: left.lead, cells: tighten_right(&left.cells) }
}

/// The last stage of the engine on a text.
pub fn space_dash_with_hans(classes: &Classes, text: &Vec<char>) -> (out: Vec<char>)
    requires
        classes.wf(),
    ensures
        out@ == render(space_dash_spec(parse(text@, kinds_of(text@)))),
{
    let kinds = classify(classes, text);
    let t = parse_text(text, &kinds);
    let done = space_dash_cells(t);
    render_text(&done)
}

/// Formats a text whose characters are of the kinds `kinds`.
pub fn format_classified(text: &Vec<char>, kinds: &Vec<Kind>) -> (out: Vec<char>)
    requires
        kinds.len() == text.len(),
    ensures
        out@ == formatted(text@, kinds@),
{
    proof {
        assert(text@.subrange(0, text@.len() as int) =~= text@);
        assert(kinds@.subrange(0, text@.len() as int) =~= kinds@);
    }
    if !range_has_cjk(text, kinds, 0, text.len()) {
        return text.clone();
    }
    let t = parse_text(text, kinds);
    let wide = fullwidth(&t.cells);
    let narrow = halfwidth(&wide);
    let rules = strategies();
    let spaced = apply(&rules, narrow);
    let done = space_dash_cells(Cells { lead: t.lead, cells: spaced });
    render_text(&done)
}

/// Formats the characters of a plain text.
pub fn format_chars(classes: &Classes, text: &Vec<char>) -> (out: Vec<char>)
    requires
        classes.wf(),
    ensures
        out@ == format_spec(text@),
{
    let kinds = classify(classes, text);
    format_classified(text, &kinds)
}

/// Formats a plain text with classes that the caller has compiled.
pub fn format_with(classes: &Classes, text: &str) -> (out: String)
    requires
        classes.wf(),
    ensures
        out@ == format_spec(text@),
{
    let chars = to_chars(text);
    let out = format_chars(classes, &chars);
    to_string(&out)
}

} // verus!
