//! Why formatting a formatted text changes nothing.
//!
//! A pass is at rest on a layout if it leaves every cell as it is. Each
//! pass of the engine is at rest on its own result, and no later pass
//! disturbs it: the passes change the spaces between two characters only
//! where their classes allow it, and the classes of one pass keep out of
//! the way of the others.

use vstd::prelude::*;
use crate::cells::{canonical, cell_cjk, well_formed, Cell, Layout};
use crate::charset::{
    canon, is_close_bracket, is_fullwidth_alnum, is_open_bracket, is_sentence_mark, kind_of,
};
use crate::engine::{
    after_run, before_run, dash_cell, dash_cells, first_dash, is_dash_left, is_dash_right,
    last_dash, normalize, space_dash_spec, tighten_left_cell, tighten_left_spec,
    tighten_right_cell, tighten_right_cells,
};
use crate::fullwidth::{converts_at, fullwidth_cell, fullwidth_cells};
use crate::halfwidth::{halfwidth_cell, halfwidth_cells};
use crate::strategery::{apply_from, apply_spec, strategies_spec, CharClass, Strategery};

verus! {

/// Two rows of cells hold the same characters, of the same kinds.
pub open spec fn same_chars(x: Seq<Cell>, y: Seq<Cell>) -> bool {
    &&& x.len() == y.len()
    &&& forall|k: int|
        0 <= k < x.len() ==> (#[trigger] x[k]).c == y[k].c && x[k].kind == y[k].kind
}

/// The conversion of sentence marks is at rest.
pub open spec fn fullwidth_rests(cells: Seq<Cell>) -> bool {
    forall|k: int| 0 <= k < cells.len() ==> !#[trigger] converts_at(cells, k)
}

/// The conversion of full-width letters and digits is at rest.
pub open spec fn halfwidth_rests(cells: Seq<Cell>) -> bool {
    forall|k: int| 0 <= k < cells.len() ==> !is_fullwidth_alnum((#[trigger] cells[k]).c)
}

/// The rule is at rest.
pub open spec fn rule_rests(rule: Strategery, cells: Seq<Cell>) -> bool {
    forall|k: int| 0 <= k < cells.len() ==> #[trigger] rule.cell(cells, k) == cells[k]
}

/// From `x` to `y` the spaces behind a cell grow only to one space, and
/// only where `grows` holds of its character and the next; they shrink
/// only to none, and only where `shrinks` holds.
pub open spec fn moves(
    x: Seq<Cell>,
    y: Seq<Cell>,
    grows: spec_fn(Cell, Cell) -> bool,
    shrinks: spec_fn(Cell, Cell) -> bool,
) -> bool {
    &&& same_chars(x, y)
    &&& forall|k: int|
        0 <= k < x.len() ==> {
            ||| (#[trigger] y[k]).gap == x[k].gap
            ||| (y[k].gap == 1 && x[k].gap != 1 && k + 1 < x.len() && grows(x[k], x[k + 1]))
            ||| (y[k].gap == 0 && x[k].gap > 0 && (k + 1 == x.len() || shrinks(x[k], x[k + 1])))
        }
}

/// A rule stays at rest where the spaces move only between characters of
/// which it does not speak against the move: it adds no space where they
/// shrink, and removes none where they grow.
pub proof fn lemma_rule_stays(
    rule: Strategery,
    x: Seq<Cell>,
    y: Seq<Cell>,
    grows: spec_fn(Cell, Cell) -> bool,
    shrinks: spec_fn(Cell, Cell) -> bool,
)
    requires
        rule_rests(rule, x),
        moves(x, y, grows, shrinks),
        rule.space ==> forall|a: Cell, b: Cell| #[trigger] rule.pairs(a, b) ==> !shrinks(a, b),
        !rule.space ==> forall|a: Cell, b: Cell| #[trigger] rule.pairs(a, b) ==> !grows(a, b),
    ensures
        rule_rests(rule, y),
{
    assert forall|k: int| 0 <= k < y.len() implies #[trigger] rule.cell(y, k) == y[k] by {
        assert(rule.cell(x, k) == x[k]);
        assert(x[k].c == y[k].c);
        if k + 1 < x.len() {
            assert(x[k + 1].c == y[k + 1].c);
        }
    }
}

/// The conversion of sentence marks stays at rest where the spaces shrink
/// only between characters other than a CJK character and a sentence mark.
pub proof fn lemma_fullwidth_stays(
    x: Seq<Cell>,
    y: Seq<Cell>,
    grows: spec_fn(Cell, Cell) -> bool,
    shrinks: spec_fn(Cell, Cell) -> bool,
)
    requires
        fullwidth_rests(x),
        moves(x, y, grows, shrinks),
        forall|a: Cell, b: Cell| #[trigger] shrinks(a, b) ==> !(cell_cjk(a) && is_sentence_mark(b.c)),
    ensures
        fullwidth_rests(y),
{
    assert forall|k: int| 0 <= k < y.len() implies !#[trigger] converts_at(y, k) by {
        assert(!converts_at(x, k));
        assert(x[k].c == y[k].c);
        if k > 0 {
            assert(x[k - 1].c == y[k - 1].c);
            assert(y[k - 1].gap == x[k - 1].gap || y[k - 1].gap == 1 || shrinks(x[k - 1], x[k]));
        }
        if k + 1 < x.len() {
            assert(x[k + 1].c == y[k + 1].c);
        }
    }
}

/// The conversion of full-width letters and digits stays at rest where the
/// characters stay.
pub proof fn lemma_halfwidth_stays(x: Seq<Cell>, y: Seq<Cell>)
    requires
        halfwidth_rests(x),
        same_chars(x, y),
    ensures
        halfwidth_rests(y),
{
    assert forall|k: int| 0 <= k < y.len() implies !is_fullwidth_alnum((#[trigger] y[k]).c) by {
        assert(x[k].c == y[k].c);
    }
}

/// Where the rule `q` sets a space.
pub open spec fn rule_grows(q: Strategery) -> spec_fn(Cell, Cell) -> bool {
    |a: Cell, b: Cell| q.space && q.pairs(a, b)
}

/// Where the rule `q` removes the spaces.
pub open spec fn rule_shrinks(q: Strategery) -> spec_fn(Cell, Cell) -> bool {
    |a: Cell, b: Cell| !q.space && q.pairs(a, b)
}

/// Where the dash pass sets a space: before and behind a dash.
pub open spec fn dash_grows() -> spec_fn(Cell, Cell) -> bool {
    |a: Cell, b: Cell| (is_dash_left(a) && b.c == '-') || (a.c == '-' && is_dash_right(b))
}

/// Where the spaces before brackets are dropped.
pub open spec fn left_shrinks() -> spec_fn(Cell, Cell) -> bool {
    |a: Cell, b: Cell| is_open_bracket(b.c)
}

/// Where the spaces behind brackets are dropped.
pub open spec fn right_shrinks() -> spec_fn(Cell, Cell) -> bool {
    |a: Cell, b: Cell| is_close_bracket(a.c)
}

/// Nowhere.
pub open spec fn never() -> spec_fn(Cell, Cell) -> bool {
    |a: Cell, b: Cell| false
}

pub proof fn lemma_rule_moves(q: Strategery, x: Seq<Cell>)
    ensures
        moves(x, q.format_spec(x), rule_grows(q), rule_shrinks(q)),
{
    let y = q.format_spec(x);
    assert forall|k: int| 0 <= k < x.len() implies (#[trigger] x[k]).c == y[k].c && x[k].kind
        == y[k].kind by {
        assert(y[k] == q.cell(x, k));
    }
    assert forall|k: int| 0 <= k < x.len() implies {
        ||| (#[trigger] y[k]).gap == x[k].gap
        ||| (y[k].gap == 1 && x[k].gap != 1 && k + 1 < x.len() && rule_grows(q)(x[k], x[k + 1]))
        ||| (y[k].gap == 0 && x[k].gap > 0 && (k + 1 == x.len() || rule_shrinks(q)(x[k], x[k + 1])))
    } by {
        assert(y[k] == q.cell(x, k));
    }
}

pub proof fn lemma_dash_moves(x: Seq<Cell>)
    ensures
        moves(x, dash_cells(x), dash_grows(), never()),
{
    let y = dash_cells(x);
    assert forall|k: int| 0 <= k < x.len() implies (#[trigger] x[k]).c == y[k].c && x[k].kind
        == y[k].kind by {
        assert(y[k] == dash_cell(x, k));
    }
    assert forall|k: int| 0 <= k < x.len() implies {
        ||| (#[trigger] y[k]).gap == x[k].gap
        ||| (y[k].gap == 1 && x[k].gap != 1 && k + 1 < x.len() && dash_grows()(x[k], x[k + 1]))
        ||| (y[k].gap == 0 && x[k].gap > 0 && (k + 1 == x.len() || never()(x[k], x[k + 1])))
    } by {
        assert(y[k] == dash_cell(x, k));
    }
}

pub proof fn lemma_tighten_left_moves(t: Layout)
    ensures
        moves(t.cells, tighten_left_spec(t).cells, never(), left_shrinks()),
{
    let x = t.cells;
    let y = tighten_left_spec(t).cells;
    assert forall|k: int| 0 <= k < x.len() implies (#[trigger] x[k]).c == y[k].c && x[k].kind
        == y[k].kind by {
        assert(y[k] == tighten_left_cell(x, k));
    }
    assert forall|k: int| 0 <= k < x.len() implies {
        ||| (#[trigger] y[k]).gap == x[k].gap
        ||| (y[k].gap == 1 && x[k].gap != 1 && k + 1 < x.len() && never()(x[k], x[k + 1]))
        ||| (y[k].gap == 0 && x[k].gap > 0 && (k + 1 == x.len() || left_shrinks()(x[k], x[k + 1])))
    } by {
        assert(y[k] == tighten_left_cell(x, k));
    }
}

pub proof fn lemma_tighten_right_moves(x: Seq<Cell>)
    ensures
        moves(x, tighten_right_cells(x), never(), right_shrinks()),
{
    let y = tighten_right_cells(x);
    assert forall|k: int| 0 <= k < x.len() implies (#[trigger] x[k]).c == y[k].c && x[k].kind
        == y[k].kind by {
        assert(y[k] == tighten_right_cell(x, k));
    }
    assert forall|k: int| 0 <= k < x.len() implies {
        ||| (#[trigger] y[k]).gap == x[k].gap
        ||| (y[k].gap == 1 && x[k].gap != 1 && k + 1 < x.len() && never()(x[k], x[k + 1]))
        ||| (y[k].gap == 0 && x[k].gap > 0 && (k + 1 == x.len() || right_shrinks()(x[k], x[k + 1])))
    } by {
        assert(y[k] == tighten_right_cell(x, k));
    }
}

/// A rule is at rest on its own result.
pub proof fn lemma_rule_rests_after(q: Strategery, x: Seq<Cell>)
    ensures
        rule_rests(q, q.format_spec(x)),
{
    let y = q.format_spec(x);
    assert forall|k: int| 0 <= k < y.len() implies #[trigger] q.cell(y, k) == y[k] by {
        assert(y[k] == q.cell(x, k));
        if k + 1 < x.len() {
            assert(y[k + 1] == q.cell(x, k + 1));
        }
    }
}

/// The conversion of sentence marks is at rest on its own result.
pub proof fn lemma_fullwidth_rests_after(x: Seq<Cell>)
    ensures
        fullwidth_rests(fullwidth_cells(x)),
{
    let y = fullwidth_cells(x);
    assert forall|k: int| 0 <= k < y.len() implies !#[trigger] converts_at(y, k) by {
        assert(y[k] == fullwidth_cell(x, k));
        if k > 0 {
            assert(y[k - 1] == fullwidth_cell(x, k - 1));
        }
        if k + 1 < x.len() {
            assert(y[k + 1] == fullwidth_cell(x, k + 1));
        }
    }
}

/// The conversion of full-width letters and digits is at rest on its own
/// result, and leaves the conversion of sentence marks at rest.
pub proof fn lemma_halfwidth_rests_after(x: Seq<Cell>)
    requires
        fullwidth_rests(x),
    ensures
        halfwidth_rests(halfwidth_cells(x)),
        fullwidth_rests(halfwidth_cells(x)),
{
    let y = halfwidth_cells(x);
    assert forall|k: int| 0 <= k < y.len() implies !is_fullwidth_alnum((#[trigger] y[k]).c) by {
        assert(y[k] == halfwidth_cell(x, k));
    }
    assert forall|k: int| 0 <= k < y.len() implies !#[trigger] converts_at(y, k) by {
        assert(!converts_at(x, k));
        assert(y[k] == halfwidth_cell(x, k));
        if k > 0 {
            assert(y[k - 1] == halfwidth_cell(x, k - 1));
        }
        if k + 1 < x.len() {
            assert(y[k + 1] == halfwidth_cell(x, k + 1));
        }
    }
}

/// The rule `p` stays at rest under moves of the spaces that grow where
/// `grows` holds and shrink where `shrinks` holds.
pub open spec fn calm(
    p: Strategery,
    grows: spec_fn(Cell, Cell) -> bool,
    shrinks: spec_fn(Cell, Cell) -> bool,
) -> bool {
    &&& p.space ==> forall|a: Cell, b: Cell| #[trigger] p.pairs(a, b) ==> !shrinks(a, b)
    &&& !p.space ==> forall|a: Cell, b: Cell| #[trigger] p.pairs(a, b) ==> !grows(a, b)
}

/// The rules of the engine, by their place in the list.
pub proof fn lemma_table(i: int)
    requires
        0 <= i < 8,
    ensures
        strategies_spec().len() == 8,
        i == 0 ==> strategies_spec()[i] == (Strategery {
            left: CharClass::Cjk,
            right: CharClass::Letter,
            space: true,
            reverse: true,
        }),
        i == 1 ==> strategies_spec()[i] == (Strategery {
            left: CharClass::Cjk,
            right: CharClass::Digit,
            space: true,
            reverse: true,
        }),
        i == 2 ==> strategies_spec()[i] == (Strategery {
            left: CharClass::Cjk,
            right: CharClass::Operator,
            space: true,
            reverse: true,
        }),
        i == 3 ==> strategies_spec()[i] == (Strategery {
            left: CharClass::Cjk,
            right: CharClass::At,
            space: true,
            reverse: false,
        }),
        i == 4 ==> strategies_spec()[i] == (Strategery {
            left: CharClass::Cjk,
            right: CharClass::Opening,
            space: true,
            reverse: false,
        }),
        i == 5 ==> strategies_spec()[i] == (Strategery {
            left: CharClass::Closing,
            right: CharClass::Cjk,
            space: true,
            reverse: false,
        }),
        i == 6 ==> strategies_spec()[i] == (Strategery {
            left: CharClass::Word,
            right: CharClass::FullwidthClosing,
            space: false,
            reverse: false,
        }),
        i == 7 ==> strategies_spec()[i] == (Strategery {
            left: CharClass::FullwidthOpening,
            right: CharClass::Word,
            space: false,
            reverse: false,
        }),
{
}

/// No rule of the engine is disturbed by a later one.
pub proof fn lemma_calm_under_rule(i: int, j: int)
    requires
        0 <= i < j < 8,
    ensures
        calm(
            strategies_spec()[i],
            rule_grows(strategies_spec()[j]),
            rule_shrinks(strategies_spec()[j]),
        ),
{
    lemma_table(i);
    lemma_table(j);
}

/// No rule of the engine is disturbed by the dash pass.
pub proof fn lemma_calm_under_dash(i: int)
    requires
        0 <= i < 8,
    ensures
        calm(strategies_spec()[i], dash_grows(), never()),
{
    lemma_table(i);
}

/// No rule of the engine is disturbed where spaces before brackets go.
pub proof fn lemma_calm_under_left(i: int)
    requires
        0 <= i < 8,
    ensures
        calm(strategies_spec()[i], never(), left_shrinks()),
{
    lemma_table(i);
}

/// No rule of the engine is disturbed where spaces behind brackets go.
pub proof fn lemma_calm_under_right(i: int)
    requires
        0 <= i < 8,
    ensures
        calm(strategies_spec()[i], never(), right_shrinks()),
{
    lemma_table(i);
}

/// The rules from `from` on keep the characters.
pub proof fn lemma_apply_same_chars(from: int, x: Seq<Cell>)
    requires
        0 <= from,
    ensures
        same_chars(x, apply_from(strategies_spec(), from, x)),
    decreases strategies_spec().len() - from,
{
    let rules = strategies_spec();
    if from < rules.len() {
        let q = rules[from];
        let y = q.format_spec(x);
        lemma_rule_moves(q, x);
        lemma_apply_same_chars(from + 1, y);
        let z = apply_from(rules, from + 1, y);
        assert forall|k: int| 0 <= k < x.len() implies (#[trigger] x[k]).c == z[k].c && x[k].kind
            == z[k].kind by {
            assert(x[k].c == y[k].c && x[k].kind == y[k].kind);
            assert(y[k].c == z[k].c && y[k].kind == z[k].kind);
        }
    }
}

/// The rules behind the rule at `i` leave it at rest.
pub proof fn lemma_apply_keeps_rule(i: int, from: int, x: Seq<Cell>)
    requires
        0 <= i < from <= 8,
        rule_rests(strategies_spec()[i], x),
    ensures
        rule_rests(strategies_spec()[i], apply_from(strategies_spec(), from, x)),
    decreases 8 - from,
{
    let rules = strategies_spec();
    lemma_table(i);
    if from < 8 {
        let q = rules[from];
        lemma_rule_moves(q, x);
        lemma_calm_under_rule(i, from);
        lemma_rule_stays(rules[i], x, q.format_spec(x), rule_grows(q), rule_shrinks(q));
        lemma_apply_keeps_rule(i, from + 1, q.format_spec(x));
    }
}

/// After the rules from `from` on, the rule at `i` is at rest.
pub proof fn lemma_apply_rests(i: int, from: int, x: Seq<Cell>)
    requires
        0 <= from <= i < 8,
    ensures
        rule_rests(strategies_spec()[i], apply_from(strategies_spec(), from, x)),
    decreases i - from,
{
    let rules = strategies_spec();
    lemma_table(i);
    if from == i {
        lemma_rule_rests_after(rules[i], x);
        lemma_apply_keeps_rule(i, i + 1, rules[i].format_spec(x));
    } else {
        lemma_apply_rests(i, from + 1, rules[from].format_spec(x));
    }
}

/// The rules leave the conversion of sentence marks at rest.
pub proof fn lemma_apply_keeps_fullwidth(from: int, x: Seq<Cell>)
    requires
        0 <= from <= 8,
        fullwidth_rests(x),
    ensures
        fullwidth_rests(apply_from(strategies_spec(), from, x)),
    decreases 8 - from,
{
    let rules = strategies_spec();
    lemma_table(0);
    if from < 8 {
        let q = rules[from];
        lemma_table(from);
        lemma_rule_moves(q, x);
        lemma_fullwidth_stays(x, q.format_spec(x), rule_grows(q), rule_shrinks(q));
        lemma_apply_keeps_fullwidth(from + 1, q.format_spec(x));
    }
}

/// The rules from `from` on change nothing where each of them is at rest.
pub proof fn lemma_apply_at_rest(from: int, x: Seq<Cell>)
    requires
        0 <= from <= 8,
        forall|i: int| from <= i < 8 ==> rule_rests(#[trigger] strategies_spec()[i], x),
    ensures
        apply_from(strategies_spec(), from, x) == x,
    decreases 8 - from,
{
    let rules = strategies_spec();
    lemma_table(0);
    if from < 8 {
        let q = rules[from];
        assert(rule_rests(q, x));
        assert forall|k: int| 0 <= k < x.len() implies q.format_spec(x)[k] == x[k] by {
            assert(q.cell(x, k) == x[k]);
        }
        assert(q.format_spec(x) =~= x);
        lemma_apply_at_rest(from + 1, x);
    }
}

/// Two rows of cells hold the same characters, and the same spaces
/// between two dashes.
pub open spec fn dashes_agree(x: Seq<Cell>, y: Seq<Cell>) -> bool {
    &&& same_chars(x, y)
    &&& forall|k: int|
        0 <= k && k + 1 < x.len() && (#[trigger] x[k]).c == '-' && x[k + 1].c == '-' ==> x[k].gap
            == y[k].gap
}

proof fn lemma_last_dash_agrees(x: Seq<Cell>, y: Seq<Cell>, j: int)
    requires
        dashes_agree(x, y),
        0 <= j < x.len(),
        x[j].c == '-',
    ensures
        last_dash(x, j) == last_dash(y, j),
        j <= last_dash(x, j) < x.len(),
    decreases x.len() - j,
{
    if j + 1 < x.len() {
        assert(x[j].c == y[j].c);
        assert(x[j + 1].c == y[j + 1].c);
        if x[j + 1].c == '-' {
            assert(x[j].gap == y[j].gap);
            if x[j].gap == 0 {
                lemma_last_dash_agrees(x, y, j + 1);
            }
        }
    }
}

proof fn lemma_first_dash_agrees(x: Seq<Cell>, y: Seq<Cell>, j: int)
    requires
        dashes_agree(x, y),
        0 <= j < x.len(),
        x[j].c == '-',
    ensures
        first_dash(x, j) == first_dash(y, j),
        0 <= first_dash(x, j) <= j,
    decreases j,
{
    if j > 0 {
        assert(x[j].c == y[j].c);
        assert(x[j - 1].c == y[j - 1].c);
        if x[j - 1].c == '-' {
            assert(x[j - 1].gap == y[j - 1].gap);
            if x[j - 1].gap == 0 {
                lemma_first_dash_agrees(x, y, j - 1);
            }
        }
    }
}

/// Rows that agree on their dashes have the same runs of dashes between
/// CJK text.
proof fn lemma_runs_agree(x: Seq<Cell>, y: Seq<Cell>, k: int)
    requires
        dashes_agree(x, y),
        0 <= k < x.len(),
    ensures
        before_run(x, k) == before_run(y, k),
        after_run(x, k) == after_run(y, k),
{
    assert(x[k].c == y[k].c && x[k].kind == y[k].kind);
    if k + 1 < x.len() {
        assert(x[k + 1].c == y[k + 1].c && x[k + 1].kind == y[k + 1].kind);
        if x[k + 1].c == '-' {
            lemma_last_dash_agrees(x, y, k + 1);
            let b = last_dash(x, k + 1);
            if b + 1 < x.len() {
                assert(x[b + 1].c == y[b + 1].c && x[b + 1].kind == y[b + 1].kind);
            }
        }
        if x[k].c == '-' {
            lemma_first_dash_agrees(x, y, k);
            let a = first_dash(x, k);
            if a >= 1 {
                assert(x[a - 1].c == y[a - 1].c && x[a - 1].kind == y[a - 1].kind);
            }
        }
    }
}

/// The last stage of the engine changes nothing on its own result.
pub proof fn lemma_stage_idempotent(t: Layout)
    ensures
        space_dash_spec(space_dash_spec(t)) == space_dash_spec(t),
{
    let x = t.cells;
    let d = dash_cells(x);
    let l = tighten_left_spec(Layout { lead: t.lead, cells: d });
    let r = tighten_right_cells(l.cells);
    let once = space_dash_spec(t);
    assert(once == Layout { lead: l.lead, cells: r });
    let d2 = dash_cells(r);
    let l2 = tighten_left_spec(Layout { lead: l.lead, cells: d2 });
    let r2 = tighten_right_cells(l2.cells);
    assert(space_dash_spec(once) == Layout { lead: l2.lead, cells: r2 });
    assert forall|k: int| 0 <= k < x.len() implies (#[trigger] x[k]).c == r[k].c && x[k].kind
        == r[k].kind && (k + 1 < x.len() && x[k].c == '-' && x[k + 1].c == '-' ==> x[k].gap
        == r[k].gap) by {
        assert(r[k] == tighten_right_cell(l.cells, k));
        assert(l.cells[k] == tighten_left_cell(d, k));
        assert(d[k] == dash_cell(x, k));
        if k + 1 < x.len() {
            assert(d[k + 1] == dash_cell(x, k + 1));
        }
    }
    assert(dashes_agree(x, r));
    assert forall|k: int| 0 <= k < r.len() implies r2[k] == r[k] by {
        lemma_runs_agree(x, r, k);
        assert(r[k] == tighten_right_cell(l.cells, k));
        assert(l.cells[k] == tighten_left_cell(d, k));
        assert(d[k] == dash_cell(x, k));
        assert(r2[k] == tighten_right_cell(l2.cells, k));
        assert(l2.cells[k] == tighten_left_cell(d2, k));
        assert(d2[k] == dash_cell(r, k));
        if k + 1 < x.len() {
            assert(d[k + 1] == dash_cell(x, k + 1));
            assert(d2[k + 1] == dash_cell(r, k + 1));
            assert(x[k + 1].c == r[k + 1].c && x[k + 1].kind == r[k + 1].kind);
        }
    }
    assert(r2 =~= r);
    if x.len() > 0 {
        assert(d[0] == dash_cell(x, 0));
        assert(d2[0] == dash_cell(r, 0));
        assert(x[0].c == r[0].c && x[0].kind == r[0].kind);
    }
}

/// The last stage of the engine leaves the passes before it at rest.
pub proof fn lemma_stage_keeps_rest(t: Layout)
    requires
        fullwidth_rests(t.cells),
        halfwidth_rests(t.cells),
        forall|i: int| 0 <= i < 8 ==> rule_rests(#[trigger] strategies_spec()[i], t.cells),
    ensures
        fullwidth_rests(space_dash_spec(t).cells),
        halfwidth_rests(space_dash_spec(t).cells),
        forall|i: int|
            0 <= i < 8 ==> rule_rests(#[trigger] strategies_spec()[i], space_dash_spec(t).cells),
{
    let x = t.cells;
    let d = dash_cells(x);
    let dashed = Layout { lead: t.lead, cells: d };
    let l = tighten_left_spec(dashed);
    let r = tighten_right_cells(l.cells);
    lemma_dash_moves(x);
    lemma_tighten_left_moves(dashed);
    lemma_tighten_right_moves(l.cells);
    lemma_fullwidth_stays(x, d, dash_grows(), never());
    lemma_fullwidth_stays(d, l.cells, never(), left_shrinks());
    lemma_fullwidth_stays(l.cells, r, never(), right_shrinks());
    lemma_halfwidth_stays(x, d);
    lemma_halfwidth_stays(d, l.cells);
    lemma_halfwidth_stays(l.cells, r);
    assert forall|i: int| 0 <= i < 8 implies rule_rests(#[trigger] strategies_spec()[i], r) by {
        let p = strategies_spec()[i];
        lemma_calm_under_dash(i);
        lemma_calm_under_left(i);
        lemma_calm_under_right(i);
        lemma_rule_stays(p, x, d, dash_grows(), never());
        lemma_rule_stays(p, d, l.cells, never(), left_shrinks());
        lemma_rule_stays(p, l.cells, r, never(), right_shrinks());
    }
}

/// The passes of the engine change nothing on their own result.
pub proof fn lemma_normalize_idempotent(t: Layout)
    ensures
        normalize(normalize(t)) == normalize(t),
{
    let rules = strategies_spec();
    let a = fullwidth_cells(t.cells);
    let b = halfwidth_cells(a);
    let c = apply_spec(rules, b);
    let y = Layout { lead: t.lead, cells: c };
    let n = normalize(t);
    assert(n == space_dash_spec(y));
    lemma_fullwidth_rests_after(t.cells);
    lemma_halfwidth_rests_after(a);
    lemma_apply_keeps_fullwidth(0, b);
    lemma_apply_same_chars(0, b);
    lemma_halfwidth_stays(b, c);
    assert forall|i: int| 0 <= i < 8 implies rule_rests(#[trigger] rules[i], c) by {
        lemma_apply_rests(i, 0, b);
    }
    lemma_stage_keeps_rest(y);
    // the first passes are at rest on the result
    let m = n.cells;
    assert forall|k: int| 0 <= k < m.len() implies fullwidth_cells(m)[k] == m[k] by {
        assert(!converts_at(m, k));
    }
    assert(fullwidth_cells(m) =~= m);
    assert forall|k: int| 0 <= k < m.len() implies halfwidth_cells(m)[k] == m[k] by {
        assert(!is_fullwidth_alnum(m[k].c));
    }
    assert(halfwidth_cells(m) =~= m);
    lemma_apply_at_rest(0, m);
    assert(apply_spec(rules, m) == m);
    assert(normalize(n) == space_dash_spec(Layout { lead: n.lead, cells: m }));
    assert(Layout { lead: n.lead, cells: m } == n);
    lemma_stage_idempotent(y);
}

/// The passes of the engine put no space into a cell.
pub proof fn lemma_normalize_well_formed(t: Layout)
    requires
        well_formed(t),
    ensures
        well_formed(normalize(t)),
{
    let a = fullwidth_cells(t.cells);
    let b = halfwidth_cells(a);
    let c = apply_spec(strategies_spec(), b);
    let n = normalize(t);
    lemma_apply_same_chars(0, b);
    let d = dash_cells(c);
    let l = tighten_left_spec(Layout { lead: t.lead, cells: d });
    assert forall|k: int| 0 <= k < n.cells.len() implies (#[trigger] n.cells[k]).c != ' ' by {
        assert(t.cells[k].c != ' ');
        assert(a[k] == fullwidth_cell(t.cells, k));
        assert(b[k] == halfwidth_cell(a, k));
        assert(b[k].c == c[k].c && b[k].kind == c[k].kind);
        assert(d[k] == dash_cell(c, k));
        assert(l.cells[k] == tighten_left_cell(d, k));
        assert(n.cells[k] == tighten_right_cell(l.cells, k));
    }
}

/// The passes of the engine keep a layout canonical.
pub proof fn lemma_normalize_canonical(t: Layout)
    requires
        canonical(t),
    ensures
        canonical(normalize(t)),
{
    let a = fullwidth_cells(t.cells);
    let b = halfwidth_cells(a);
    let c = apply_spec(strategies_spec(), b);
    let n = normalize(t);
    lemma_apply_same_chars(0, b);
    let d = dash_cells(c);
    let l = tighten_left_spec(Layout { lead: t.lead, cells: d });
    assert forall|k: int| 0 <= k < n.cells.len() implies (#[trigger] n.cells[k]).kind == canon(
        n.cells[k].c,
        kind_of(n.cells[k].c),
    ) by {
        assert(t.cells[k].kind == canon(t.cells[k].c, kind_of(t.cells[k].c)));
        assert(a[k] == fullwidth_cell(t.cells, k));
        assert(b[k] == halfwidth_cell(a, k));
        assert(b[k].c == c[k].c && b[k].kind == c[k].kind);
        assert(d[k] == dash_cell(c, k));
        assert(l.cells[k] == tighten_left_cell(d, k));
        assert(n.cells[k] == tighten_right_cell(l.cells, k));
    }
}

} // verus!
