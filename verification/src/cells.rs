//! A text as characters with the spaces behind them.
//!
//! The spacing rules never look at a space as a character: they ask how
//! many spaces stand between two characters. So the engine holds a text as
//! a layout: the number of spaces at its start, and for each character that
//! is no space the number of spaces behind it. A cell also holds what the
//! script and word tables say of its character, so that the rules need not
//! ask them.

use vstd::prelude::*;
use crate::charset::{canon, cjk_kind, is_cjk, kind_of, no_kind, reserved, word_kind, Kind};
use crate::scan::{cjk_of, lemma_cjk_of_add, lemma_cjk_of_none, lemma_cjk_of_one};

verus! {

/// A character that is no space, the number of spaces behind it, and the
/// kind of the character.
#[derive(Clone, Copy, Debug, PartialEq, Eq, Structural)]
pub struct Cell {
    pub c: char,
    pub gap: usize,
    pub kind: Kind,
}

/// A text as the contracts see it: `lead` spaces, then the cells.
pub struct Layout {
    pub lead: usize,
    pub cells: Seq<Cell>,
}

/// A text as the engine holds it.
#[derive(Debug)]
pub struct Cells {
    pub lead: usize,
    pub cells: Vec<Cell>,
}

impl View for Cells {
    type V = Layout;

    open spec fn view(&self) -> Layout {
        Layout { lead: self.lead, cells: self.cells@ }
    }
}

/// The cell of `c` with `gap` spaces behind it.
pub open spec fn cell_of(c: char, gap: usize, kind: Kind) -> Cell {
    Cell { c, gap, kind }
}

/// Whether the character of a cell is a CJK character.
pub open spec fn cell_cjk(cell: Cell) -> bool {
    cjk_kind(cell.c, cell.kind)
}

/// Whether the character of a cell is a word character or a CJK character.
pub open spec fn cell_word(cell: Cell) -> bool {
    word_kind(cell.c, cell.kind)
}

/// `n` spaces.
pub open spec fn spaces(n: nat) -> Seq<char> {
    Seq::new(n, |k: int| ' ')
}

/// The characters of `cells`, each with its spaces behind it.
pub open spec fn render_cells(cells: Seq<Cell>) -> Seq<char>
    decreases cells.len(),
{
    if cells.len() == 0 {
        Seq::empty()
    } else {
        render_cells(cells.drop_last()) + seq![cells.last().c] + spaces(cells.last().gap as nat)
    }
}

/// The text that a layout stands for.
pub open spec fn render(t: Layout) -> Seq<char> {
    spaces(t.lead as nat) + render_cells(t.cells)
}

/// No cell of the layout holds a space.
pub open spec fn well_formed(t: Layout) -> bool {
    forall|k: int| 0 <= k < t.cells.len() ==> (#[trigger] t.cells[k]).c != ' '
}

/// Every cell of the layout holds the kind that the tables give its
/// character, and none if the character is reserved.
pub open spec fn canonical(t: Layout) -> bool {
    forall|k: int|
        0 <= k < t.cells.len() ==> (#[trigger] t.cells[k]).kind == canon(
            t.cells[k].c,
            kind_of(t.cells[k].c),
        )
}

/// The kind at position `i` of `kinds`, or none behind its end.
pub open spec fn kind_at(kinds: Seq<Kind>, i: int) -> Kind {
    if 0 <= i < kinds.len() {
        kinds[i]
    } else {
        no_kind()
    }
}

/// The layout with one more space at its end.
pub open spec fn widen(t: Layout) -> Layout {
    if t.cells.len() == 0 {
        Layout { lead: (t.lead + 1) as usize, cells: t.cells }
    } else {
        let last = t.cells.last();
        Layout {
            lead: t.lead,
            cells: t.cells.update(
                t.cells.len() - 1,
                cell_of(last.c, (last.gap + 1) as usize, last.kind),
            ),
        }
    }
}

/// The layout of a text whose characters are of the kinds `kinds`. Of a
/// reserved character no kind is kept.
pub open spec fn parse(s: Seq<char>, kinds: Seq<Kind>) -> Layout
    decreases s.len(),
{
    if s.len() == 0 {
        Layout { lead: 0, cells: Seq::empty() }
    } else {
        let before = parse(s.drop_last(), kinds);
        if s.last() == ' ' {
            widen(before)
        } else {
            Layout {
                lead: before.lead,
                cells: before.cells.push(
                    cell_of(s.last(), 0, canon(s.last(), kind_at(kinds, s.len() - 1))),
                ),
            }
        }
    }
}

/// The characters of `cells`, without their spaces.
pub open spec fn chars_of(cells: Seq<Cell>) -> Seq<char> {
    Seq::new(cells.len(), |k: int| cells[k].c)
}

pub proof fn lemma_spaces_push(n: nat)
    ensures
        spaces(n + 1) == spaces(n).push(' '),
{
    assert(spaces(n + 1) =~= spaces(n).push(' '));
}

/// Whether `kinds` gives each character of `s` the kind that the tables
/// give it.
pub open spec fn fits(kinds: Seq<Kind>, s: Seq<char>) -> bool {
    forall|i: int| 0 <= i < s.len() ==> kind_at(kinds, i) == kind_of(#[trigger] s[i])
}

/// One more space at the end of a layout is one more space at the end of
/// its text.
pub proof fn lemma_render_widen(t: Layout)
    requires
        t.cells.len() == 0 ==> t.lead < usize::MAX,
        t.cells.len() > 0 ==> t.cells.last().gap < usize::MAX,
    ensures
        render(widen(t)) == render(t).push(' '),
{
    if t.cells.len() == 0 {
        lemma_spaces_push(t.lead as nat);
        assert(render_cells(t.cells) =~= Seq::<char>::empty());
        assert(render(widen(t)) =~= render(t).push(' '));
    } else {
        let last = t.cells.last();
        let wide = widen(t).cells;
        assert(wide.drop_last() =~= t.cells.drop_last());
        assert(wide.last() == cell_of(last.c, (last.gap + 1) as usize, last.kind));
        lemma_spaces_push(last.gap as nat);
        assert(render(widen(t)) =~= render(t).push(' '));
    }
}

/// The layout of a text stands for the text, holds no space in a cell, and
/// counts no more spaces than the text has characters.
pub proof fn lemma_render_parse(s: Seq<char>, kinds: Seq<Kind>)
    requires
        s.len() <= usize::MAX,
    ensures
        render(parse(s, kinds)) == s,
        well_formed(parse(s, kinds)),
        parse(s, kinds).lead <= s.len(),
        forall|k: int|
            0 <= k < parse(s, kinds).cells.len() ==> (#[trigger] parse(s, kinds).cells[k]).gap
                <= s.len(),
        parse(s, kinds).cells.len() <= s.len(),
    decreases s.len(),
{
    let now = parse(s, kinds);
    if s.len() == 0 {
        assert(render(now) =~= s);
    } else {
        let before = parse(s.drop_last(), kinds);
        lemma_render_parse(s.drop_last(), kinds);
        if s.last() == ' ' {
            if before.cells.len() > 0 {
                assert(before.cells.last() == before.cells[before.cells.len() - 1]);
            }
            lemma_render_widen(before);
            assert(s =~= s.drop_last().push(' '));
            assert forall|k: int| 0 <= k < now.cells.len() implies (#[trigger] now.cells[k]).gap
                <= s.len() && now.cells[k].c != ' ' by {
                if k < before.cells.len() - 1 {
                    assert(now.cells[k] == before.cells[k]);
                } else {
                    assert(before.cells[k].c != ' ');
                }
            }
        } else {
            let cells = now.cells;
            assert(cells.drop_last() =~= before.cells);
            assert(spaces(0) =~= Seq::<char>::empty());
            assert(render(now) =~= render(before).push(s.last()));
            assert(s =~= s.drop_last().push(s.last()));
            assert forall|k: int| 0 <= k < cells.len() implies (#[trigger] cells[k]).gap
                <= s.len() && cells[k].c != ' ' by {
                if k < before.cells.len() {
                    assert(cells[k] == before.cells[k]);
                }
            }
        }
    }
}

/// No cell of the layout of a text holds a space.
pub proof fn lemma_parse_well_formed(s: Seq<char>, kinds: Seq<Kind>)
    ensures
        well_formed(parse(s, kinds)),
    decreases s.len(),
{
    if s.len() > 0 {
        let before = parse(s.drop_last(), kinds);
        lemma_parse_well_formed(s.drop_last(), kinds);
        let now = parse(s, kinds);
        assert forall|k: int| 0 <= k < now.cells.len() implies (#[trigger] now.cells[k]).c
            != ' ' by {
            if k < before.cells.len() {
                assert(before.cells[k].c != ' ');
            }
        }
    }
}

/// With the kinds that the tables give, the layout of a text is canonical.
pub proof fn lemma_parse_canonical(s: Seq<char>, kinds: Seq<Kind>)
    requires
        fits(kinds, s),
    ensures
        canonical(parse(s, kinds)),
    decreases s.len(),
{
    if s.len() > 0 {
        let before = parse(s.drop_last(), kinds);
        assert forall|i: int| 0 <= i < s.drop_last().len() implies kind_at(kinds, i) == kind_of(
            #[trigger] s.drop_last()[i],
        ) by {
            assert(s.drop_last()[i] == s[i]);
        }
        lemma_parse_canonical(s.drop_last(), kinds);
        let now = parse(s, kinds);
        assert(kind_at(kinds, s.len() - 1) == kind_of(s[s.len() - 1]));
        assert forall|k: int| 0 <= k < now.cells.len() implies (#[trigger] now.cells[k]).kind
            == canon(now.cells[k].c, kind_of(now.cells[k].c)) by {
            if k < before.cells.len() {
                assert(before.cells[k].kind == canon(before.cells[k].c, kind_of(before.cells[k].c)));
            }
        }
    }
}

/// The layout of a text of spaces.
proof fn lemma_parse_lead(n: usize, kinds: Seq<Kind>)
    ensures
        parse(spaces(n as nat), kinds) == (Layout { lead: n, cells: Seq::empty() }),
    decreases n,
{
    if n == 0 {
    } else {
        let m = (n - 1) as usize;
        lemma_parse_lead(m, kinds);
        lemma_spaces_push(m as nat);
        assert(spaces(n as nat).drop_last() =~= spaces(m as nat));
    }
}

/// The layout of a text that ends with a character and `g` spaces.
proof fn lemma_parse_cell(x: Seq<char>, c: char, g: usize, kinds: Seq<Kind>)
    requires
        c != ' ',
    ensures
        parse(x + seq![c] + spaces(g as nat), kinds) == (Layout {
            lead: parse(x, kinds).lead,
            cells: parse(x, kinds).cells.push(
                cell_of(c, g, canon(c, kind_at(kinds, x.len() as int))),
            ),
        }),
    decreases g,
{
    let kind = canon(c, kind_at(kinds, x.len() as int));
    if g == 0 {
        let s = x + seq![c] + spaces(0);
        assert(s.drop_last() =~= x);
        assert(s.last() == c);
    } else {
        let m = (g - 1) as usize;
        lemma_parse_cell(x, c, m, kinds);
        lemma_spaces_push(m as nat);
        let s = x + seq![c] + spaces(g as nat);
        let shorter = x + seq![c] + spaces(m as nat);
        assert(s.drop_last() =~= shorter);
        assert(s.last() == ' ');
        let before = parse(shorter, kinds);
        assert(before.cells.last() == cell_of(c, m, kind));
        assert(widen(before).cells =~= parse(x, kinds).cells.push(cell_of(c, g, kind)));
    }
}

/// A canonical layout without a space in a cell is the layout of its text.
pub proof fn lemma_parse_render(t: Layout, kinds: Seq<Kind>)
    requires
        well_formed(t),
        canonical(t),
        fits(kinds, render(t)),
    ensures
        parse(render(t), kinds) == t,
    decreases t.cells.len(),
{
    if t.cells.len() == 0 {
        lemma_parse_lead(t.lead, kinds);
        assert(render(t) =~= spaces(t.lead as nat));
        assert(t.cells =~= Seq::<Cell>::empty());
    } else {
        let rest = Layout { lead: t.lead, cells: t.cells.drop_last() };
        let last = t.cells.last();
        assert(last == t.cells[t.cells.len() - 1]);
        assert(render(t) =~= render(rest) + seq![last.c] + spaces(last.gap as nat));
        assert forall|k: int| 0 <= k < rest.cells.len() implies (#[trigger] rest.cells[k]).c
            != ' ' && rest.cells[k].kind == canon(rest.cells[k].c, kind_of(rest.cells[k].c)) by {
            assert(rest.cells[k] == t.cells[k]);
        }
        assert forall|i: int| 0 <= i < render(rest).len() implies kind_at(kinds, i) == kind_of(
            #[trigger] render(rest)[i],
        ) by {
            assert(render(rest)[i] == render(t)[i]);
        }
        lemma_parse_render(rest, kinds);
        let at = render(rest).len() as int;
        assert(render(t)[at] == last.c);
        assert(kind_at(kinds, at) == kind_of(last.c));
        lemma_parse_cell(render(rest), last.c, last.gap, kinds);
        assert(rest.cells.push(last) =~= t.cells);
    }
}

/// The CJK characters of the text of a layout are those of its cells.
pub proof fn lemma_cjk_of_render(t: Layout)
    ensures
        cjk_of(render(t)) == cjk_of(chars_of(t.cells)),
    decreases t.cells.len(),
{
    assert forall|k: int| 0 <= k < spaces(t.lead as nat).len() implies !is_cjk(
        #[trigger] spaces(t.lead as nat)[k],
    ) by {}
    lemma_cjk_of_none(spaces(t.lead as nat));
    if t.cells.len() == 0 {
        assert(render(t) =~= spaces(t.lead as nat));
        assert(chars_of(t.cells) =~= Seq::<char>::empty());
        lemma_cjk_of_none(chars_of(t.cells));
    } else {
        let rest = Layout { lead: t.lead, cells: t.cells.drop_last() };
        let last = t.cells.last();
        lemma_cjk_of_render(rest);
        let tail = spaces(last.gap as nat);
        assert forall|k: int| 0 <= k < tail.len() implies !is_cjk(#[trigger] tail[k]) by {}
        lemma_cjk_of_none(tail);
        lemma_cjk_of_add(render(rest) + seq![last.c], tail);
        lemma_cjk_of_add(render(rest), seq![last.c]);
        assert(render(t) =~= render(rest) + seq![last.c] + tail);
        assert(chars_of(t.cells) =~= chars_of(rest.cells) + seq![last.c]);
        lemma_cjk_of_add(chars_of(rest.cells), seq![last.c]);
        assert(cjk_of(render(t)) =~= cjk_of(chars_of(t.cells)));
    }
}

/// The CJK characters of a text are those of the cells of its layout.
pub proof fn lemma_cjk_of_parse(s: Seq<char>, kinds: Seq<Kind>)
    ensures
        cjk_of(s) == cjk_of(chars_of(parse(s, kinds).cells)),
    decreases s.len(),
{
    if s.len() == 0 {
        assert(chars_of(parse(s, kinds).cells) =~= s);
    } else {
        let before = parse(s.drop_last(), kinds);
        lemma_cjk_of_parse(s.drop_last(), kinds);
        assert(s =~= s.drop_last() + seq![s.last()]);
        lemma_cjk_of_add(s.drop_last(), seq![s.last()]);
        lemma_cjk_of_one(s.last());
        if s.last() == ' ' {
            assert(chars_of(parse(s, kinds).cells) =~= chars_of(before.cells));
            assert(cjk_of(s.drop_last()) + Seq::<char>::empty() =~= cjk_of(s.drop_last()));
        } else {
            assert(chars_of(parse(s, kinds).cells) =~= chars_of(before.cells) + seq![s.last()]);
            lemma_cjk_of_add(chars_of(before.cells), seq![s.last()]);
        }
    }
}

/// The layout of `text`, whose characters are of the kinds `kinds`.
pub fn parse_text(text: &Vec<char>, kinds: &Vec<Kind>) -> (r: Cells)
    requires
        kinds.len() == text.len(),
    ensures
        r@ == parse(text@, kinds@),
        well_formed(r@),
{
    let mut lead: usize = 0;
    let mut cells: Vec<Cell> = Vec::new();
    let mut i: usize = 0;
    proof {
        assert(text@.take(0) =~= Seq::<char>::empty());
        lemma_render_parse(text@.take(0), kinds@);
    }
    while i < text.len()
        invariant
            i <= text.len(),
            kinds.len() == text.len(),
            (Layout { lead, cells: cells@ }) == parse(text@.take(i as int), kinds@),
        decreases text.len() - i,
    {
        let c = text[i];
        proof {
            let now = text@.take(i + 1);
            assert(now.drop_last() =~= text@.take(i as int));
            assert(now.last() == c);
            lemma_render_parse(text@.take(i as int), kinds@);
        }
        if c == ' ' {
            if cells.len() == 0 {
                lead = lead + 1;
            } else {
                let n = cells.len() - 1;
                let last = cells[n];
                cells.set(n, Cell { c: last.c, gap: last.gap + 1, kind: last.kind });
            }
        } else {
            let kind = if reserved(c) {
                Kind { script: false, word: false }
            } else {
                kinds[i]
            };
            cells.push(Cell { c, gap: 0, kind });
        }
        i = i + 1;
    }
    proof {
        assert(text@.take(i as int) =~= text@);
        lemma_render_parse(text@, kinds@);
    }
    Cells { lead, cells }
}

fn push_spaces(out: &mut Vec<char>, n: usize)
    ensures
        final(out)@ == old(out)@ + spaces(n as nat),
{
    let mut k: usize = 0;
    proof {
        assert(out@ =~= old(out)@ + spaces(0));
    }
    while k < n
        invariant
            k <= n,
            out@ == old(out)@ + spaces(k as nat),
        decreases n - k,
    {
        out.push(' ');
        proof {
            lemma_spaces_push(k as nat);
            assert(out@ =~= old(out)@ + spaces((k + 1) as nat));
        }
        k = k + 1;
    }
}

/// The text that `t` stands for.
pub fn render_text(t: &Cells) -> (out: Vec<char>)
    ensures
        out@ == render(t@),
{
    let mut out: Vec<char> = Vec::new();
    push_spaces(&mut out, t.lead);
    let ghost head = out@;
    let mut k: usize = 0;
    proof {
        assert(t.cells@.take(0) =~= Seq::<Cell>::empty());
        assert(out@ =~= head + render_cells(t.cells@.take(0)));
    }
    while k < t.cells.len()
        invariant
            k <= t.cells.len(),
            head == spaces(t.lead as nat),
            out@ == head + render_cells(t.cells@.take(k as int)),
        decreases t.cells.len() - k,
    {
        let cell = t.cells[k];
        let ghost before = out@;
        out.push(cell.c);
        push_spaces(&mut out, cell.gap);
        proof {
            let now = t.cells@.take(k + 1);
            assert(now.drop_last() =~= t.cells@.take(k as int));
            assert(now.last() == cell);
            assert(out@ =~= head + render_cells(now));
        }
        k = k + 1;
    }
    proof {
        assert(t.cells@.take(k as int) =~= t.cells@);
    }
    out
}

} // verus!
