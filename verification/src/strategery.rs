//! Spacing rules between two character classes.

use vstd::prelude::*;
use crate::cells::{cell_cjk, cell_of, cell_word, Cell};
use crate::charset::{
    ascii_digit, ascii_letter, fullwidth_close, fullwidth_open, is_ascii_digit, is_ascii_letter,
    is_cjk_kind, is_fullwidth_close, is_fullwidth_open, is_word_kind,
};

verus! {

/// The character classes that the rules are made of.
#[derive(Clone, Copy, Debug, PartialEq, Eq, Structural)]
pub enum CharClass {
    /// A CJK character.
    Cjk,
    /// `a` to `z`, `A` to `Z`.
    Letter,
    /// `0` to `9`.
    Digit,
    /// One of `| + *`.
    Operator,
    /// `@`.
    At,
    /// One of `[ ( ‘ “`.
    Opening,
    /// One of `’ ” ] ) ! %`.
    Closing,
    /// A word character or a CJK character.
    Word,
    /// Full-width closing punctuation.
    FullwidthClosing,
    /// Full-width opening punctuation.
    FullwidthOpening,
}

pub open spec fn is_operator(c: char) -> bool {
    c == '|' || c == '+' || c == '*'
}

pub open spec fn is_opening(c: char) -> bool {
    c == '[' || c == '(' || c == '‘' || c == '“'
}

pub open spec fn is_closing(c: char) -> bool {
    c == '’' || c == '”' || c == ']' || c == ')' || c == '!' || c == '%'
}

/// Whether the character of `cell` belongs to `class`.
pub open spec fn class_has(class: CharClass, cell: Cell) -> bool {
    match class {
        CharClass::Cjk => cell_cjk(cell),
        CharClass::Letter => is_ascii_letter(cell.c),
        CharClass::Digit => is_ascii_digit(cell.c),
        CharClass::Operator => is_operator(cell.c),
        CharClass::At => cell.c == '@',
        CharClass::Opening => is_opening(cell.c),
        CharClass::Closing => is_closing(cell.c),
        CharClass::Word => cell_word(cell),
        CharClass::FullwidthClosing => is_fullwidth_close(cell.c),
        CharClass::FullwidthOpening => is_fullwidth_open(cell.c),
    }
}

/// Whether the character of `cell` belongs to `class`.
pub fn in_class(class: CharClass, cell: Cell) -> (r: bool)
    ensures
        r == class_has(class, cell),
{
    let c = cell.c;
    match class {
        CharClass::Cjk => is_cjk_kind(c, cell.kind),
        CharClass::Letter => ascii_letter(c),
        CharClass::Digit => ascii_digit(c),
        CharClass::Operator => c == '|' || c == '+' || c == '*',
        CharClass::At => c == '@',
        CharClass::Opening => c == '[' || c == '(' || c == '‘' || c == '“',
        CharClass::Closing => c == '’' || c == '”' || c == ']' || c == ')' || c == '!' || c
            == '%',
        CharClass::Word => is_word_kind(c, cell.kind),
        CharClass::FullwidthClosing => fullwidth_close(c),
        CharClass::FullwidthOpening => fullwidth_open(c),
    }
}

/// A spacing rule. With `space`, a character of `left` directly followed by
/// one of `right` gets a single space between the two; without it, the
/// spaces between a character of `left` and a following one of `right` are
/// removed. With `reverse` the rule also holds mirrored, for a character of
/// `right` followed by one of `left`.
#[derive(Clone, Copy, Debug)]
pub struct Strategery {
    pub left: CharClass,
    pub right: CharClass,
    pub space: bool,
    pub reverse: bool,
}

impl Strategery {
    pub fn new(left: CharClass, right: CharClass, space: bool, reverse: bool) -> (r: Strategery)
        ensures
            r == (Strategery { left, right, space, reverse }),
    {
        Strategery { left, right, space, reverse }
    }

    /// Whether the rule speaks of `a` followed by `b`.
    pub open spec fn pairs(&self, a: Cell, b: Cell) -> bool {
        (class_has(self.left, a) && class_has(self.right, b)) || (self.reverse && class_has(
            self.right,
            a,
        ) && class_has(self.left, b))
    }

    /// The cell at `k` after the rule. Where the rule speaks of its
    /// character and the next one, a rule that adds spaces sets one space
    /// between the two if there is none, and a rule that removes them
    /// leaves none; any other cell is kept.
    pub open spec fn cell(&self, cells: Seq<Cell>, k: int) -> Cell {
        if k + 1 < cells.len() && self.pairs(cells[k], cells[k + 1]) {
            if !self.space {
                cell_of(cells[k].c, 0, cells[k].kind)
            } else if cells[k].gap == 0 {
                cell_of(cells[k].c, 1, cells[k].kind)
            } else {
                cells[k]
            }
        } else {
            cells[k]
        }
    }

    /// The cells after the rule.
    pub open spec fn format_spec(&self, cells: Seq<Cell>) -> Seq<Cell> {
        Seq::new(cells.len(), |k: int| self.cell(cells, k))
    }

    fn pair(&self, a: Cell, b: Cell) -> (r: bool)
        ensures
            r == self.pairs(a, b),
    {
        (in_class(self.left, a) && in_class(self.right, b)) || (self.reverse && in_class(
            self.right,
            a,
        ) && in_class(self.left, b))
    }

    /// Applies the rule to `cells`.
    pub fn format(&self, cells: &Vec<Cell>) -> (out: Vec<Cell>)
        ensures
            out@ == self.format_spec(cells@),
    {
        let mut out: Vec<Cell> = Vec::new();
        let mut k: usize = 0;
        while k < cells.len()
            invariant
                k <= cells.len(),
                out@.len() == k,
                forall|j: int| 0 <= j < k ==> out@[j] == self.cell(cells@, j),
            decreases cells.len() - k,
        {
            let cell = cells[k];
            if k + 1 < cells.len() && self.pair(cell, cells[k + 1]) {
                if !self.space {
                    out.push(Cell { c: cell.c, gap: 0, kind: cell.kind });
                } else if cell.gap == 0 {
                    out.push(Cell { c: cell.c, gap: 1, kind: cell.kind });
                } else {
                    out.push(cell);
                }
            } else {
                out.push(cell);
            }
            k = k + 1;
        }
        proof {
            assert(out@ =~= self.format_spec(cells@));
        }
        out
    }
}

/// The rules of the plain-text engine, in the order in which they are
/// applied.
pub open spec fn strategies_spec() -> Seq<Strategery> {
    seq![
        Strategery { left: CharClass::Cjk, right: CharClass::Letter, space: true, reverse: true },
        Strategery { left: CharClass::Cjk, right: CharClass::Digit, space: true, reverse: true },
        Strategery {
            left: CharClass::Cjk,
            right: CharClass::Operator,
            space: true,
            reverse: true,
        },
        Strategery { left: CharClass::Cjk, right: CharClass::At, space: true, reverse: false },
        Strategery {
            left: CharClass::Cjk,
            right: CharClass::Opening,
            space: true,
            reverse: false,
        },
        Strategery {
            left: CharClass::Closing,
            right: CharClass::Cjk,
            space: true,
            reverse: false,
        },
        Strategery {
            left: CharClass::Word,
            right: CharClass::FullwidthClosing,
            space: false,
            reverse: false,
        },
        Strategery {
            left: CharClass::FullwidthOpening,
            right: CharClass::Word,
            space: false,
            reverse: false,
        },
    ]
}

/// The rules of the plain-text engine.
pub fn strategies() -> (rules: Vec<Strategery>)
    ensures
        rules@ == strategies_spec(),
{
    let mut rules: Vec<Strategery> = Vec::new();
    rules.push(Strategery::new(CharClass::Cjk, CharClass::Letter, true, true));
    rules.push(Strategery::new(CharClass::Cjk, CharClass::Digit, true, true));
    rules.push(Strategery::new(CharClass::Cjk, CharClass::Operator, true, true));
    rules.push(Strategery::new(CharClass::Cjk, CharClass::At, true, false));
    rules.push(Strategery::new(CharClass::Cjk, CharClass::Opening, true, false));
    rules.push(Strategery::new(CharClass::Closing, CharClass::Cjk, true, false));
    rules.push(Strategery::new(CharClass::Word, CharClass::FullwidthClosing, false, false));
    rules.push(Strategery::new(CharClass::FullwidthOpening, CharClass::Word, false, false));
    proof {
        assert(rules@ =~= strategies_spec());
    }
    rules
}

/// `s` after the rules `rules[from..]`, applied in order.
pub open spec fn apply_from(rules: Seq<Strategery>, from: int, s: Seq<Cell>) -> Seq<Cell>
    decreases rules.len() - from,
{
    if 0 <= from < rules.len() {
        apply_from(rules, from + 1, rules[from].format_spec(s))
    } else {
        s
    }
}

/// `s` after all of `rules`, applied in order.
pub open spec fn apply_spec(rules: Seq<Strategery>, s: Seq<Cell>) -> Seq<Cell> {
    apply_from(rules, 0, s)
}

/// Applies `rules` to `text`, in order.
pub fn apply(rules: &Vec<Strategery>, text: Vec<Cell>) -> (out: Vec<Cell>)
    ensures
        out@ == apply_spec(rules@, text@),
{
    let mut out = text;
    let mut k: usize = 0;
    while k < rules.len()
        invariant
            k <= rules.len(),
            apply_from(rules@, k as int, out@) == apply_spec(rules@, text@),
        decreases rules.len() - k,
    {
        out = rules[k].format(&out);
        k = k + 1;
    }
    out
}

} // verus!
