//! Character classes and character mappings of the rewriting rules.

use vstd::prelude::*;
use crate::unicode::{in_cjk_script, in_word_class, Classes};

verus! {

pub open spec fn is_ascii_letter(c: char) -> bool {
    ('a' <= c && c <= 'z') || ('A' <= c && c <= 'Z')
}

pub open spec fn is_ascii_digit(c: char) -> bool {
    '0' <= c && c <= '9'
}

/// A full-width digit or Latin letter (U+FF10 to U+FF19, U+FF21 to U+FF3A,
/// U+FF41 to U+FF5A).
pub open spec fn is_fullwidth_alnum(c: char) -> bool {
    ('\u{ff10}' <= c && c <= '\u{ff19}') || ('\u{ff21}' <= c && c <= '\u{ff3a}') || ('\u{ff41}'
        <= c && c <= '\u{ff5a}')
}

/// A letter or digit, half-width or full-width.
pub open spec fn is_alnum_like(c: char) -> bool {
    is_ascii_letter(c) || is_ascii_digit(c) || is_fullwidth_alnum(c)
}

pub open spec fn is_line_break(c: char) -> bool {
    c == '\n' || c == '\r'
}

/// The half-width sentence punctuation that has a full-width counterpart.
pub open spec fn is_sentence_mark(c: char) -> bool {
    c == ',' || c == '.' || c == '!' || c == '?' || c == ':' || c == ';'
}

/// Full-width closing punctuation.
pub open spec fn is_fullwidth_close(c: char) -> bool {
    c == '，' || c == '。' || c == '！' || c == '？' || c == '：' || c == '；' || c == '）' || c
        == '」' || c == '》' || c == '】' || c == '”' || c == '’'
}

/// Full-width opening punctuation.
pub open spec fn is_fullwidth_open(c: char) -> bool {
    c == '‘' || c == '“' || c == '【' || c == '「' || c == '《' || c == '（'
}

/// Full-width opening brackets.
pub open spec fn is_open_bracket(c: char) -> bool {
    c == '（' || c == '【' || c == '「' || c == '《'
}

/// Full-width closing brackets.
pub open spec fn is_close_bracket(c: char) -> bool {
    c == '）' || c == '】' || c == '」' || c == '》'
}

/// Characters that are never counted as CJK letters, whatever their script:
/// ASCII, the full-width forms of ASCII (U+FF01 to U+FF5E), and the
/// full-width punctuation that the rules name.
pub open spec fn is_reserved(c: char) -> bool {
    c <= '\u{7f}' || ('\u{ff01}' <= c && c <= '\u{ff5e}') || is_fullwidth_close(c)
        || is_fullwidth_open(c)
}

/// What the script and word tables say of a character.
#[derive(Clone, Copy, Debug, PartialEq, Eq, Structural)]
pub struct Kind {
    /// The character belongs to one of the scripts Han, Hangul, Hanunoo,
    /// Katakana, Hiragana or Bopomofo.
    pub script: bool,
    /// The character belongs to the word class.
    pub word: bool,
}

/// The kind of a character of which the tables are not asked.
pub open spec fn no_kind() -> Kind {
    Kind { script: false, word: false }
}

/// What the tables say of `c`.
pub open spec fn kind_of(c: char) -> Kind {
    Kind { script: in_cjk_script(c), word: in_word_class(c) }
}

/// What the tables say of each character of `s`.
pub open spec fn kinds_of(s: Seq<char>) -> Seq<Kind> {
    Seq::new(s.len(), |i: int| kind_of(s[i]))
}

/// The kind that is kept of a character: none for a reserved character,
/// whatever the tables say of it.
pub open spec fn canon(c: char, kind: Kind) -> Kind {
    if is_reserved(c) {
        no_kind()
    } else {
        kind
    }
}

/// Whether a character of kind `kind` is a CJK character: it is not
/// reserved, and it belongs to one of the six scripts.
pub open spec fn cjk_kind(c: char, kind: Kind) -> bool {
    !is_reserved(c) && kind.script
}

/// Whether a character of kind `kind` is a word character or a CJK
/// character. In ASCII the word characters are the letters, the digits and
/// `_`; beyond it they are those of the word class that are not reserved.
pub open spec fn word_kind(c: char, kind: Kind) -> bool {
    is_ascii_letter(c) || is_ascii_digit(c) || c == '_' || (!is_reserved(c) && (kind.script
        || kind.word))
}

/// A CJK character: one of the scripts Han, Hangul, Hanunoo, Katakana,
/// Hiragana or Bopomofo, and not reserved.
pub open spec fn is_cjk(c: char) -> bool {
    cjk_kind(c, kind_of(c))
}

/// A word character or a CJK character.
pub open spec fn is_word_or_cjk(c: char) -> bool {
    word_kind(c, kind_of(c))
}

/// The full-width counterpart of a sentence mark; other characters are kept.
pub open spec fn to_fullwidth(c: char) -> char {
    if c == ',' {
        '，'
    } else if c == '.' {
        '。'
    } else if c == '!' {
        '！'
    } else if c == '?' {
        '？'
    } else if c == ':' {
        '：'
    } else if c == ';' {
        '；'
    } else {
        c
    }
}

/// The half-width counterpart of a full-width digit or letter, which lies
/// 0xFEE0 code points below it; other characters are kept.
pub open spec fn to_halfwidth(c: char) -> char {
    if is_fullwidth_alnum(c) {
        ((c as u32 - 0xfee0) as u8) as char
    } else {
        c
    }
}

pub fn ascii_letter(c: char) -> (r: bool)
    ensures
        r == is_ascii_letter(c),
{
    ('a' <= c && c <= 'z') || ('A' <= c && c <= 'Z')
}

pub fn ascii_digit(c: char) -> (r: bool)
    ensures
        r == is_ascii_digit(c),
{
    '0' <= c && c <= '9'
}

pub fn fullwidth_alnum(c: char) -> (r: bool)
    ensures
        r == is_fullwidth_alnum(c),
{
    ('\u{ff10}' <= c && c <= '\u{ff19}') || ('\u{ff21}' <= c && c <= '\u{ff3a}') || ('\u{ff41}'
        <= c && c <= '\u{ff5a}')
}

pub fn alnum_like(c: char) -> (r: bool)
    ensures
        r == is_alnum_like(c),
{
    ascii_letter(c) || ascii_digit(c) || fullwidth_alnum(c)
}

pub fn line_break(c: char) -> (r: bool)
    ensures
        r == is_line_break(c),
{
    c == '\n' || c == '\r'
}

pub fn sentence_mark(c: char) -> (r: bool)
    ensures
        r == is_sentence_mark(c),
{
    c == ',' || c == '.' || c == '!' || c == '?' || c == ':' || c == ';'
}

pub fn fullwidth_close(c: char) -> (r: bool)
    ensures
        r == is_fullwidth_close(c),
{
    c == '，' || c == '。' || c == '！' || c == '？' || c == '：' || c == '；' || c == '）' || c
        == '」' || c == '》' || c == '】' || c == '”' || c == '’'
}

pub fn fullwidth_open(c: char) -> (r: bool)
    ensures
        r == is_fullwidth_open(c),
{
    c == '‘' || c == '“' || c == '【' || c == '「' || c == '《' || c == '（'
}

pub fn open_bracket(c: char) -> (r: bool)
    ensures
        r == is_open_bracket(c),
{
    c == '（' || c == '【' || c == '「' || c == '《'
}

pub fn close_bracket(c: char) -> (r: bool)
    ensures
        r == is_close_bracket(c),
{
    c == '）' || c == '】' || c == '」' || c == '》'
}

pub fn reserved(c: char) -> (r: bool)
    ensures
        r == is_reserved(c),
{
    c <= '\u{7f}' || ('\u{ff01}' <= c && c <= '\u{ff5e}') || fullwidth_close(c) || fullwidth_open(
        c,
    )
}

/// What the tables say of `c`.
pub fn kind(classes: &Classes, c: char) -> (r: Kind)
    requires
        classes.wf(),
    ensures
        r == kind_of(c),
{
    Kind { script: classes.cjk_script(c), word: classes.word_class(c) }
}

/// What the tables say of each character of `text`.
pub fn classify(classes: &Classes, text: &Vec<char>) -> (kinds: Vec<Kind>)
    requires
        classes.wf(),
    ensures
        kinds@ == kinds_of(text@),
{
    let mut kinds: Vec<Kind> = Vec::new();
    let mut i: usize = 0;
    while i < text.len()
        invariant
            classes.wf(),
            i <= text.len(),
            kinds@.len() == i,
            forall|j: int| 0 <= j < i ==> kinds@[j] == kind_of(text@[j]),
        decreases text.len() - i,
    {
        kinds.push(kind(classes, text[i]));
        i = i + 1;
    }
    proof {
        assert(kinds@ =~= kinds_of(text@));
    }
    kinds
}

/// Whether a character of kind `kind` is a CJK character.
pub fn is_cjk_kind(c: char, kind: Kind) -> (r: bool)
    ensures
        r == cjk_kind(c, kind),
{
    !reserved(c) && kind.script
}

/// Whether a character of kind `kind` is a word character or a CJK
/// character.
pub fn is_word_kind(c: char, kind: Kind) -> (r: bool)
    ensures
        r == word_kind(c, kind),
{
    ascii_letter(c) || ascii_digit(c) || c == '_' || (!reserved(c) && (kind.script || kind.word))
}

/// Whether `c` is a CJK character.
pub fn cjk(classes: &Classes, c: char) -> (r: bool)
    requires
        classes.wf(),
    ensures
        r == is_cjk(c),
{
    is_cjk_kind(c, kind(classes, c))
}

/// Whether `c` is a word character or a CJK character.
pub fn word_or_cjk(classes: &Classes, c: char) -> (r: bool)
    requires
        classes.wf(),
    ensures
        r == is_word_or_cjk(c),
{
    is_word_kind(c, kind(classes, c))
}

pub fn fullwidth_of(c: char) -> (r: char)
    ensures
        r == to_fullwidth(c),
{
    if c == ',' {
        '，'
    } else if c == '.' {
        '。'
    } else if c == '!' {
        '！'
    } else if c == '?' {
        '？'
    } else if c == ':' {
        '：'
    } else if c == ';' {
        '；'
    } else {
        c
    }
}

pub fn halfwidth_of(c: char) -> (r: char)
    ensures
        r == to_halfwidth(c),
{
    if fullwidth_alnum(c) {
        let n: u32 = c as u32 - 0xfee0;
        let b: u8 = n as u8;
        b as char
    } else {
        c
    }
}

} // verus!
