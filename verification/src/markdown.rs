//! Markdown: code blocks, inline code, link targets and embedded tags are
//! code; everything else is prose, one span for each piece of a line.

use vstd::prelude::*;
use crate::html::tag_opens;
use crate::charset::ascii_letter;
use crate::lex::{find_char, lemma_find_char, line_end, position_of, starts, starts_with};
use crate::scan::{after_spaces, skip_spaces};
use crate::span::SpanKind;
use crate::token::{body_tok, body_token, code_tok, code_token, token_fits, Tok, Token};

verus! {

pub open spec fn backticks() -> Seq<char> {
    seq!['`', '`', '`']
}

pub open spec fn tildes() -> Seq<char> {
    seq!['~', '~', '~']
}

pub open spec fn link_middle() -> Seq<char> {
    seq![']', '(']
}

pub open spec fn indent() -> Seq<char> {
    seq![' ', ' ', ' ', ' ']
}

/// Whether a line starts at `i`.
pub open spec fn at_line_start(s: Seq<char>, i: int) -> bool {
    i == 0 || (0 < i <= s.len() && s[i - 1] == '\n')
}

/// Whether the line that starts at `i` is a fence of `mark`: at most three
/// spaces, then the mark.
pub open spec fn fence_at(s: Seq<char>, i: int, mark: Seq<char>) -> bool {
    at_line_start(s, i) && skip_spaces(s, i) - i < 4 && starts(s, skip_spaces(s, i), mark)
}

/// The start of the first line at or after `i` that is a fence of `mark`,
/// or the length.
pub open spec fn find_fence(s: Seq<char>, i: int, mark: Seq<char>) -> int
    decreases s.len() - i,
{
    if 0 <= i < s.len() {
        if fence_at(s, i, mark) {
            i
        } else {
            find_fence(s, i + 1, mark)
        }
    } else {
        s.len() as int
    }
}

/// The position behind the line that holds `i`: behind its line feed, or
/// the length.
pub open spec fn next_line(s: Seq<char>, i: int) -> int {
    let e = line_end(s, i);
    if e < s.len() {
        e + 1
    } else {
        s.len() as int
    }
}

/// A fenced block that opens with the line at `i`: it runs to the end of
/// the next line that is a fence of the same mark, or to the end of the
/// document.
pub open spec fn fenced(s: Seq<char>, i: int, mark: Seq<char>) -> Token {
    code_token(i, next_line(s, find_fence(s, next_line(s, i), mark)))
}

/// Whether the character at `i` ends a piece of prose: it may start inline
/// code, a tag or a link target, or it starts a line.
pub open spec fn breaks_text(s: Seq<char>, i: int) -> bool {
    s[i] == '`' || s[i] == '<' || s[i] == ']' || s[i - 1] == '\n'
}

/// The end of the piece of prose that holds `i - 1`.
pub open spec fn text_end(s: Seq<char>, i: int) -> int
    decreases s.len() - i,
{
    if 0 < i < s.len() && !breaks_text(s, i) {
        text_end(s, i + 1)
    } else if i <= 0 || i > s.len() {
        s.len() as int
    } else {
        i
    }
}

/// Whether a fenced block opens with the line at `i`: the line is a fence
/// of backticks or of tildes.
pub open spec fn opens_block(s: Seq<char>, i: int) -> bool {
    fence_at(s, i, backticks()) || fence_at(s, i, tildes())
}

/// The position behind the fenced block that opens with the line at `i`.
pub open spec fn block_end(s: Seq<char>, i: int) -> int {
    markdown_token(s, i).end
}

/// A fenced block lies inside the document and is not empty.
pub proof fn lemma_block_fits(s: Seq<char>, i: int)
    requires
        0 <= i < s.len(),
        opens_block(s, i),
    ensures
        i < block_end(s, i) <= s.len(),
        markdown_token(s, i) == code_token(i, block_end(s, i)),
{
    let mark = if fence_at(s, i, backticks()) {
        backticks()
    } else {
        tildes()
    };
    lemma_find_char(s, i, '\n');
    let body = next_line(s, i);
    lemma_find_fence(s, body, mark);
    let close = find_fence(s, body, mark);
    lemma_find_char(s, close, '\n');
}

pub proof fn lemma_find_fence(s: Seq<char>, i: int, mark: Seq<char>)
    requires
        0 <= i <= s.len(),
    ensures
        i <= find_fence(s, i, mark) <= s.len(),
    decreases s.len() - i,
{
    if i < s.len() && !fence_at(s, i, mark) {
        lemma_find_fence(s, i + 1, mark);
    }
}

/// The Markdown token that starts at `i`.
pub open spec fn markdown_token(s: Seq<char>, i: int) -> Token {
    if fence_at(s, i, backticks()) {
        fenced(s, i, backticks())
    } else if fence_at(s, i, tildes()) {
        fenced(s, i, tildes())
    } else if at_line_start(s, i) && (starts(s, i, indent()) || s[i] == '\t') {
        code_token(i, next_line(s, i))
    } else if s[i] == '`' && find_char(s, i + 1, '`') < line_end(s, i) {
        code_token(i, find_char(s, i + 1, '`') + 1)
    } else if tag_opens(s, i) && find_char(s, i + 1, '>') < line_end(s, i) {
        code_token(i, find_char(s, i + 1, '>') + 1)
    } else if starts(s, i, link_middle()) && find_char(s, i + 2, ')') < line_end(s, i) {
        code_token(i, find_char(s, i + 2, ')') + 1)
    } else {
        body_token(SpanKind::Text, i, text_end(s, i + 1))
    }
}

fn line_starts(raw: &Vec<char>, i: usize) -> (r: bool)
    requires
        i <= raw.len(),
    ensures
        r == at_line_start(raw@, i as int),
{
    i == 0 || raw[i - 1] == '\n'
}

fn is_fence(raw: &Vec<char>, i: usize, mark: &[char]) -> (r: bool)
    requires
        i <= raw.len(),
    ensures
        r == fence_at(raw@, i as int, mark@),
{
    if !line_starts(raw, i) {
        return false;
    }
    let j = after_spaces(raw, i);
    j - i < 4 && starts_with(raw, j, mark)
}

fn position_of_fence(raw: &Vec<char>, i: usize, mark: &[char]) -> (j: usize)
    requires
        i <= raw.len(),
    ensures
        j == find_fence(raw@, i as int, mark@),
        i <= j <= raw.len(),
{
    let mut j: usize = i;
    while j < raw.len() && !is_fence(raw, j, mark)
        invariant
            i <= j <= raw.len(),
            find_fence(raw@, j as int, mark@) == find_fence(raw@, i as int, mark@),
        decreases raw.len() - j,
    {
        j = j + 1;
    }
    j
}

fn position_of_next_line(raw: &Vec<char>, i: usize) -> (j: usize)
    requires
        i <= raw.len(),
    ensures
        j == next_line(raw@, i as int),
        i <= j <= raw.len(),
        i < raw.len() ==> i < j,
{
    let e = position_of(raw, i, '\n');
    if e < raw.len() {
        e + 1
    } else {
        raw.len()
    }
}

fn fenced_tok(raw: &Vec<char>, i: usize, mark: &[char]) -> (t: Tok)
    requires
        i < raw.len(),
    ensures
        t@ == fenced(raw@, i as int, mark@),
        token_fits(t@, i as int, raw@.len() as int),
{
    let body = position_of_next_line(raw, i);
    let close = position_of_fence(raw, body, mark);
    let end = position_of_next_line(raw, close);
    code_tok(i, end)
}

fn end_of_text(raw: &Vec<char>, i: usize) -> (j: usize)
    requires
        0 < i <= raw.len(),
    ensures
        j == text_end(raw@, i as int),
        i <= j <= raw.len(),
{
    let mut j: usize = i;
    while j < raw.len() && !(raw[j] == '`' || raw[j] == '<' || raw[j] == ']' || raw[j - 1]
        == '\n')
        invariant
            0 < i <= j <= raw.len(),
            text_end(raw@, j as int) == text_end(raw@, i as int),
        decreases raw.len() - j,
    {
        j = j + 1;
    }
    j
}

/// The Markdown token that starts at `i`.
pub fn markdown_tok(raw: &Vec<char>, i: usize) -> (t: Tok)
    requires
        i < raw.len(),
    ensures
        t@ == markdown_token(raw@, i as int),
        token_fits(t@, i as int, raw@.len() as int),
{
    let backticks: [char; 3] = ['`', '`', '`'];
    let tildes: [char; 3] = ['~', '~', '~'];
    let link_middle: [char; 2] = [']', '('];
    let indent: [char; 4] = [' ', ' ', ' ', ' '];
    proof {
        assert(backticks@ =~= self::backticks());
        assert(tildes@ =~= self::tildes());
        assert(link_middle@ =~= self::link_middle());
        assert(indent@ =~= self::indent());
    }
    let c = raw[i];
    let eol = position_of(raw, i, '\n');
    if is_fence(raw, i, backticks.as_slice()) {
        return fenced_tok(raw, i, backticks.as_slice());
    }
    if is_fence(raw, i, tildes.as_slice()) {
        return fenced_tok(raw, i, tildes.as_slice());
    }
    if line_starts(raw, i) && (starts_with(raw, i, indent.as_slice()) || c == '\t') {
        let end = position_of_next_line(raw, i);
        return code_tok(i, end);
    }
    if c == '`' {
        let close = position_of(raw, i + 1, '`');
        if close < eol {
            return code_tok(i, close + 1);
        }
    }
    if c == '<' && i + 1 < raw.len() && (ascii_letter(raw[i + 1]) || raw[i + 1] == '/' || raw[i
        + 1] == '!' || raw[i + 1] == '?') {
        let close = position_of(raw, i + 1, '>');
        if close < eol {
            return code_tok(i, close + 1);
        }
    }
    if starts_with(raw, i, link_middle.as_slice()) {
        let close = position_of(raw, i + 2, ')');
        if close < eol {
            return code_tok(i, close + 1);
        }
    }
    let end = end_of_text(raw, i + 1);
    body_tok(SpanKind::Text, i, end)
}

} // verus!
