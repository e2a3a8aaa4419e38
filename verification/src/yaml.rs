//! YAML: keys are code, comments are prose, and a value is prose where it
//! holds a CJK character.

use vstd::prelude::*;
use crate::charset::Kind;
use crate::code::{
    closing_quote, find_quote, is_blank, line_comment, line_comment_tok, literal, literal_tok,
    Dialect,
};
use crate::scan::{after_spaces, any_cjk, range_has_cjk, skip_spaces};
use crate::span::SpanKind;
use crate::token::{body_tok, body_token, code_tok, code_token, token_fits, Tok, Token};

verus! {

/// The dialect of quoted scalars: a quoted scalar followed by `:` is a key.
pub open spec fn yaml_dialect() -> Dialect {
    Dialect {
        slash_comment: false,
        hash_comment: true,
        dash_comment: false,
        block_comment: false,
        double_quote: true,
        single_quote: true,
        backtick: false,
        triple_quote: false,
        colon_keys: true,
        equals_keys: false,
    }
}

/// Whether a comment starts at `i`: a `#` at the start of the document or
/// behind a blank.
pub open spec fn comment_at(s: Seq<char>, i: int) -> bool {
    0 <= i < s.len() && s[i] == '#' && (i == 0 || is_blank(s[i - 1]))
}

/// The end of the scalar that holds `i - 1`: the end of the line, or the
/// start of a comment.
pub open spec fn scalar_end(s: Seq<char>, i: int) -> int
    decreases s.len() - i,
{
    if 0 < i < s.len() && s[i] != '\n' && !comment_at(s, i) {
        scalar_end(s, i + 1)
    } else if i <= 0 || i > s.len() {
        s.len() as int
    } else {
        i
    }
}

/// Whether the character at `i` is the colon behind a key: a `:` followed
/// by a blank or by the end of the document.
pub open spec fn key_colon_at(s: Seq<char>, i: int) -> bool {
    0 <= i < s.len() && s[i] == ':' && (i + 1 == s.len() || is_blank(s[i + 1]))
}

/// The position of the first colon behind a key in `i..end`, or `end`.
pub open spec fn find_key_colon(s: Seq<char>, i: int, end: int) -> int
    decreases end - i,
{
    if 0 <= i < end {
        if key_colon_at(s, i) {
            i
        } else {
            find_key_colon(s, i + 1, end)
        }
    } else {
        end
    }
}

/// The YAML token that starts at `i`.
pub open spec fn yaml_token(s: Seq<char>, kinds: Seq<Kind>, i: int) -> Token {
    if comment_at(s, i) {
        line_comment(s, i, 1)
    } else if s[i] == '"' || s[i] == '\'' {
        literal(yaml_dialect(), s, kinds, i, 1, find_quote(s, i + 1, s[i]))
    } else if s[i] == '\n' {
        code_token(i, i + 1)
    } else {
        let end = scalar_end(s, i + 1);
        let colon = find_key_colon(s, i, end);
        if colon < end {
            code_token(i, skip_spaces(s, colon + 1))
        } else if any_cjk(s.subrange(i, end), kinds.subrange(i, end)) {
            body_token(SpanKind::InlineString, i, end)
        } else {
            code_token(i, end)
        }
    }
}

fn blank(c: char) -> (r: bool)
    ensures
        r == is_blank(c),
{
    c == ' ' || c == '\t' || c == '\n' || c == '\r'
}

fn is_comment(raw: &Vec<char>, i: usize) -> (r: bool)
    requires
        i < raw.len(),
    ensures
        r == comment_at(raw@, i as int),
{
    raw[i] == '#' && (i == 0 || blank(raw[i - 1]))
}

fn end_of_scalar(raw: &Vec<char>, i: usize) -> (j: usize)
    requires
        0 < i <= raw.len(),
    ensures
        j == scalar_end(raw@, i as int),
        i <= j <= raw.len(),
{
    let mut j: usize = i;
    while j < raw.len() && raw[j] != '\n' && !is_comment(raw, j)
        invariant
            0 < i <= j <= raw.len(),
            scalar_end(raw@, j as int) == scalar_end(raw@, i as int),
        decreases raw.len() - j,
    {
        j = j + 1;
    }
    j
}

fn position_of_key_colon(raw: &Vec<char>, i: usize, end: usize) -> (j: usize)
    requires
        i <= end <= raw.len(),
    ensures
        j == find_key_colon(raw@, i as int, end as int),
        i <= j <= end,
{
    let mut j: usize = i;
    while j < end && !(raw[j] == ':' && (j + 1 == raw.len() || blank(raw[j + 1])))
        invariant
            i <= j <= end <= raw.len(),
            find_key_colon(raw@, j as int, end as int) == find_key_colon(
                raw@,
                i as int,
                end as int,
            ),
        decreases end - j,
    {
        j = j + 1;
    }
    j
}

/// The YAML token that starts at `i`.
pub fn yaml_tok(raw: &Vec<char>, kinds: &Vec<Kind>, i: usize) -> (t: Tok)
    requires
        kinds.len() == raw.len(),
        i < raw.len(),
    ensures
        t@ == yaml_token(raw@, kinds@, i as int),
        token_fits(t@, i as int, raw@.len() as int),
{
    let c = raw[i];
    if is_comment(raw, i) {
        line_comment_tok(raw, i, 1)
    } else if c == '"' || c == '\'' {
        let d = Dialect {
            slash_comment: false,
            hash_comment: true,
            dash_comment: false,
            block_comment: false,
            double_quote: true,
            single_quote: true,
            backtick: false,
            triple_quote: false,
            colon_keys: true,
            equals_keys: false,
        };
        let close = closing_quote(raw, i + 1, c);
        literal_tok(d, raw, kinds, i, 1, close)
    } else if c == '\n' {
        code_tok(i, i + 1)
    } else {
        let end = end_of_scalar(raw, i + 1);
        let colon = position_of_key_colon(raw, i, end);
        if colon < end {
            let lead = after_spaces(raw, colon + 1);
            code_tok(i, lead)
        } else if range_has_cjk(raw, kinds, i, end) {
            body_tok(SpanKind::InlineString, i, end)
        } else {
            code_tok(i, end)
        }
    }
}

} // verus!
