//! Source code: comments and string literals are told from the code around
//! them. One lexer serves all languages; a dialect says which forms of
//! comment and literal a language has.

use vstd::prelude::*;
use crate::charset::Kind;
use crate::lex::{
    find_pat, lemma_find_pat, line_end, position_of, position_of_pat, starts, starts_with,
};
use crate::scan::{any_cjk, range_has_cjk};
use crate::span::SpanKind;
use crate::token::{body_token, code_tok, code_token, token_fits, Tok, Token};

verus! {

/// The forms of comment and string literal of a language.
#[derive(Clone, Copy, Debug, PartialEq, Eq, Structural)]
pub struct Dialect {
    /// Line comments that start with `//`.
    pub slash_comment: bool,
    /// Line comments that start with `#`.
    pub hash_comment: bool,
    /// Line comments that start with `--`.
    pub dash_comment: bool,
    /// Block comments between `/*` and `*/`.
    pub block_comment: bool,
    /// String literals between `"`.
    pub double_quote: bool,
    /// String literals between `'`.
    pub single_quote: bool,
    /// String literals between backticks.
    pub backtick: bool,
    /// String literals between `"""` or `'''`.
    pub triple_quote: bool,
    /// A string literal followed by `:` is a key, and code.
    pub colon_keys: bool,
    /// A string literal followed by `=` is a key, and code.
    pub equals_keys: bool,
}

pub open spec fn is_blank(c: char) -> bool {
    c == ' ' || c == '\t' || c == '\n' || c == '\r'
}

/// The first position at or after `i` that holds no blank, or the length.
pub open spec fn skip_blank(s: Seq<char>, i: int) -> int
    decreases s.len() - i,
{
    if 0 <= i < s.len() && is_blank(s[i]) {
        skip_blank(s, i + 1)
    } else {
        i
    }
}

/// The position of the quote `q` that closes a literal whose inside starts
/// at `i`: the first `q` at or after `i` that no backslash escapes. Without
/// one, the length.
pub open spec fn find_quote(s: Seq<char>, i: int, q: char) -> int
    decreases s.len() - i,
{
    if 0 <= i < s.len() {
        if s[i] == q {
            i
        } else if s[i] == '\\' && i + 2 <= s.len() {
            find_quote(s, i + 2, q)
        } else if s[i] == '\\' {
            s.len() as int
        } else {
            find_quote(s, i + 1, q)
        }
    } else {
        s.len() as int
    }
}

/// Whether a character may start a comment or a literal in some dialect.
pub open spec fn is_special(c: char) -> bool {
    c == '/' || c == '-' || c == '#' || c == '"' || c == '\'' || c == '`'
}

/// The first position at or after `i` that holds a special character, or
/// the length.
pub open spec fn code_end(s: Seq<char>, i: int) -> int
    decreases s.len() - i,
{
    if 0 <= i < s.len() && !is_special(s[i]) {
        code_end(s, i + 1)
    } else if i < 0 || i > s.len() {
        s.len() as int
    } else {
        i
    }
}

pub open spec fn slashes() -> Seq<char> {
    seq!['/', '/']
}

pub open spec fn dashes() -> Seq<char> {
    seq!['-', '-']
}

pub open spec fn block_open() -> Seq<char> {
    seq!['/', '*']
}

pub open spec fn block_close() -> Seq<char> {
    seq!['*', '/']
}

pub open spec fn triple_double() -> Seq<char> {
    seq!['"', '"', '"']
}

pub open spec fn triple_single() -> Seq<char> {
    seq!['\'', '\'', '\'']
}

/// A line comment whose marker has `width` characters: its text runs to the
/// end of the line.
pub open spec fn line_comment(s: Seq<char>, i: int, width: int) -> Token {
    body_token(SpanKind::Comment, i, line_end(s, i + width)).with_lead(i + width)
}

impl Token {
    /// The token with its body starting at `lead`.
    pub open spec fn with_lead(self, lead: int) -> Token {
        Token { lead, ..self }
    }
}

/// What stands between delimiters of `width` characters, the first at `i`
/// and the second at `close`: a body of `kind`. Without a second delimiter
/// the token has no end.
pub open spec fn delimited(s: Seq<char>, i: int, width: int, close: int, kind: SpanKind) -> Token {
    if close < s.len() {
        Token { lead: i + width, body_kind: kind, body_end: close, end: close + width, fault: false }
    } else {
        Token {
            lead: i + width,
            body_kind: kind,
            body_end: s.len() as int,
            end: s.len() as int,
            fault: true,
        }
    }
}

/// Whether the literal that ends before `after` is a key in dialect `d`.
pub open spec fn is_key(d: Dialect, s: Seq<char>, after: int) -> bool {
    let k = skip_blank(s, after);
    0 <= k < s.len() && ((d.colon_keys && s[k] == ':') || (d.equals_keys && s[k] == '='))
}

/// The kind of the inside `from..to` of a literal that ends before `after`:
/// prose if it is no key and holds a CJK character, code otherwise.
pub open spec fn literal_kind(
    d: Dialect,
    s: Seq<char>,
    kinds: Seq<Kind>,
    from: int,
    to: int,
    after: int,
) -> SpanKind {
    if 0 <= from <= to <= s.len() && any_cjk(s.subrange(from, to), kinds.subrange(from, to))
        && !is_key(d, s, after) {
        SpanKind::InlineString
    } else {
        SpanKind::Code
    }
}

/// A literal between delimiters of `width` characters, the first at `i` and
/// the second at `close`.
pub open spec fn literal(
    d: Dialect,
    s: Seq<char>,
    kinds: Seq<Kind>,
    i: int,
    width: int,
    close: int,
) -> Token {
    delimited(s, i, width, close, literal_kind(d, s, kinds, i + width, close, close + width))
}

/// Whether a quote that dialect `d` knows stands at `i`.
pub open spec fn quote_at(d: Dialect, s: Seq<char>, i: int) -> bool {
    0 <= i < s.len() && ((d.double_quote && s[i] == '"') || (d.single_quote && s[i] == '\'') || (
    d.backtick && s[i] == '`'))
}

/// The token of dialect `d` that starts at `i`.
pub open spec fn source_token(d: Dialect, s: Seq<char>, kinds: Seq<Kind>, i: int) -> Token {
    if d.slash_comment && starts(s, i, slashes()) {
        line_comment(s, i, 2)
    } else if d.dash_comment && starts(s, i, dashes()) {
        line_comment(s, i, 2)
    } else if d.hash_comment && 0 <= i < s.len() && s[i] == '#' {
        line_comment(s, i, 1)
    } else if d.block_comment && starts(s, i, block_open()) {
        delimited(s, i, 2, find_pat(s, i + 2, block_close()), SpanKind::Comment)
    } else if d.triple_quote && starts(s, i, triple_double()) {
        literal(d, s, kinds, i, 3, find_pat(s, i + 3, triple_double()))
    } else if d.triple_quote && starts(s, i, triple_single()) {
        literal(d, s, kinds, i, 3, find_pat(s, i + 3, triple_single()))
    } else if quote_at(d, s, i) {
        literal(d, s, kinds, i, 1, find_quote(s, i + 1, s[i]))
    } else {
        code_token(i, code_end(s, i + 1))
    }
}

fn blank(c: char) -> (r: bool)
    ensures
        r == is_blank(c),
{
    c == ' ' || c == '\t' || c == '\n' || c == '\r'
}

fn special(c: char) -> (r: bool)
    ensures
        r == is_special(c),
{
    c == '/' || c == '-' || c == '#' || c == '"' || c == '\'' || c == '`'
}

fn after_blank(raw: &Vec<char>, i: usize) -> (j: usize)
    requires
        i <= raw.len(),
    ensures
        j == skip_blank(raw@, i as int),
        i <= j <= raw.len(),
{
    let mut j: usize = i;
    while j < raw.len() && blank(raw[j])
        invariant
            i <= j <= raw.len(),
            skip_blank(raw@, j as int) == skip_blank(raw@, i as int),
        decreases raw.len() - j,
    {
        j = j + 1;
    }
    j
}

pub fn closing_quote(raw: &Vec<char>, i: usize, q: char) -> (j: usize)
    requires
        i <= raw.len(),
    ensures
        j == find_quote(raw@, i as int, q),
        i <= j <= raw.len(),
{
    let mut j: usize = i;
    while j < raw.len() && raw[j] != q
        invariant
            i <= j <= raw.len(),
            find_quote(raw@, j as int, q) == find_quote(raw@, i as int, q),
        decreases raw.len() - j,
    {
        if raw[j] == '\\' {
            if raw.len() - j >= 2 {
                j = j + 2;
            } else {
                j = raw.len();
            }
        } else {
            j = j + 1;
        }
    }
    j
}

fn end_of_code(raw: &Vec<char>, i: usize) -> (j: usize)
    requires
        i <= raw.len(),
    ensures
        j == code_end(raw@, i as int),
        i <= j <= raw.len(),
{
    let mut j: usize = i;
    while j < raw.len() && !special(raw[j])
        invariant
            i <= j <= raw.len(),
            code_end(raw@, j as int) == code_end(raw@, i as int),
        decreases raw.len() - j,
    {
        j = j + 1;
    }
    j
}

pub fn line_comment_tok(raw: &Vec<char>, i: usize, width: usize) -> (t: Tok)
    requires
        i + width <= raw.len(),
        0 < width,
    ensures
        t@ == line_comment(raw@, i as int, width as int),
        token_fits(t@, i as int, raw@.len() as int),
{
    let end = position_of(raw, i + width, '\n');
    Tok { lead: i + width, body_kind: SpanKind::Comment, body_end: end, end, fault: false }
}

fn delimited_tok(raw: &Vec<char>, i: usize, width: usize, close: usize, kind: SpanKind) -> (t:
    Tok)
    requires
        0 < width,
        i + width <= close <= raw.len(),
        close < raw.len() ==> close + width <= raw.len(),
    ensures
        t@ == delimited(raw@, i as int, width as int, close as int, kind),
        token_fits(t@, i as int, raw@.len() as int),
{
    if close < raw.len() {
        Tok { lead: i + width, body_kind: kind, body_end: close, end: close + width, fault: false }
    } else {
        Tok {
            lead: i + width,
            body_kind: kind,
            body_end: raw.len(),
            end: raw.len(),
            fault: true,
        }
    }
}

pub fn literal_tok(
    d: Dialect,
    raw: &Vec<char>,
    kinds: &Vec<Kind>,
    i: usize,
    width: usize,
    close: usize,
) -> (t: Tok)
    requires
        kinds.len() == raw.len(),
        0 < width,
        i + width <= close <= raw.len(),
        close < raw.len() ==> close + width <= raw.len(),
    ensures
        t@ == literal(d, raw@, kinds@, i as int, width as int, close as int),
        token_fits(t@, i as int, raw@.len() as int),
{
    let mut kind = SpanKind::Code;
    if range_has_cjk(raw, kinds, i + width, close) {
        let mut key = false;
        if close < raw.len() {
            let k = after_blank(raw, close + width);
            key = k < raw.len() && ((d.colon_keys && raw[k] == ':') || (d.equals_keys && raw[k]
                == '='));
        } else {
            proof {
                assert(skip_blank(raw@, close + width) == close + width);
            }
        }
        if !key {
            kind = SpanKind::InlineString;
        }
    }
    delimited_tok(raw, i, width, close, kind)
}

/// The token of dialect `d` that starts at `i`.
pub fn source_tok(d: Dialect, raw: &Vec<char>, kinds: &Vec<Kind>, i: usize) -> (t: Tok)
    requires
        kinds.len() == raw.len(),
        i < raw.len(),
    ensures
        t@ == source_token(d, raw@, kinds@, i as int),
        token_fits(t@, i as int, raw@.len() as int),
{
    let slashes: [char; 2] = ['/', '/'];
    let dashes: [char; 2] = ['-', '-'];
    let block_open: [char; 2] = ['/', '*'];
    let block_close: [char; 2] = ['*', '/'];
    let triple_double: [char; 3] = ['"', '"', '"'];
    let triple_single: [char; 3] = ['\'', '\'', '\''];
    proof {
        assert(slashes@ =~= self::slashes());
        assert(dashes@ =~= self::dashes());
        assert(block_open@ =~= self::block_open());
        assert(block_close@ =~= self::block_close());
        assert(triple_double@ =~= self::triple_double());
        assert(triple_single@ =~= self::triple_single());
    }
    let c = raw[i];
    if d.slash_comment && starts_with(raw, i, slashes.as_slice()) {
        line_comment_tok(raw, i, 2)
    } else if d.dash_comment && starts_with(raw, i, dashes.as_slice()) {
        line_comment_tok(raw, i, 2)
    } else if d.hash_comment && c == '#' {
        line_comment_tok(raw, i, 1)
    } else if d.block_comment && starts_with(raw, i, block_open.as_slice()) {
        let close = position_of_pat(raw, i + 2, block_close.as_slice());
        proof {
            lemma_find_pat(raw@, i + 2, block_close@);
        }
        delimited_tok(raw, i, 2, close, SpanKind::Comment)
    } else if d.triple_quote && starts_with(raw, i, triple_double.as_slice()) {
        let close = position_of_pat(raw, i + 3, triple_double.as_slice());
        proof {
            lemma_find_pat(raw@, i + 3, triple_double@);
        }
        literal_tok(d, raw, kinds, i, 3, close)
    } else if d.triple_quote && starts_with(raw, i, triple_single.as_slice()) {
        let close = position_of_pat(raw, i + 3, triple_single.as_slice());
        proof {
            lemma_find_pat(raw@, i + 3, triple_single@);
        }
        literal_tok(d, raw, kinds, i, 3, close)
    } else if (d.double_quote && c == '"') || (d.single_quote && c == '\'') || (d.backtick && c
        == '`') {
        let close = closing_quote(raw, i + 1, c);
        literal_tok(d, raw, kinds, i, 1, close)
    } else {
        let end = end_of_code(raw, i + 1);
        code_tok(i, end)
    }
}

} // verus!
