//! Tokens, and the cutting of a document into spans.
//!
//! A syntax says, for every position of a document, which token starts
//! there. A token has up to three parts: leading syntax, a body, and
//! trailing syntax (for a string literal: the opening quote, what stands
//! between the quotes, the closing quote). Each non-empty part becomes a
//! span.

use vstd::prelude::*;
use crate::charset::Kind;
use crate::code::{source_tok, source_token, Dialect};
use crate::html::{html_tok, html_token};
use crate::markdown::{markdown_tok, markdown_token};
use crate::yaml::{yaml_tok, yaml_token};
use crate::span::{chain, covers, Span, SpanKind};

verus! {

/// The token that starts at some position `i`: syntax in `i..lead`, the
/// body of kind `body_kind` in `lead..body_end`, syntax in `body_end..end`.
/// `fault` says that the token has no end in the document.
pub struct Token {
    pub lead: int,
    pub body_kind: SpanKind,
    pub body_end: int,
    pub end: int,
    pub fault: bool,
}

/// A token, as the executable code holds it.
#[derive(Clone, Copy, Debug)]
pub struct Tok {
    pub lead: usize,
    pub body_kind: SpanKind,
    pub body_end: usize,
    pub end: usize,
    pub fault: bool,
}

impl View for Tok {
    type V = Token;

    open spec fn view(&self) -> Token {
        Token {
            lead: self.lead as int,
            body_kind: self.body_kind,
            body_end: self.body_end as int,
            end: self.end as int,
            fault: self.fault,
        }
    }
}

/// A token that is code from `i` to `end`.
pub open spec fn code_token(i: int, end: int) -> Token {
    Token { lead: i, body_kind: SpanKind::Code, body_end: end, end: end, fault: false }
}

/// A token that is a body of `kind` from `i` to `end`.
pub open spec fn body_token(kind: SpanKind, i: int, end: int) -> Token {
    Token { lead: i, body_kind: kind, body_end: end, end: end, fault: false }
}

pub fn code_tok(i: usize, end: usize) -> (t: Tok)
    ensures
        t@ == code_token(i as int, end as int),
{
    Tok { lead: i, body_kind: SpanKind::Code, body_end: end, end, fault: false }
}

pub fn body_tok(kind: SpanKind, i: usize, end: usize) -> (t: Tok)
    ensures
        t@ == body_token(kind, i as int, end as int),
{
    Tok { lead: i, body_kind: kind, body_end: end, end, fault: false }
}

/// Whether `t` is a token at position `i` of a document of `len`
/// characters: its parts follow each other inside the document, and it is
/// not empty.
pub open spec fn token_fits(t: Token, i: int, len: int) -> bool {
    0 <= i <= t.lead <= t.body_end <= t.end <= len && i < t.end
}

/// The kinds of document.
#[derive(Clone, Copy, Debug, PartialEq, Eq, Structural)]
pub enum Syntax {
    Html,
    Yaml,
    Rust,
    Sql,
    Ruby,
    JavaScript,
    Css,
    Json,
    Go,
    Python,
    ObjectiveC,
    Strings,
    CSharp,
    Java,
    Swift,
    Kotlin,
    Php,
    Dart,
    Markdown,
    Text,
}

/// The dialect with line comments after `//`, block comments and string
/// literals between `"`: the common ground of the languages of the C
/// family.
pub open spec fn c_family() -> Dialect {
    Dialect {
        slash_comment: true,
        hash_comment: false,
        dash_comment: false,
        block_comment: true,
        double_quote: true,
        single_quote: false,
        backtick: false,
        triple_quote: false,
        colon_keys: false,
        equals_keys: false,
    }
}

/// The dialect of a kind of source code; `None` for the kinds that have a
/// lexer of their own.
pub open spec fn dialect_of(syntax: Syntax) -> Option<Dialect> {
    match syntax {
        Syntax::Rust | Syntax::Java | Syntax::CSharp | Syntax::ObjectiveC => Some(c_family()),
        Syntax::Go => Some(Dialect { backtick: true, ..c_family() }),
        Syntax::JavaScript => Some(Dialect { single_quote: true, backtick: true, ..c_family() }),
        Syntax::Css => Some(Dialect { single_quote: true, ..c_family() }),
        Syntax::Kotlin | Syntax::Swift => Some(Dialect { triple_quote: true, ..c_family() }),
        Syntax::Dart => Some(Dialect { single_quote: true, triple_quote: true, ..c_family() }),
        Syntax::Php => Some(Dialect { hash_comment: true, single_quote: true, ..c_family() }),
        Syntax::Json => Some(Dialect { colon_keys: true, ..c_family() }),
        Syntax::Strings => Some(Dialect { equals_keys: true, ..c_family() }),
        Syntax::Ruby => Some(
            Dialect {
                slash_comment: false,
                block_comment: false,
                hash_comment: true,
                single_quote: true,
                ..c_family()
            },
        ),
        Syntax::Python => Some(
            Dialect {
                slash_comment: false,
                block_comment: false,
                hash_comment: true,
                single_quote: true,
                triple_quote: true,
                ..c_family()
            },
        ),
        Syntax::Sql => Some(
            Dialect { slash_comment: false, dash_comment: true, single_quote: true, ..c_family() },
        ),
        Syntax::Html | Syntax::Yaml | Syntax::Markdown | Syntax::Text => None,
    }
}

/// The token of `syntax` that starts at position `i` of `s`, whose
/// characters are of the kinds `kinds`.
#[verifier::opaque]
pub open spec fn token_at(syntax: Syntax, s: Seq<char>, kinds: Seq<Kind>, i: int) -> Token {
    match syntax {
        Syntax::Text => body_token(SpanKind::Text, i, s.len() as int),
        Syntax::Html => html_token(s, i),
        Syntax::Markdown => markdown_token(s, i),
        Syntax::Yaml => yaml_token(s, kinds, i),
        _ => source_token(dialect_of(syntax).unwrap(), s, kinds, i),
    }
}

/// The dialect of a kind of source code.
pub fn dialect(syntax: Syntax) -> (d: Option<Dialect>)
    ensures
        d == dialect_of(syntax),
{
    let c = Dialect {
        slash_comment: true,
        hash_comment: false,
        dash_comment: false,
        block_comment: true,
        double_quote: true,
        single_quote: false,
        backtick: false,
        triple_quote: false,
        colon_keys: false,
        equals_keys: false,
    };
    match syntax {
        Syntax::Rust | Syntax::Java | Syntax::CSharp | Syntax::ObjectiveC => Some(c),
        Syntax::Go => Some(Dialect { backtick: true, ..c }),
        Syntax::JavaScript => Some(Dialect { single_quote: true, backtick: true, ..c }),
        Syntax::Css => Some(Dialect { single_quote: true, ..c }),
        Syntax::Kotlin | Syntax::Swift => Some(Dialect { triple_quote: true, ..c }),
        Syntax::Dart => Some(Dialect { single_quote: true, triple_quote: true, ..c }),
        Syntax::Php => Some(Dialect { hash_comment: true, single_quote: true, ..c }),
        Syntax::Json => Some(Dialect { colon_keys: true, ..c }),
        Syntax::Strings => Some(Dialect { equals_keys: true, ..c }),
        Syntax::Ruby => Some(
            Dialect {
                slash_comment: false,
                block_comment: false,
                hash_comment: true,
                single_quote: true,
                ..c
            },
        ),
        Syntax::Python => Some(
            Dialect {
                slash_comment: false,
                block_comment: false,
                hash_comment: true,
                single_quote: true,
                triple_quote: true,
                ..c
            },
        ),
        Syntax::Sql => Some(
            Dialect { slash_comment: false, dash_comment: true, single_quote: true, ..c },
        ),
        Syntax::Html | Syntax::Yaml | Syntax::Markdown | Syntax::Text => None,
    }
}

/// The span of `kind` over `from..to`, if the range is not empty.
pub open spec fn part(kind: SpanKind, from: int, to: int) -> Seq<Span> {
    if from < to {
        seq![Span { kind, start: from as usize, end: to as usize }]
    } else {
        Seq::empty()
    }
}

/// The spans of the token `t` that starts at `i`.
pub open spec fn spans_of(t: Token, i: int) -> Seq<Span> {
    part(SpanKind::Code, i, t.lead) + part(t.body_kind, t.lead, t.body_end) + part(
        SpanKind::Code,
        t.body_end,
        t.end,
    )
}

/// The spans of `s` from position `i` on. A token that does not fit counts
/// as one character of code.
pub open spec fn lex(syntax: Syntax, s: Seq<char>, kinds: Seq<Kind>, i: int) -> Seq<Span>
    decreases s.len() - i,
{
    if 0 <= i < s.len() {
        let t = token_at(syntax, s, kinds, i);
        if token_fits(t, i, s.len() as int) {
            spans_of(t, i) + lex(syntax, s, kinds, t.end)
        } else {
            part(SpanKind::Code, i, i + 1) + lex(syntax, s, kinds, i + 1)
        }
    } else {
        Seq::empty()
    }
}

/// The position of the first token of `s`, from position `i` on, that has
/// no end.
pub open spec fn first_fault(syntax: Syntax, s: Seq<char>, kinds: Seq<Kind>, i: int) -> Option<
    int,
>
    decreases s.len() - i,
{
    if 0 <= i < s.len() {
        let t = token_at(syntax, s, kinds, i);
        if token_fits(t, i, s.len() as int) {
            if t.fault {
                Some(i)
            } else {
                first_fault(syntax, s, kinds, t.end)
            }
        } else {
            first_fault(syntax, s, kinds, i + 1)
        }
    } else {
        None
    }
}

/// The position behind the token that starts at `i`.
pub open spec fn token_end(syntax: Syntax, s: Seq<char>, kinds: Seq<Kind>, i: int) -> int {
    let t = token_at(syntax, s, kinds, i);
    if token_fits(t, i, s.len() as int) {
        t.end
    } else {
        i + 1
    }
}

/// The spans of the token that starts at `i`.
pub open spec fn token_spans(syntax: Syntax, s: Seq<char>, kinds: Seq<Kind>, i: int) -> Seq<Span> {
    let t = token_at(syntax, s, kinds, i);
    if token_fits(t, i, s.len() as int) {
        spans_of(t, i)
    } else {
        part(SpanKind::Code, i, i + 1)
    }
}

/// Whether a token of `s` starts at `to`, or `s` ends there: going from
/// token to token from `from` on comes to `to`.
pub open spec fn reaches(syntax: Syntax, s: Seq<char>, kinds: Seq<Kind>, from: int, to: int) -> bool
    decreases s.len() - from,
{
    if from == to {
        true
    } else if 0 <= from < s.len() && from < to && from < token_end(syntax, s, kinds, from) {
        reaches(syntax, s, kinds, token_end(syntax, s, kinds, from), to)
    } else {
        false
    }
}

/// The spans of the tokens of `s` that start in `from..to`.
pub open spec fn lex_until(
    syntax: Syntax,
    s: Seq<char>,
    kinds: Seq<Kind>,
    from: int,
    to: int,
) -> Seq<Span>
    decreases s.len() - from,
{
    if 0 <= from < s.len() && from < to && from < token_end(syntax, s, kinds, from) {
        token_spans(syntax, s, kinds, from) + lex_until(
            syntax,
            s,
            kinds,
            token_end(syntax, s, kinds, from),
            to,
        )
    } else {
        Seq::empty()
    }
}

/// A document that cannot be cut into spans: the token that starts at
/// character `at` has no end.
#[derive(Clone, Copy, Debug, PartialEq, Eq, Structural)]
pub struct ParseError {
    pub at: usize,
}

/// The token of `syntax` that starts at position `i` of `raw`.
pub fn next_token(syntax: Syntax, raw: &Vec<char>, kinds: &Vec<Kind>, i: usize) -> (t: Tok)
    requires
        kinds.len() == raw.len(),
        i < raw.len(),
    ensures
        t@ == token_at(syntax, raw@, kinds@, i as int),
        token_fits(t@, i as int, raw@.len() as int),
{
    reveal(token_at);
    match syntax {
        Syntax::Text => body_tok(SpanKind::Text, i, raw.len()),
        Syntax::Html => html_tok(raw, i),
        Syntax::Markdown => markdown_tok(raw, i),
        Syntax::Yaml => yaml_tok(raw, kinds, i),
        _ => match dialect(syntax) {
            Some(d) => source_tok(d, raw, kinds, i),
            None => code_tok(i, i + 1),
        },
    }
}

/// Appends the span of `kind` over `from..to` to `spans`, if the range is
/// not empty.
fn push_part(spans: &mut Vec<Span>, kind: SpanKind, from: usize, to: usize)
    requires
        from <= to,
        chain(old(spans)@, from as int),
    ensures
        final(spans)@ == old(spans)@ + part(kind, from as int, to as int),
        chain(final(spans)@, to as int),
{
    if from < to {
        let ghost before = spans@;
        spans.push(Span { kind, start: from, end: to });
        proof {
            assert(spans@.drop_last() =~= before);
            assert(spans@ =~= before + part(kind, from as int, to as int));
        }
    } else {
        proof {
            assert(spans@ =~= spans@ + part(kind, from as int, to as int));
        }
    }
}

/// Cuts `raw`, whose characters are of the kinds `kinds`, into spans. The
/// spans cover the document without a gap. A token without an end is an
/// error, reported with the position at which the token starts.
pub fn extract(syntax: Syntax, raw: &Vec<char>, kinds: &Vec<Kind>) -> (r: Result<
    Vec<Span>,
    ParseError,
>)
    requires
        kinds.len() == raw.len(),
    ensures
        r is Err <==> first_fault(syntax, raw@, kinds@, 0) is Some,
        r matches Err(e) ==> first_fault(syntax, raw@, kinds@, 0) == Some(e.at as int),
        r matches Ok(spans) ==> spans@ == lex(syntax, raw@, kinds@, 0) && covers(
            spans@,
            raw@.len() as int,
        ),
{
    let mut spans: Vec<Span> = Vec::new();
    let mut i: usize = 0;
    while i < raw.len()
        invariant
            kinds.len() == raw.len(),
            i <= raw.len(),
            chain(spans@, i as int),
            spans@ + lex(syntax, raw@, kinds@, i as int) == lex(syntax, raw@, kinds@, 0),
            first_fault(syntax, raw@, kinds@, i as int) == first_fault(syntax, raw@, kinds@, 0),
        decreases raw.len() - i,
    {
        let t = next_token(syntax, raw, kinds, i);
        if t.fault {
            return Err(ParseError { at: i });
        }
        let ghost before = spans@;
        push_part(&mut spans, SpanKind::Code, i, t.lead);
        push_part(&mut spans, t.body_kind, t.lead, t.body_end);
        push_part(&mut spans, SpanKind::Code, t.body_end, t.end);
        proof {
            assert(spans@ =~= before + spans_of(t@, i as int));
            assert(spans@ + lex(syntax, raw@, kinds@, t.end as int) =~= before + (spans_of(
                t@,
                i as int,
            ) + lex(syntax, raw@, kinds@, t.end as int)));
        }
        i = t.end;
    }
    proof {
        assert(spans@ + lex(syntax, raw@, kinds@, i as int) =~= spans@);
    }
    Ok(spans)
}

} // verus!
