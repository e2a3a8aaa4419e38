//! Spans: the classified ranges that a document is cut into.

use vstd::prelude::*;
use crate::charset::Kind;
use crate::engine::formatted;
use crate::scan::any_cjk;

verus! {

/// What a range of a document holds.
#[derive(Clone, Copy, Debug, PartialEq, Eq, Structural)]
pub enum SpanKind {
    /// Syntax of the host language: passed through as it is.
    Code,
    /// Prose of a document.
    Text,
    /// The inside of a string literal that holds prose.
    InlineString,
    /// The text of a comment.
    Comment,
}

/// A classified range `start..end` of a document, counted in characters.
#[derive(Clone, Copy, Debug, PartialEq, Eq, Structural)]
pub struct Span {
    pub kind: SpanKind,
    pub start: usize,
    pub end: usize,
}

/// Whether a span of this kind is rewritten.
pub open spec fn is_prose(kind: SpanKind) -> bool {
    kind != SpanKind::Code
}

/// Whether `spans` is a chain of ranges that starts at 0 and ends at `upto`,
/// each range starting where the one before ends.
pub open spec fn chain(spans: Seq<Span>, upto: int) -> bool
    decreases spans.len(),
{
    if spans.len() == 0 {
        upto == 0
    } else {
        &&& spans.last().start <= spans.last().end
        &&& spans.last().end == upto
        &&& chain(spans.drop_last(), spans.last().start as int)
    }
}

/// Whether `spans` covers a document of `len` characters without a gap.
pub open spec fn covers(spans: Seq<Span>, len: int) -> bool {
    chain(spans, len)
}

/// The number of bytes that `c` takes in UTF-8.
pub open spec fn utf8_len(c: char) -> nat {
    if c <= '\u{7f}' {
        1
    } else if c <= '\u{7ff}' {
        2
    } else if c <= '\u{ffff}' {
        3
    } else {
        4
    }
}

/// The number of bytes that the first `i` characters of `s` take in UTF-8:
/// the byte offset of position `i`.
pub open spec fn byte_offset(s: Seq<char>, i: int) -> nat
    decreases i,
{
    if i <= 0 || i > s.len() {
        0
    } else {
        byte_offset(s, i - 1) + utf8_len(s[i - 1])
    }
}

/// The part of `raw` that `span` ranges over.
pub open spec fn span_text(span: Span, raw: Seq<char>) -> Seq<char> {
    raw.subrange(span.start as int, span.end as int)
}

/// The texts of `spans`, one after the other.
pub open spec fn concat_texts(spans: Seq<Span>, raw: Seq<char>) -> Seq<char>
    decreases spans.len(),
{
    if spans.len() == 0 {
        Seq::empty()
    } else {
        concat_texts(spans.drop_last(), raw) + span_text(spans.last(), raw)
    }
}

/// The kinds of the characters that `span` ranges over.
pub open spec fn span_kinds(span: Span, kinds: Seq<Kind>) -> Seq<Kind> {
    kinds.subrange(span.start as int, span.end as int)
}

/// What becomes of the text of one span: prose is formatted, code is kept.
pub open spec fn rewrite_one(span: Span, raw: Seq<char>, kinds: Seq<Kind>) -> Seq<char> {
    if is_prose(span.kind) {
        formatted(span_text(span, raw), span_kinds(span, kinds))
    } else {
        span_text(span, raw)
    }
}

/// The document put together again, with the prose spans formatted.
pub open spec fn rewrite_spec(spans: Seq<Span>, raw: Seq<char>, kinds: Seq<Kind>) -> Seq<char>
    decreases spans.len(),
{
    if spans.len() == 0 {
        Seq::empty()
    } else {
        rewrite_spec(spans.drop_last(), raw, kinds) + rewrite_one(spans.last(), raw, kinds)
    }
}

/// Whether no prose span of `spans` holds a CJK character.
pub open spec fn prose_without_cjk(spans: Seq<Span>, raw: Seq<char>, kinds: Seq<Kind>) -> bool {
    forall|k: int|
        0 <= k < spans.len() && is_prose((#[trigger] spans[k]).kind) ==> !any_cjk(
            span_text(spans[k], raw),
            span_kinds(spans[k], kinds),
        )
}

/// The texts of a chain of spans, put together, are the document up to the
/// end of the chain.
pub proof fn lemma_chain_texts(spans: Seq<Span>, raw: Seq<char>, upto: int)
    requires
        chain(spans, upto),
        upto <= raw.len(),
    ensures
        concat_texts(spans, raw) == raw.take(upto),
    decreases spans.len(),
{
    if spans.len() == 0 {
        assert(raw.take(0) =~= Seq::<char>::empty());
    } else {
        let rest = spans.drop_last();
        let last = spans.last();
        lemma_chain_texts(rest, raw, last.start as int);
        assert(raw.take(upto) =~= raw.take(last.start as int) + raw.subrange(
            last.start as int,
            last.end as int,
        ));
    }
}

/// The texts of the spans that cover a document, put together, are the
/// document.
pub proof fn lemma_cover_texts(spans: Seq<Span>, raw: Seq<char>)
    requires
        covers(spans, raw.len() as int),
    ensures
        concat_texts(spans, raw) == raw,
{
    lemma_chain_texts(spans, raw, raw.len() as int);
    assert(raw.take(raw.len() as int) =~= raw);
}

/// Where no prose span holds a CJK character, rewriting changes nothing.
pub proof fn lemma_rewrite_without_cjk(spans: Seq<Span>, raw: Seq<char>, kinds: Seq<Kind>)
    requires
        prose_without_cjk(spans, raw, kinds),
    ensures
        rewrite_spec(spans, raw, kinds) == concat_texts(spans, raw),
    decreases spans.len(),
{
    if spans.len() > 0 {
        let rest = spans.drop_last();
        assert forall|k: int| 0 <= k < rest.len() && is_prose((#[trigger] rest[k]).kind) implies !any_cjk(
            span_text(rest[k], raw),
            span_kinds(rest[k], kinds),
        ) by {
            assert(rest[k] == spans[k]);
        }
        lemma_rewrite_without_cjk(rest, raw, kinds);
        assert(spans.last() == spans[spans.len() - 1]);
    }
}

/// Byte offsets grow with the position.
pub proof fn lemma_byte_offset_grows(s: Seq<char>, i: int, j: int)
    requires
        0 <= i <= j <= s.len(),
    ensures
        byte_offset(s, i) <= byte_offset(s, j),
    decreases j - i,
{
    if i < j {
        lemma_byte_offset_grows(s, i, j - 1);
    }
}

impl Span {
    /// The characters of `raw` that the span ranges over.
    pub fn text(&self, raw: &Vec<char>) -> (out: Vec<char>)
        requires
            self.start <= self.end <= raw.len(),
        ensures
            out@ == span_text(*self, raw@),
    {
        let mut out: Vec<char> = Vec::new();
        let mut k: usize = self.start;
        while k < self.end
            invariant
                self.start <= k <= self.end <= raw.len(),
                out@ == raw@.subrange(self.start as int, k as int),
            decreases self.end - k,
        {
            out.push(raw[k]);
            proof {
                assert(raw@.subrange(self.start as int, k + 1) =~= raw@.subrange(
                    self.start as int,
                    k as int,
                ).push(raw@[k as int]));
            }
            k = k + 1;
        }
        out
    }

    /// The kinds of the characters that the span ranges over.
    pub fn kinds(&self, kinds: &Vec<Kind>) -> (out: Vec<Kind>)
        requires
            self.start <= self.end <= kinds.len(),
        ensures
            out@ == span_kinds(*self, kinds@),
    {
        let mut out: Vec<Kind> = Vec::new();
        let mut k: usize = self.start;
        while k < self.end
            invariant
                self.start <= k <= self.end <= kinds.len(),
                out@ == kinds@.subrange(self.start as int, k as int),
            decreases self.end - k,
        {
            out.push(kinds[k]);
            proof {
                assert(kinds@.subrange(self.start as int, k + 1) =~= kinds@.subrange(
                    self.start as int,
                    k as int,
                ).push(kinds@[k as int]));
            }
            k = k + 1;
        }
        out
    }

    /// The range of the span in bytes of the UTF-8 form of `raw`; `None`
    /// where the offsets do not fit the machine's integers.
    pub fn byte_range(&self, raw: &Vec<char>) -> (r: Option<(usize, usize)>)
        requires
            self.start <= self.end <= raw.len(),
        ensures
            r is None <==> byte_offset(raw@, self.end as int) > usize::MAX,
            r matches Some(range) ==> range.0 == byte_offset(raw@, self.start as int) && range.1
                == byte_offset(raw@, self.end as int),
    {
        let mut at: usize = 0;
        let mut start: usize = 0;
        let mut k: usize = 0;
        while k < self.end
            invariant
                self.start <= self.end <= raw.len(),
                k <= self.end,
                at == byte_offset(raw@, k as int),
                k > self.start ==> start == byte_offset(raw@, self.start as int),
            decreases self.end - k,
        {
            if k == self.start {
                start = at;
            }
            let c = raw[k];
            let n: usize = if c <= '\u{7f}' {
                1
            } else if c <= '\u{7ff}' {
                2
            } else if c <= '\u{ffff}' {
                3
            } else {
                4
            };
            if at > usize::MAX - n {
                proof {
                    lemma_byte_offset_grows(raw@, k + 1, self.end as int);
                }
                return None;
            }
            at = at + n;
            k = k + 1;
        }
        if self.start == self.end {
            start = at;
        }
        Some((start, at))
    }

    /// Whether the span is rewritten.
    pub fn is_prose(&self) -> (r: bool)
        ensures
            r == is_prose(self.kind),
    {
        match self.kind {
            SpanKind::Code => false,
            _ => true,
        }
    }
}

} // verus!
