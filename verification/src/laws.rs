//! What holds of the engine and of the cutting of documents, for every
//! input.

use vstd::prelude::*;
use crate::cells::{
    chars_of, fits, lemma_cjk_of_parse, lemma_cjk_of_render, lemma_parse_canonical,
    lemma_parse_render, lemma_parse_well_formed, parse, render, spaces, Cell, Layout,
};
use crate::charset::{is_cjk, kinds_of, Kind};
use crate::document::{
    error_of, format_for_out, format_out, has_ignore_directive, lemma_chain_bounds,
    lint_for_lines, lint_lines, parse_spec,
};
use crate::engine::{
    dash_cells, format_spec, formatted, normalize, tighten_left_spec, tighten_right_cells,
};
use crate::filetype::syntax_of_spec;
use crate::fullwidth::{fullwidth_cell, fullwidth_cells};
use crate::halfwidth::{halfwidth_cell, halfwidth_cells};
use crate::normal::{
    lemma_normalize_canonical, lemma_normalize_idempotent, lemma_normalize_well_formed,
    lemma_rule_rests_after,
};
use crate::lint::{
    feeds, finding_holds, lemma_diff_empty, lemma_diff_holds, lemma_diff_increases,
    lemma_diff_same, lemma_feeds_add, lemma_feeds_none, lemma_feeds_pointwise,
};
use crate::result::LineView;
use crate::scan::{
    any_cjk, cjk_of, has_cjk, lemma_any_cjk, lemma_cjk_of_add, lemma_cjk_of_one, lemma_has_cjk,
};
use crate::span::{
    chain, concat_texts, covers, is_prose, lemma_cover_texts, lemma_rewrite_without_cjk,
    prose_without_cjk, rewrite_one, rewrite_spec, span_kinds, span_text, Span, SpanKind,
};
use crate::strategery::{apply_from, apply_spec, strategies_spec, Strategery};
use crate::markdown::{block_end, lemma_block_fits, opens_block};
use crate::token::{
    code_token, first_fault, lex, lex_until, part, reaches, spans_of, token_at, token_end,
    token_fits, token_spans, Syntax,
};

verus! {

/// A text without a CJK character is formatted to itself.
pub proof fn law_fast_path(s: Seq<char>)
    requires
        !has_cjk(s),
    ensures
        format_spec(s) == s,
{
    lemma_any_cjk(s);
}

/// The kinds that the tables give a part of a text are the part of the
/// kinds that they give the text.
pub proof fn lemma_kinds_of_part(s: Seq<char>, from: int, to: int)
    requires
        0 <= from <= to <= s.len(),
    ensures
        kinds_of(s).subrange(from, to) == kinds_of(s.subrange(from, to)),
{
    assert(kinds_of(s).subrange(from, to) =~= kinds_of(s.subrange(from, to)));
}

/// Two texts of one length, of which one holds a CJK character wherever
/// the other holds the same, have the same CJK characters.
proof fn lemma_cjk_of_pointwise(a: Seq<char>, b: Seq<char>)
    requires
        a.len() == b.len(),
        forall|k: int| 0 <= k < a.len() && (is_cjk(#[trigger] a[k]) || is_cjk(b[k])) ==> a[k] == b[k],
    ensures
        cjk_of(a) == cjk_of(b),
    decreases a.len(),
{
    if a.len() == 0 {
        assert(a =~= b);
    } else {
        let n = a.len() - 1;
        assert(is_cjk(a[n]) || is_cjk(b[n]) ==> a[n] == b[n]);
        assert forall|k: int| 0 <= k < n && (is_cjk(#[trigger] a.drop_last()[k]) || is_cjk(
            b.drop_last()[k],
        )) implies a.drop_last()[k] == b.drop_last()[k] by {
            assert(is_cjk(a[k]) || is_cjk(b[k]) ==> a[k] == b[k]);
        }
        lemma_cjk_of_pointwise(a.drop_last(), b.drop_last());
        assert(a =~= a.drop_last() + seq![a[n]]);
        assert(b =~= b.drop_last() + seq![b[n]]);
        lemma_cjk_of_add(a.drop_last(), seq![a[n]]);
        lemma_cjk_of_add(b.drop_last(), seq![b[n]]);
        lemma_cjk_of_one(a[n]);
        lemma_cjk_of_one(b[n]);
    }
}

/// The rules from `from` on keep the characters of the cells.
proof fn lemma_rules_keep_chars(rules: Seq<Strategery>, from: int, cells: Seq<Cell>)
    requires
        0 <= from,
    ensures
        chars_of(apply_from(rules, from, cells)) == chars_of(cells),
    decreases rules.len() - from,
{
    if from < rules.len() {
        let next = rules[from].format_spec(cells);
        assert(chars_of(next) =~= chars_of(cells));
        lemma_rules_keep_chars(rules, from + 1, next);
    }
}

/// The passes of the engine keep the CJK characters of a layout, in order.
pub proof fn lemma_normalize_keeps_cjk(t: Layout)
    ensures
        cjk_of(chars_of(normalize(t).cells)) == cjk_of(chars_of(t.cells)),
{
    let a = fullwidth_cells(t.cells);
    let b = halfwidth_cells(a);
    let c = apply_spec(strategies_spec(), b);
    let d = dash_cells(c);
    let e = tighten_left_spec(Layout { lead: t.lead, cells: d }).cells;
    let f = tighten_right_cells(e);
    assert forall|k: int| 0 <= k < a.len() implies a[k] == fullwidth_cell(t.cells, k) && b[k]
        == halfwidth_cell(a, k) by {}
    lemma_cjk_of_pointwise(chars_of(t.cells), chars_of(a));
    lemma_cjk_of_pointwise(chars_of(a), chars_of(b));
    lemma_rules_keep_chars(strategies_spec(), 0, b);
    assert(chars_of(d) =~= chars_of(c));
    assert(chars_of(e) =~= chars_of(d));
    assert(chars_of(f) =~= chars_of(e));
}

/// Formatting keeps the CJK characters of a text: the same characters, in
/// the same order.
pub proof fn law_cjk_preserved(s: Seq<char>)
    ensures
        cjk_of(format_spec(s)) == cjk_of(s),
{
    lemma_any_cjk(s);
    if has_cjk(s) {
        let t = parse(s, kinds_of(s));
        lemma_cjk_of_parse(s, kinds_of(s));
        lemma_normalize_keeps_cjk(t);
        lemma_cjk_of_render(normalize(t));
    }
}

/// Formatting keeps the CJK characters of a text as a multiset.
pub proof fn law_cjk_multiset_preserved(s: Seq<char>)
    ensures
        cjk_of(format_spec(s)).to_multiset() == cjk_of(s).to_multiset(),
{
    law_cjk_preserved(s);
}

/// A rule applied to its own result changes nothing.
pub proof fn law_rule_idempotent(rule: Strategery, cells: Seq<Cell>)
    ensures
        rule.format_spec(rule.format_spec(cells)) == rule.format_spec(cells),
{
    let once = rule.format_spec(cells);
    lemma_rule_rests_after(rule, cells);
    assert forall|k: int| 0 <= k < once.len() implies rule.format_spec(once)[k] == once[k] by {
        assert(rule.cell(once, k) == once[k]);
    }
    assert(rule.format_spec(once) =~= once);
}

/// Formatting a formatted text changes nothing.
pub proof fn law_idempotent(s: Seq<char>)
    ensures
        format_spec(format_spec(s)) == format_spec(s),
{
    lemma_any_cjk(s);
    if has_cjk(s) {
        let t = parse(s, kinds_of(s));
        let n = normalize(t);
        let o = render(n);
        lemma_parse_well_formed(s, kinds_of(s));
        lemma_parse_canonical(s, kinds_of(s));
        lemma_normalize_well_formed(t);
        lemma_normalize_canonical(t);
        assert(fits(kinds_of(o), o));
        lemma_parse_render(n, kinds_of(o));
        lemma_normalize_idempotent(t);
        law_cjk_preserved(s);
        lemma_has_cjk(s);
        lemma_has_cjk(o);
        lemma_any_cjk(o);
    }
}

/// Pushing the spans of a part onto a chain gives a chain.
proof fn lemma_chain_part(pre: Seq<Span>, kind: SpanKind, from: int, to: int)
    requires
        chain(pre, from),
        0 <= from <= to <= usize::MAX,
    ensures
        chain(pre + part(kind, from, to), to),
{
    if from < to {
        let span = Span { kind, start: from as usize, end: to as usize };
        let all = pre + part(kind, from, to);
        assert(all.drop_last() =~= pre);
        assert(all.last() == span);
    } else {
        assert(pre + part(kind, from, to) =~= pre);
    }
}

/// The spans that a document is cut into from position `i` on continue a
/// chain that ends at `i` to the end of the document.
proof fn lemma_lex_chain(syntax: Syntax, s: Seq<char>, kinds: Seq<Kind>, i: int, pre: Seq<Span>)
    requires
        0 <= i <= s.len() <= usize::MAX,
        chain(pre, i),
    ensures
        chain(pre + lex(syntax, s, kinds, i), s.len() as int),
    decreases s.len() - i,
{
    if i < s.len() {
        let t = token_at(syntax, s, kinds, i);
        if token_fits(t, i, s.len() as int) {
            let a = pre + part(SpanKind::Code, i, t.lead);
            lemma_chain_part(pre, SpanKind::Code, i, t.lead);
            let b = a + part(t.body_kind, t.lead, t.body_end);
            lemma_chain_part(a, t.body_kind, t.lead, t.body_end);
            let c = b + part(SpanKind::Code, t.body_end, t.end);
            lemma_chain_part(b, SpanKind::Code, t.body_end, t.end);
            lemma_lex_chain(syntax, s, kinds, t.end, c);
            assert(pre + lex(syntax, s, kinds, i) =~= c + lex(syntax, s, kinds, t.end));
        } else {
            let a = pre + part(SpanKind::Code, i, i + 1);
            lemma_chain_part(pre, SpanKind::Code, i, i + 1);
            lemma_lex_chain(syntax, s, kinds, i + 1, a);
            assert(pre + lex(syntax, s, kinds, i) =~= a + lex(syntax, s, kinds, i + 1));
        }
    } else {
        assert(pre + lex(syntax, s, kinds, i) =~= pre);
    }
}

/// The spans that a document is cut into cover it: their texts, one after
/// the other, are the document.
pub proof fn law_span_cover(syntax: Syntax, s: Seq<char>, kinds: Seq<Kind>)
    requires
        s.len() <= usize::MAX,
    ensures
        covers(lex(syntax, s, kinds, 0), s.len() as int),
        concat_texts(lex(syntax, s, kinds, 0), s) == s,
{
    lemma_lex_chain(syntax, s, kinds, 0, Seq::empty());
    assert(Seq::<Span>::empty() + lex(syntax, s, kinds, 0) =~= lex(syntax, s, kinds, 0));
    lemma_cover_texts(lex(syntax, s, kinds, 0), s);
}

/// A document that holds the ignore directive is formatted to itself and
/// has no findings, whatever its type.
pub proof fn law_ignore_directive(raw: Seq<char>, filetype: Seq<char>)
    requires
        has_ignore_directive(raw),
    ensures
        format_for_out(raw, filetype) == raw,
        lint_for_lines(raw, filetype) == Seq::<LineView>::empty(),
        error_of(raw, filetype) == Seq::<char>::empty(),
{
    lemma_diff_same(raw, 0);
}

/// A document with an error is handed back as it is, without findings.
pub proof fn law_error_keeps_document(raw: Seq<char>, filetype: Seq<char>)
    requires
        error_of(raw, filetype).len() > 0,
    ensures
        format_for_out(raw, filetype) == raw,
        lint_for_lines(raw, filetype) == Seq::<LineView>::empty(),
{
    lemma_diff_same(raw, 0);
}

/// A document whose comments, string literals and other prose hold no CJK
/// character is formatted to itself.
pub proof fn law_pure_code_round_trip(
    raw: Seq<char>,
    kinds: Seq<Kind>,
    filetype: Seq<char>,
    spans: Seq<Span>,
)
    requires
        raw.len() <= usize::MAX,
        parse_spec(raw, kinds, filetype) == Some(Ok::<Seq<Span>, int>(spans)),
        prose_without_cjk(spans, raw, kinds),
    ensures
        format_out(raw, kinds, filetype) == raw,
{
    let syntax = syntax_of_spec(filetype).unwrap();
    law_span_cover(syntax, raw, kinds);
    lemma_rewrite_without_cjk(spans, raw, kinds);
}

/// A document without any CJK character is formatted to itself.
pub proof fn law_no_cjk_round_trip(raw: Seq<char>, filetype: Seq<char>)
    requires
        raw.len() <= usize::MAX,
        !has_cjk(raw),
    ensures
        format_for_out(raw, filetype) == raw,
{
    let kinds = kinds_of(raw);
    match parse_spec(raw, kinds, filetype) {
        Some(Ok(spans)) => {
            let syntax = syntax_of_spec(filetype).unwrap();
            law_span_cover(syntax, raw, kinds);
            lemma_chain_bounds(spans, raw.len() as int);
            assert forall|k: int| 0 <= k < spans.len() && is_prose((#[trigger] spans[k]).kind) implies !any_cjk(
                span_text(spans[k], raw),
                span_kinds(spans[k], kinds),
            ) by {
                let t = span_text(spans[k], raw);
                lemma_kinds_of_part(raw, spans[k].start as int, spans[k].end as int);
                lemma_any_cjk(t);
                if has_cjk(t) {
                    let n = choose|n: int| 0 <= n < t.len() && is_cjk(#[trigger] t[n]);
                    assert(is_cjk(raw[spans[k].start + n]));
                }
            }
            law_pure_code_round_trip(raw, kinds, filetype, spans);
        },
        _ => {},
    }
}

/// The line feeds of the text of a layout are those of its cells.
proof fn lemma_feeds_of_render(t: Layout)
    ensures
        feeds(render(t)) == feeds(chars_of(t.cells)),
    decreases t.cells.len(),
{
    let lead = spaces(t.lead as nat);
    lemma_feeds_none(lead, lead.len() as int);
    if t.cells.len() == 0 {
        assert(render(t) =~= lead);
        assert(chars_of(t.cells) =~= Seq::<char>::empty());
    } else {
        let rest = Layout { lead: t.lead, cells: t.cells.drop_last() };
        let last = t.cells.last();
        lemma_feeds_of_render(rest);
        let tail = spaces(last.gap as nat);
        lemma_feeds_none(tail, tail.len() as int);
        assert(render(t) =~= render(rest) + seq![last.c] + tail);
        lemma_feeds_add(render(rest) + seq![last.c], tail);
        lemma_feeds_add(render(rest), seq![last.c]);
        assert(chars_of(t.cells) =~= chars_of(rest.cells) + seq![last.c]);
        lemma_feeds_add(chars_of(rest.cells), seq![last.c]);
    }
}

/// The line feeds of a text are those of the cells of its layout.
proof fn lemma_feeds_of_parse(s: Seq<char>, kinds: Seq<Kind>)
    ensures
        feeds(s) == feeds(chars_of(parse(s, kinds).cells)),
    decreases s.len(),
{
    if s.len() == 0 {
        assert(chars_of(parse(s, kinds).cells) =~= s);
    } else {
        let before = parse(s.drop_last(), kinds);
        lemma_feeds_of_parse(s.drop_last(), kinds);
        assert(s =~= s.drop_last() + seq![s.last()]);
        lemma_feeds_add(s.drop_last(), seq![s.last()]);
        if s.last() == ' ' {
            assert(chars_of(parse(s, kinds).cells) =~= chars_of(before.cells));
            lemma_feeds_none(seq![s.last()], 1);
        } else {
            assert(chars_of(parse(s, kinds).cells) =~= chars_of(before.cells) + seq![s.last()]);
            lemma_feeds_add(chars_of(before.cells), seq![s.last()]);
        }
    }
}

/// The passes of the engine keep the line feeds of a layout.
proof fn lemma_normalize_keeps_feeds(t: Layout)
    ensures
        feeds(chars_of(normalize(t).cells)) == feeds(chars_of(t.cells)),
{
    let a = fullwidth_cells(t.cells);
    let b = halfwidth_cells(a);
    let c = apply_spec(strategies_spec(), b);
    let d = dash_cells(c);
    let e = tighten_left_spec(Layout { lead: t.lead, cells: d }).cells;
    let f = tighten_right_cells(e);
    assert forall|k: int| 0 <= k < a.len() implies a[k] == fullwidth_cell(t.cells, k) && b[k]
        == halfwidth_cell(a, k) by {}
    lemma_feeds_pointwise(chars_of(t.cells), chars_of(a), a.len() as int);
    lemma_feeds_pointwise(chars_of(a), chars_of(b), a.len() as int);
    lemma_rules_keep_chars(strategies_spec(), 0, b);
    assert(chars_of(d) =~= chars_of(c));
    assert(chars_of(e) =~= chars_of(d));
    assert(chars_of(f) =~= chars_of(e));
}

/// Formatting neither adds nor removes a line feed.
pub proof fn law_format_keeps_lines(s: Seq<char>, kinds: Seq<Kind>)
    ensures
        feeds(formatted(s, kinds)) == feeds(s),
{
    if any_cjk(s, kinds) {
        let t = parse(s, kinds);
        lemma_feeds_of_parse(s, kinds);
        lemma_normalize_keeps_feeds(t);
        lemma_feeds_of_render(normalize(t));
    }
}

/// Rewriting the spans of a document keeps the line feeds of their texts.
proof fn lemma_rewrite_keeps_feeds(spans: Seq<Span>, raw: Seq<char>, kinds: Seq<Kind>)
    ensures
        feeds(rewrite_spec(spans, raw, kinds)) == feeds(concat_texts(spans, raw)),
    decreases spans.len(),
{
    if spans.len() > 0 {
        let rest = spans.drop_last();
        let last = spans.last();
        lemma_rewrite_keeps_feeds(rest, raw, kinds);
        law_format_keeps_lines(span_text(last, raw), span_kinds(last, kinds));
        lemma_feeds_add(rewrite_spec(rest, raw, kinds), rewrite_one(last, raw, kinds));
        lemma_feeds_add(concat_texts(rest, raw), span_text(last, raw));
    }
}

/// Formatting a document neither adds nor removes a line.
pub proof fn law_document_keeps_lines(raw: Seq<char>, kinds: Seq<Kind>, filetype: Seq<char>)
    requires
        raw.len() <= usize::MAX,
    ensures
        feeds(format_out(raw, kinds, filetype)) == feeds(raw),
{
    match parse_spec(raw, kinds, filetype) {
        Some(Ok(spans)) => {
            let syntax = syntax_of_spec(filetype).unwrap();
            law_span_cover(syntax, raw, kinds);
            lemma_rewrite_keeps_feeds(spans, raw, kinds);
        },
        _ => {},
    }
}

/// Linting and formatting agree: a document has no findings exactly when
/// formatting hands it back as it is.
pub proof fn law_lint_matches_format(raw: Seq<char>, kinds: Seq<Kind>, filetype: Seq<char>)
    requires
        raw.len() <= usize::MAX,
    ensures
        lint_lines(raw, kinds, filetype).len() == 0 <==> format_out(raw, kinds, filetype) == raw,
{
    let out = format_out(raw, kinds, filetype);
    law_document_keeps_lines(raw, kinds, filetype);
    assert(raw.skip(0) =~= raw);
    assert(out.skip(0) =~= out);
    lemma_diff_empty(raw, out, 0, 0);
}

/// The findings of a document stand in the order of its lines, at most one
/// for a line: each finding is on a later line than the one before it.
pub proof fn law_findings_increase(raw: Seq<char>, kinds: Seq<Kind>, filetype: Seq<char>)
    ensures
        forall|k: int, m: int|
            0 <= k < m < lint_lines(raw, kinds, filetype).len() ==> (#[trigger] lint_lines(
                raw,
                kinds,
                filetype,
            )[k]).line < (#[trigger] lint_lines(raw, kinds, filetype)[m]).line,
{
    lemma_diff_increases(raw, format_out(raw, kinds, filetype), 0, 0);
}

/// Every finding of a document is true of it: its old text stands in the
/// document at the start of its line, and its new text differs from it.
pub proof fn law_findings_hold(raw: Seq<char>, kinds: Seq<Kind>, filetype: Seq<char>)
    ensures
        forall|k: int|
            0 <= k < lint_lines(raw, kinds, filetype).len() ==> finding_holds(
                raw,
                #[trigger] lint_lines(raw, kinds, filetype)[k],
            ),
{
    lemma_diff_holds(raw, format_out(raw, kinds, filetype), 0, 0);
}

/// Linting and formatting agree, with the kinds that the tables give.
pub proof fn law_lint_for_matches_format_for(raw: Seq<char>, filetype: Seq<char>)
    requires
        raw.len() <= usize::MAX,
    ensures
        lint_for_lines(raw, filetype).len() == 0 <==> format_for_out(raw, filetype) == raw,
{
    law_lint_matches_format(raw, kinds_of(raw), filetype);
}

/// A plain text is one span of prose: as a document it is formatted as the
/// engine formats it.
pub proof fn law_text_is_formatted_whole(s: Seq<char>, kinds: Seq<Kind>)
    requires
        s.len() <= usize::MAX,
        kinds.len() == s.len(),
    ensures
        rewrite_spec(lex(Syntax::Text, s, kinds, 0), s, kinds) == formatted(s, kinds),
{
    reveal(token_at);
    let spans = lex(Syntax::Text, s, kinds, 0);
    if s.len() == 0 {
        assert(formatted(s, kinds) =~= s);
    } else {
        let whole = Span { kind: SpanKind::Text, start: 0, end: s.len() as usize };
        let t = token_at(Syntax::Text, s, kinds, 0);
        assert(token_fits(t, 0, s.len() as int));
        assert(lex(Syntax::Text, s, kinds, s.len() as int) =~= Seq::<Span>::empty());
        assert(spans =~= seq![whole]);
        assert(spans.drop_last() =~= Seq::<Span>::empty());
        assert(span_text(whole, s) =~= s);
        assert(span_kinds(whole, kinds) =~= kinds);
        assert(spans.last() == whole);
        assert(rewrite_spec(spans.drop_last(), s, kinds) =~= Seq::<char>::empty());
        assert(rewrite_one(whole, s, kinds) == formatted(s, kinds));
        assert(rewrite_spec(spans, s, kinds) =~= formatted(s, kinds));
    }
}

/// Rewriting two rows of spans, one behind the other, gives the two
/// rewritten texts, one behind the other.
proof fn lemma_rewrite_add(x: Seq<Span>, y: Seq<Span>, raw: Seq<char>, kinds: Seq<Kind>)
    ensures
        rewrite_spec(x + y, raw, kinds) == rewrite_spec(x, raw, kinds) + rewrite_spec(
            y,
            raw,
            kinds,
        ),
    decreases y.len(),
{
    if y.len() == 0 {
        assert(x + y =~= x);
        assert(rewrite_spec(x, raw, kinds) + Seq::<char>::empty() =~= rewrite_spec(x, raw, kinds));
    } else {
        let all = x + y;
        assert(all.drop_last() =~= x + y.drop_last());
        assert(all.last() == y.last());
        lemma_rewrite_add(x, y.drop_last(), raw, kinds);
        assert(rewrite_spec(all, raw, kinds) =~= rewrite_spec(x, raw, kinds) + rewrite_spec(
            y,
            raw,
            kinds,
        ));
    }
}

/// The spans of a document from `from` on are those of the tokens before
/// `to` and those from `to` on, where a token starts at `to`.
proof fn lemma_lex_split(syntax: Syntax, s: Seq<char>, kinds: Seq<Kind>, from: int, to: int)
    requires
        0 <= from <= to <= s.len(),
        reaches(syntax, s, kinds, from, to),
    ensures
        lex(syntax, s, kinds, from) == lex_until(syntax, s, kinds, from, to) + lex(
            syntax,
            s,
            kinds,
            to,
        ),
    decreases s.len() - from,
{
    if from == to {
        assert(lex_until(syntax, s, kinds, from, to) =~= Seq::<Span>::empty());
        assert(Seq::<Span>::empty() + lex(syntax, s, kinds, to) =~= lex(syntax, s, kinds, to));
    } else {
        let next = token_end(syntax, s, kinds, from);
        lemma_reaches_bounds(syntax, s, kinds, next, to);
        lemma_lex_split(syntax, s, kinds, next, to);
        assert(lex(syntax, s, kinds, from) =~= token_spans(syntax, s, kinds, from) + (lex_until(
            syntax,
            s,
            kinds,
            next,
            to,
        ) + lex(syntax, s, kinds, to)));
    }
}

/// Going from token to token goes forward.
proof fn lemma_reaches_bounds(syntax: Syntax, s: Seq<char>, kinds: Seq<Kind>, from: int, to: int)
    requires
        reaches(syntax, s, kinds, from, to),
    ensures
        from <= to,
    decreases s.len() - from,
{
    if from != to {
        lemma_reaches_bounds(syntax, s, kinds, token_end(syntax, s, kinds, from), to);
    }
}

/// Markdown is cut into spans whatever it holds.
pub proof fn lemma_markdown_never_faults(s: Seq<char>, kinds: Seq<Kind>, i: int)
    ensures
        first_fault(Syntax::Markdown, s, kinds, i) is None,
    decreases s.len() - i,
{
    reveal(token_at);
    if 0 <= i < s.len() {
        let t = token_at(Syntax::Markdown, s, kinds, i);
        if token_fits(t, i, s.len() as int) {
            lemma_markdown_never_faults(s, kinds, t.end);
        } else {
            lemma_markdown_never_faults(s, kinds, i + 1);
        }
    }
}

/// A fenced code block of a Markdown document comes out of formatting as
/// it is, at its place: the formatted document is the formatted part
/// before the block, the block from its opening line through its closing
/// line, and the formatted part behind it. A block is a line that is a
/// fence of backticks or tildes and at which a token starts: a fence line
/// inside another block opens none.
pub proof fn law_fenced_block_kept(
    raw: Seq<char>,
    kinds: Seq<Kind>,
    filetype: Seq<char>,
    i: int,
)
    requires
        raw.len() <= usize::MAX,
        !has_ignore_directive(raw),
        syntax_of_spec(filetype) == Some(Syntax::Markdown),
        0 <= i < raw.len(),
        reaches(Syntax::Markdown, raw, kinds, 0, i),
        opens_block(raw, i),
    ensures
        i < block_end(raw, i) <= raw.len(),
        format_out(raw, kinds, filetype) == rewrite_spec(
            lex_until(Syntax::Markdown, raw, kinds, 0, i),
            raw,
            kinds,
        ) + raw.subrange(i, block_end(raw, i)) + rewrite_spec(
            lex(Syntax::Markdown, raw, kinds, block_end(raw, i)),
            raw,
            kinds,
        ),
{
    let md = Syntax::Markdown;
    let e = block_end(raw, i);
    lemma_block_fits(raw, i);
    lemma_markdown_never_faults(raw, kinds, 0);
    lemma_lex_split(md, raw, kinds, 0, i);
    let before = lex_until(md, raw, kinds, 0, i);
    let behind = lex(md, raw, kinds, e);
    let block = Span { kind: SpanKind::Code, start: i as usize, end: e as usize };
    assert(token_at(md, raw, kinds, i) == code_token(i, e)) by {
        reveal(token_at);
    }
    assert(spans_of(code_token(i, e), i) =~= seq![block]);
    assert(lex(md, raw, kinds, i) =~= seq![block] + behind);
    lemma_rewrite_add(before, seq![block] + behind, raw, kinds);
    lemma_rewrite_add(seq![block], behind, raw, kinds);
    let one = seq![block];
    assert(one.drop_last() =~= Seq::<Span>::empty());
    assert(one.last() == block);
    assert(block.start as int == i && block.end as int == e);
    assert(rewrite_one(block, raw, kinds) == raw.subrange(i, e));
    assert(rewrite_spec(one.drop_last(), raw, kinds) =~= Seq::<char>::empty());
    assert(rewrite_spec(one, raw, kinds) =~= raw.subrange(i, e));
    assert(format_out(raw, kinds, filetype) == rewrite_spec(lex(md, raw, kinds, 0), raw, kinds));
}

} // verus!
