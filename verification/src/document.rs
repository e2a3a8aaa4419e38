//! Whole documents: the ignore directive, formatting and linting by file
//! type.

use vstd::prelude::*;
use crate::charset::{classify, kinds_of, Kind};
use crate::engine::format_classified;
use crate::filetype::{syntax_of, syntax_of_spec};
use crate::fmt::{decimal, decimal_of, push_all, push_str};
use crate::lex::{starts, starts_with};
use crate::lint::{diff, diff_lines, lemma_diff_same};
use crate::result::{line_views, FormatResult, LineView, LintResult};
use crate::span::{chain, covers, rewrite_one, rewrite_spec, Span};
use crate::text::{to_chars, to_string};
use crate::token::{extract, first_fault, lex, ParseError};
use crate::unicode::{classes_available, Classes};

verus! {

/// The start of the ignore directive.
pub open spec fn directive() -> Seq<char> {
    seq!['a', 'u', 't', 'o', 'c', 'o', 'r', 'r', 'e', 'c', 't', ':']
}

pub open spec fn word_false() -> Seq<char> {
    seq!['f', 'a', 'l', 's', 'e']
}

/// The first position at or after `i` that holds neither a space nor a
/// tab, or the length.
pub open spec fn skip_gap(s: Seq<char>, i: int) -> int
    decreases s.len() - i,
{
    if 0 <= i < s.len() && (s[i] == ' ' || s[i] == '\t') {
        skip_gap(s, i + 1)
    } else {
        i
    }
}

/// Whether the ignore directive stands at `p`: `autocorrect:`, then any
/// number of spaces and tabs, then `0` or `false`.
pub open spec fn directive_at(s: Seq<char>, p: int) -> bool {
    let q = skip_gap(s, p + 12);
    starts(s, p, directive()) && (starts(s, q, seq!['0']) || starts(s, q, word_false()))
}

/// Whether the ignore directive stands somewhere in `s`.
pub open spec fn has_ignore_directive(s: Seq<char>) -> bool {
    exists|p: int| 0 <= p < s.len() && #[trigger] directive_at(s, p)
}

fn after_gap(raw: &Vec<char>, i: usize) -> (j: usize)
    requires
        i <= raw.len(),
    ensures
        j == skip_gap(raw@, i as int),
        i <= j <= raw.len(),
{
    let mut j: usize = i;
    while j < raw.len() && (raw[j] == ' ' || raw[j] == '\t')
        invariant
            i <= j <= raw.len(),
            skip_gap(raw@, j as int) == skip_gap(raw@, i as int),
        decreases raw.len() - j,
    {
        j = j + 1;
    }
    j
}

/// Whether the characters `raw` hold the ignore directive.
pub fn ignores(raw: &Vec<char>) -> (r: bool)
    ensures
        r == has_ignore_directive(raw@),
{
    let directive: [char; 12] = ['a', 'u', 't', 'o', 'c', 'o', 'r', 'r', 'e', 'c', 't', ':'];
    let zero: [char; 1] = ['0'];
    let word_false: [char; 5] = ['f', 'a', 'l', 's', 'e'];
    proof {
        assert(directive@ =~= self::directive());
        assert(zero@ =~= seq!['0']);
        assert(word_false@ =~= self::word_false());
    }
    let mut p: usize = 0;
    while p < raw.len()
        invariant
            p <= raw.len(),
            directive@ == self::directive(),
            zero@ == seq!['0'],
            word_false@ == self::word_false(),
            forall|k: int| 0 <= k < p ==> !#[trigger] directive_at(raw@, k),
        decreases raw.len() - p,
    {
        if starts_with(raw, p, directive.as_slice()) {
            let q = after_gap(raw, p + 12);
            if starts_with(raw, q, zero.as_slice()) || starts_with(raw, q, word_false.as_slice()) {
                proof {
                    assert(directive_at(raw@, p as int));
                }
                return true;
            }
        }
        p = p + 1;
    }
    false
}

/// Whether a document asks not to be touched: it holds `autocorrect:`
/// followed, after any spaces and tabs, by `0` or `false`.
pub fn is_ignore_auto_correct(raw: &str) -> (r: bool)
    ensures
        r == has_ignore_directive(raw@),
{
    let chars = to_chars(raw);
    ignores(&chars)
}

/// The position of the last `c` in `s`, or -1.
pub open spec fn last_index_of(s: Seq<char>, c: char) -> int
    decreases s.len(),
{
    if s.len() == 0 {
        -1
    } else if s.last() == c {
        s.len() - 1
    } else {
        last_index_of(s.drop_last(), c)
    }
}

/// The path `s` without the `/` at its end.
pub open spec fn without_slashes(s: Seq<char>) -> Seq<char>
    decreases s.len(),
{
    if s.len() > 0 && s.last() == '/' {
        without_slashes(s.drop_last())
    } else {
        s
    }
}

/// The name of the file that the path `s` leads to: what stands behind the
/// last `/`, not counting any `/` at the end of the path.
pub open spec fn file_name_of(s: Seq<char>) -> Seq<char> {
    without_slashes(s).skip(last_index_of(without_slashes(s), '/') + 1)
}

/// The extension of the file that the path `s` leads to: what stands behind
/// the last `.` of the file name. A name without a `.`, or with its only
/// `.` at its start, has the empty extension.
pub open spec fn extension_of(s: Seq<char>) -> Seq<char> {
    let name = file_name_of(s);
    let dot = last_index_of(name, '.');
    if dot <= 0 {
        Seq::empty()
    } else {
        name.skip(dot + 1)
    }
}

pub proof fn lemma_last_index_of(s: Seq<char>, c: char)
    ensures
        -1 <= last_index_of(s, c) < s.len(),
        last_index_of(s, c) >= 0 ==> s[last_index_of(s, c)] == c,
    decreases s.len(),
{
    if s.len() > 0 && s.last() != c {
        lemma_last_index_of(s.drop_last(), c);
    }
}

/// The position behind the last `c` in `raw[from..]`, or `from`.
fn after_last(raw: &Vec<char>, from: usize, c: char) -> (j: usize)
    requires
        from <= raw.len(),
    ensures
        j == from + last_index_of(raw@.skip(from as int), c) + 1,
        from <= j <= raw.len(),
{
    let ghost tail = raw@.skip(from as int);
    let mut j: usize = raw.len();
    proof {
        lemma_last_index_of(tail, c);
        assert(tail.take(tail.len() as int) =~= tail);
    }
    while j > from && raw[j - 1] != c
        invariant
            from <= j <= raw.len(),
            tail == raw@.skip(from as int),
            last_index_of(tail.take(j - from), c) == last_index_of(tail, c),
        decreases j,
    {
        proof {
            let t = tail.take(j - from);
            assert(t.last() == raw@[j - 1]);
            assert(t.drop_last() =~= tail.take(j - from - 1));
        }
        j = j - 1;
    }
    proof {
        let t = tail.take(j - from);
        if j > from {
            assert(t.last() == raw@[j - 1]);
        }
    }
    j
}

/// The extension of the file that `filepath` leads to, without its dot;
/// empty where the file name has none.
pub fn get_file_extension(filepath: &str) -> (ext: String)
    ensures
        ext@ == extension_of(filepath@),
{
    let mut raw = to_chars(filepath);
    while raw.len() > 0 && raw[raw.len() - 1] == '/'
        invariant
            without_slashes(raw@) == without_slashes(filepath@),
        decreases raw.len(),
    {
        proof {
            assert(raw@.drop_last() =~= raw@.subrange(0, raw@.len() - 1));
        }
        raw.pop();
    }
    let name = after_last(&raw, 0, '/');
    let dot = after_last(&raw, name, '.');
    let mut out: Vec<char> = Vec::new();
    proof {
        assert(raw@.skip(0) =~= raw@);
        assert(file_name_of(raw@) == raw@.skip(name as int));
    }
    if dot - name > 1 {
        let mut k: usize = dot;
        while k < raw.len()
            invariant
                dot <= k <= raw.len(),
                out@ == raw@.subrange(dot as int, k as int),
            decreases raw.len() - k,
        {
            out.push(raw[k]);
            proof {
                assert(raw@.subrange(dot as int, k + 1) =~= raw@.subrange(dot as int, k as int).push(
                    raw@[k as int],
                ));
            }
            k = k + 1;
        }
        proof {
            assert(raw@.subrange(dot as int, raw@.len() as int) =~= raw@.skip(name as int).skip(
                dot - name,
            ));
        }
    } else {
        proof {
            assert(out@ =~= Seq::<char>::empty());
        }
    }
    to_string(&out)
}

/// The message of a parse error.
pub open spec fn error_message(at: nat) -> Seq<char> {
    "unterminated comment or literal at character "@ + decimal(at)
}

/// The message for a document that has too many characters for its lines
/// to be counted.
pub open spec fn too_long_message() -> Seq<char> {
    "document is too long"@
}

/// The message when the character classes cannot be had.
pub open spec fn unavailable_message() -> Seq<char> {
    "character classes are not available"@
}

/// What the cutting of `raw` as a document of type `filetype` comes to:
/// `None` where the document is not touched at all, because it holds the
/// ignore directive or its type is unknown; else the spans, or the
/// position of the token without an end.
pub open spec fn parse_spec(raw: Seq<char>, kinds: Seq<Kind>, filetype: Seq<char>) -> Option<
    Result<Seq<Span>, int>,
> {
    if has_ignore_directive(raw) {
        None
    } else {
        match syntax_of_spec(filetype) {
            None => None,
            Some(syntax) => match first_fault(syntax, raw, kinds, 0) {
                Some(at) => Some(Err(at)),
                None => Some(Ok(lex(syntax, raw, kinds, 0))),
            },
        }
    }
}

/// The text that formatting hands back for a document whose characters
/// are of the kinds `kinds`: the document with its prose formatted; the
/// document itself where it is not touched or cannot be cut into spans.
pub open spec fn format_out(raw: Seq<char>, kinds: Seq<Kind>, filetype: Seq<char>) -> Seq<char> {
    match parse_spec(raw, kinds, filetype) {
        Some(Ok(spans)) => rewrite_spec(spans, raw, kinds),
        _ => raw,
    }
}

/// The error that formatting and linting hand back: empty unless the
/// document cannot be cut into spans.
pub open spec fn error_text(raw: Seq<char>, kinds: Seq<Kind>, filetype: Seq<char>) -> Seq<char> {
    match parse_spec(raw, kinds, filetype) {
        Some(Err(at)) => error_message(at as nat),
        _ => Seq::empty(),
    }
}

/// The findings that linting hands back: the lines of the document that
/// differ from the same lines of what formatting hands back.
pub open spec fn lint_lines(raw: Seq<char>, kinds: Seq<Kind>, filetype: Seq<char>) -> Seq<
    LineView,
> {
    diff_lines(raw, format_out(raw, kinds, filetype))
}

/// The text that formatting hands back, with the kinds that the tables give
/// the characters of the document.
pub open spec fn format_for_out(raw: Seq<char>, filetype: Seq<char>) -> Seq<char> {
    format_out(raw, kinds_of(raw), filetype)
}

/// The error that formatting and linting hand back, with the kinds that the
/// tables give the characters of the document.
pub open spec fn error_of(raw: Seq<char>, filetype: Seq<char>) -> Seq<char> {
    error_text(raw, kinds_of(raw), filetype)
}

/// The findings that linting hands back, with the kinds that the tables
/// give the characters of the document.
pub open spec fn lint_for_lines(raw: Seq<char>, filetype: Seq<char>) -> Seq<LineView> {
    lint_lines(raw, kinds_of(raw), filetype)
}

/// In a chain of spans every span lies inside the range of the chain.
pub proof fn lemma_chain_bounds(spans: Seq<Span>, upto: int)
    requires
        chain(spans, upto),
    ensures
        0 <= upto,
        forall|k: int| 0 <= k < spans.len() ==> (#[trigger] spans[k]).start <= spans[k].end <= upto,
    decreases spans.len(),
{
    if spans.len() > 0 {
        let rest = spans.drop_last();
        lemma_chain_bounds(rest, spans.last().start as int);
        assert forall|k: int| 0 <= k < spans.len() implies (#[trigger] spans[k]).start
            <= spans[k].end <= upto by {
            if k < spans.len() - 1 {
                assert(rest[k] == spans[k]);
            }
        }
    }
}

/// Puts a document together again, with its prose spans formatted.
pub fn rewrite(raw: &Vec<char>, kinds: &Vec<Kind>, spans: &Vec<Span>) -> (out: Vec<char>)
    requires
        kinds.len() == raw.len(),
        forall|k: int|
            0 <= k < spans@.len() ==> (#[trigger] spans@[k]).start <= spans@[k].end
                <= raw@.len(),
    ensures
        out@ == rewrite_spec(spans@, raw@, kinds@),
{
    let mut out: Vec<char> = Vec::new();
    let mut k: usize = 0;
    while k < spans.len()
        invariant
            kinds.len() == raw.len(),
            k <= spans.len(),
            forall|j: int|
                0 <= j < spans@.len() ==> (#[trigger] spans@[j]).start <= spans@[j].end
                    <= raw@.len(),
            out@ == rewrite_spec(spans@.take(k as int), raw@, kinds@),
        decreases spans.len() - k,
    {
        let span = spans[k];
        let text = span.text(raw);
        let ghost before = out@;
        if span.is_prose() {
            let formatted = format_classified(&text, &span.kinds(kinds));
            push_all(&mut out, &formatted);
        } else {
            push_all(&mut out, &text);
        }
        proof {
            let now = spans@.take(k + 1);
            assert(now.drop_last() =~= spans@.take(k as int));
            assert(now.last() == spans@[k as int]);
            assert(out@ =~= before + rewrite_one(span, raw@, kinds@));
        }
        k = k + 1;
    }
    proof {
        assert(spans@.take(k as int) =~= spans@);
    }
    out
}

/// Cuts a document of type `filetype` into spans, unless it is not to be
/// touched.
pub fn parse_document(raw: &Vec<char>, kinds: &Vec<Kind>, filetype: &str) -> (r: Option<
    Result<Vec<Span>, ParseError>,
>)
    requires
        kinds.len() == raw.len(),
    ensures
        r is None <==> parse_spec(raw@, kinds@, filetype@) is None,
        r matches Some(Ok(spans)) ==> parse_spec(raw@, kinds@, filetype@) == Some(
            Ok::<Seq<Span>, int>(spans@),
        ) && covers(spans@, raw@.len() as int),
        r matches Some(Err(e)) ==> parse_spec(raw@, kinds@, filetype@) == Some(
            Err::<Seq<Span>, int>(e.at as int),
        ),
{
    if ignores(raw) {
        return None;
    }
    match syntax_of(filetype) {
        None => None,
        Some(syntax) => Some(extract(syntax, raw, kinds)),
    }
}

fn message_of(e: ParseError) -> (m: String)
    ensures
        m@ == error_message(e.at as nat),
{
    let mut out: Vec<char> = Vec::new();
    push_str(&mut out, "unterminated comment or literal at character ");
    push_all(&mut out, &decimal_of(e.at));
    proof {
        assert(out@ =~= error_message(e.at as nat));
    }
    to_string(&out)
}

/// Formats a document of type `filetype` whose characters are of the kinds
/// `kinds`.
pub fn format_classified_for(raw: &Vec<char>, kinds: &Vec<Kind>, filetype: &str) -> (r:
    FormatResult)
    requires
        kinds.len() == raw.len(),
    ensures
        r.out@ == format_out(raw@, kinds@, filetype@),
        r.error@ == error_text(raw@, kinds@, filetype@),
{
    match parse_document(raw, kinds, filetype) {
        None => FormatResult { out: to_string(raw), error: String::new() },
        Some(Err(e)) => FormatResult { out: to_string(raw), error: message_of(e) },
        Some(Ok(spans)) => {
            proof {
                lemma_chain_bounds(spans@, raw@.len() as int);
            }
            let out = rewrite(raw, kinds, &spans);
            FormatResult { out: to_string(&out), error: String::new() }
        },
    }
}

/// Lints a document of type `filetype` whose characters are of the kinds
/// `kinds`: one finding for each line that formatting changes.
pub fn lint_classified_for(raw: &Vec<char>, kinds: &Vec<Kind>, filetype: &str) -> (r: LintResult)
    requires
        kinds.len() == raw.len(),
        raw.len() < usize::MAX,
    ensures
        r.raw@ == raw@,
        r.filepath@.len() == 0,
        line_views(r.lines@) == lint_lines(raw@, kinds@, filetype@),
        r.error@ == error_text(raw@, kinds@, filetype@),
{
    match parse_document(raw, kinds, filetype) {
        None => {
            let r = LintResult {
                raw: to_string(raw),
                filepath: String::new(),
                lines: Vec::new(),
                error: String::new(),
            };
            proof {
                lemma_diff_same(raw@, 0);
                assert(line_views(r.lines@) =~= Seq::<LineView>::empty());
            }
            r
        },
        Some(Err(e)) => {
            let r = LintResult {
                raw: to_string(raw),
                filepath: String::new(),
                lines: Vec::new(),
                error: message_of(e),
            };
            proof {
                lemma_diff_same(raw@, 0);
                assert(line_views(r.lines@) =~= Seq::<LineView>::empty());
            }
            r
        },
        Some(Ok(spans)) => {
            proof {
                lemma_chain_bounds(spans@, raw@.len() as int);
            }
            let out = rewrite(raw, kinds, &spans);
            let lines = diff(raw, &out);
            LintResult { raw: to_string(raw), filepath: String::new(), lines, error: String::new() }
        },
    }
}

/// Formats a document of type `filetype` with classes that the caller has
/// compiled.
pub fn format_for_with(classes: &Classes, raw: &str, filetype: &str) -> (r: FormatResult)
    requires
        classes.wf(),
    ensures
        r.out@ == format_for_out(raw@, filetype@),
        r.error@ == error_of(raw@, filetype@),
{
    let chars = to_chars(raw);
    let kinds = classify(classes, &chars);
    format_classified_for(&chars, &kinds, filetype)
}

/// Lints a document of type `filetype` with classes that the caller has
/// compiled.
pub fn lint_for_with(classes: &Classes, raw: &str, filetype: &str) -> (r: LintResult)
    requires
        classes.wf(),
    ensures
        r.raw@ == raw@,
        r.filepath@.len() == 0,
        raw@.len() < usize::MAX ==> line_views(r.lines@) == lint_for_lines(raw@, filetype@)
            && r.error@ == error_of(raw@, filetype@),
        raw@.len() >= usize::MAX ==> r.lines@.len() == 0 && r.error@ == too_long_message(),
{
    let chars = to_chars(raw);
    if chars.len() == usize::MAX {
        return LintResult {
            raw: raw.to_owned(),
            filepath: String::new(),
            lines: Vec::new(),
            error: "document is too long".to_owned(),
        };
    }
    let kinds = classify(classes, &chars);
    lint_classified_for(&chars, &kinds, filetype)
}

/// Formats a document of type `filetype`: its prose is formatted, its code
/// is kept. A document that holds the ignore directive, or whose type is
/// unknown, comes back as it is; so does one that cannot be cut into
/// spans, together with an error.
pub fn format_for(raw: &str, filetype: &str) -> (r: FormatResult)
    ensures
        classes_available() ==> r.out@ == format_for_out(raw@, filetype@) && r.error@ == error_of(
            raw@,
            filetype@,
        ),
        !classes_available() ==> r.out@ == raw@ && r.error@ == unavailable_message(),
{
    match Classes::new() {
        Some(classes) => format_for_with(&classes, raw, filetype),
        None => FormatResult {
            out: raw.to_owned(),
            error: "character classes are not available".to_owned(),
        },
    }
}

/// Lints a document of type `filetype`: one finding for each line that
/// formatting would change, in the order of the lines. A document that
/// holds the ignore directive, or whose type is unknown, has no findings;
/// neither has one that cannot be cut into spans, which has an error. A
/// document whose lines cannot be counted in the machine's integers has an
/// error and no findings.
pub fn lint_for(raw: &str, filetype: &str) -> (r: LintResult)
    ensures
        r.raw@ == raw@,
        r.filepath@.len() == 0,
        classes_available() && raw@.len() < usize::MAX ==> line_views(r.lines@) == lint_for_lines(
            raw@,
            filetype@,
        ) && r.error@ == error_of(raw@, filetype@),
        classes_available() && raw@.len() >= usize::MAX ==> r.lines@.len() == 0 && r.error@
            == too_long_message(),
        !classes_available() ==> r.lines@.len() == 0 && r.error@ == unavailable_message(),
{
    match Classes::new() {
        Some(classes) => lint_for_with(&classes, raw, filetype),
        None => LintResult {
            raw: raw.to_owned(),
            filepath: String::new(),
            lines: Vec::new(),
            error: "character classes are not available".to_owned(),
        },
    }
}

/// Formats an HTML document and hands back the text.
pub fn format_html(html: &str) -> (out: String)
    ensures
        classes_available() ==> out@ == format_for_out(html@, "html"@),
        !classes_available() ==> out@ == html@,
{
    format_for(html, "html").out
}

} // verus!
