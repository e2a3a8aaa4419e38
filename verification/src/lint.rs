//! Findings: the lines of a document that formatting changes.
//!
//! Formatting neither adds nor removes a line feed, so the lines of the
//! formatted document are those of the document, one for one. A finding is
//! a line of the document that differs from its formatted form.

use vstd::prelude::*;
use crate::lex::{find_char, lemma_find_char, position_of};
use crate::result::{line_views, LineResult, LineView, Severity};
use crate::span::{Span, SpanKind};
use crate::text::{same_chars, to_string};

verus! {

/// The number of line feeds before position `i`.
pub open spec fn newlines_before(s: Seq<char>, i: int) -> nat
    decreases i,
{
    if i <= 0 || i > s.len() {
        0
    } else if s[i - 1] == '\n' {
        newlines_before(s, i - 1) + 1
    } else {
        newlines_before(s, i - 1)
    }
}

/// The position at which the line that holds position `i` starts.
pub open spec fn line_start(s: Seq<char>, i: int) -> int
    decreases i,
{
    if i <= 0 || i > s.len() {
        0
    } else if s[i - 1] == '\n' {
        i
    } else {
        line_start(s, i - 1)
    }
}

/// The line of position `i`, counted from 1. A line ends with a line feed.
pub open spec fn line_of(s: Seq<char>, i: int) -> nat {
    newlines_before(s, i) + 1
}

/// The column of position `i`, counted from 1 in characters.
pub open spec fn col_of(s: Seq<char>, i: int) -> nat {
    (i - line_start(s, i) + 1) as nat
}

/// The line of `s` that starts at `i`, without its line feed.
pub open spec fn line_at(s: Seq<char>, i: int) -> Seq<char> {
    s.subrange(i, find_char(s, i, '\n'))
}

/// The start of the line behind the line that starts at `i`; the length
/// where there is none.
pub open spec fn next_start(s: Seq<char>, i: int) -> int {
    if find_char(s, i, '\n') < s.len() {
        find_char(s, i, '\n') + 1
    } else {
        s.len() as int
    }
}

/// `x` without its carriage return at the end, if `other` ends with one
/// too: a carriage return before the line feed belongs to the line end.
pub open spec fn cut(x: Seq<char>, other: Seq<char>) -> Seq<char> {
    if x.len() > 0 && other.len() > 0 && x.last() == '\r' && other.last() == '\r' {
        x.drop_last()
    } else {
        x
    }
}

/// The finding for the line of `a` that starts at `i`, which stands in
/// `b` at `j`: none if the two lines are the same.
pub open spec fn line_finding(a: Seq<char>, b: Seq<char>, i: int, j: int) -> Seq<LineView> {
    let old = line_at(a, i);
    let new = line_at(b, j);
    if old != new {
        seq![
            LineView {
                line: line_of(a, i),
                col: col_of(a, i),
                new: cut(new, old),
                old: cut(old, new),
                severity: Severity::Warn,
            },
        ]
    } else {
        Seq::empty()
    }
}

/// The findings for the lines of `a` from the one that starts at `i`,
/// which stands in `b` at `j`.
pub open spec fn diff_from(a: Seq<char>, b: Seq<char>, i: int, j: int) -> Seq<LineView>
    decreases a.len() - i,
{
    if 0 <= i <= a.len() && 0 <= j <= b.len() {
        let e = find_char(a, i, '\n');
        if i <= e < a.len() {
            line_finding(a, b, i, j) + diff_from(a, b, e + 1, next_start(b, j))
        } else {
            line_finding(a, b, i, j)
        }
    } else {
        Seq::empty()
    }
}

/// The findings of a document `a` whose formatted form is `b`: one for
/// each line of `a` that differs from the same line of `b`, in the order of
/// the lines.
pub open spec fn diff_lines(a: Seq<char>, b: Seq<char>) -> Seq<LineView> {
    diff_from(a, b, 0, 0)
}

/// Between a position and the next line feed the number of line feeds and
/// the start of the line stay.
pub proof fn lemma_same_line(s: Seq<char>, i: int, e: int)
    requires
        0 <= i <= e <= s.len(),
        forall|k: int| i <= k < e ==> s[k] != '\n',
    ensures
        newlines_before(s, e) == newlines_before(s, i),
        line_start(s, e) == line_start(s, i),
    decreases e - i,
{
    if i < e {
        lemma_same_line(s, i, e - 1);
    }
}

/// The number of line feeds in `s`.
pub open spec fn feeds(s: Seq<char>) -> nat {
    newlines_before(s, s.len() as int)
}

/// Texts that agree on their first `i` characters have the same number of
/// line feeds before position `i`.
pub proof fn lemma_feeds_agree(s: Seq<char>, t: Seq<char>, i: int)
    requires
        0 <= i <= s.len(),
        i <= t.len(),
        forall|k: int| 0 <= k < i ==> s[k] == t[k],
    ensures
        newlines_before(s, i) == newlines_before(t, i),
    decreases i,
{
    if i > 0 {
        lemma_feeds_agree(s, t, i - 1);
    }
}

/// The line feeds of a concatenation are those of its parts.
pub proof fn lemma_feeds_add(a: Seq<char>, b: Seq<char>)
    ensures
        feeds(a + b) == feeds(a) + feeds(b),
    decreases b.len(),
{
    let s = a + b;
    if b.len() == 0 {
        assert(s =~= a);
    } else {
        let short = b.drop_last();
        lemma_feeds_add(a, short);
        lemma_feeds_agree(s, a + short, s.len() - 1);
        lemma_feeds_agree(b, short, b.len() - 1);
        assert(s[s.len() - 1] == b[b.len() - 1]);
    }
}

/// A text without a line feed has none to count.
pub proof fn lemma_feeds_none(s: Seq<char>, i: int)
    requires
        0 <= i <= s.len(),
        forall|k: int| 0 <= k < i ==> s[k] != '\n',
    ensures
        newlines_before(s, i) == 0,
    decreases i,
{
    if i > 0 {
        lemma_feeds_none(s, i - 1);
    }
}

/// Two texts of one length that hold their line feeds at the same
/// positions have the same number of them.
pub proof fn lemma_feeds_pointwise(a: Seq<char>, b: Seq<char>, i: int)
    requires
        a.len() == b.len(),
        0 <= i <= a.len(),
        forall|k: int| 0 <= k < a.len() ==> (a[k] == '\n') == (b[k] == '\n'),
    ensures
        newlines_before(a, i) == newlines_before(b, i),
    decreases i,
{
    if i > 0 {
        lemma_feeds_pointwise(a, b, i - 1);
    }
}

/// The rest of a text from `i` on is its line, and behind a line feed the
/// rest from the next line on.
pub proof fn lemma_rest(s: Seq<char>, i: int)
    requires
        0 <= i <= s.len(),
    ensures
        i <= find_char(s, i, '\n') <= s.len(),
        find_char(s, i, '\n') < s.len() ==> s.skip(i) == line_at(s, i) + seq!['\n'] + s.skip(
            find_char(s, i, '\n') + 1,
        ) && feeds(s.skip(i)) == 1 + feeds(s.skip(find_char(s, i, '\n') + 1)),
        find_char(s, i, '\n') == s.len() ==> s.skip(i) == line_at(s, i) && feeds(s.skip(i)) == 0,
        find_char(s, i, '\n') == i + find_char(s.skip(i), 0, '\n'),
{
    let e = find_char(s, i, '\n');
    lemma_find_char(s, i, '\n');
    let line = line_at(s, i);
    lemma_feeds_none(line, line.len() as int);
    if e < s.len() {
        let rest = s.skip(e + 1);
        assert(s.skip(i) =~= line + seq!['\n'] + rest);
        lemma_feeds_add(line + seq!['\n'], rest);
        lemma_feeds_add(line, seq!['\n']);
        assert(feeds(seq!['\n']) == 1) by {
            assert(newlines_before(seq!['\n'], 0) == 0);
        }
    } else {
        assert(s.skip(i) =~= line);
    }
    lemma_find_in_rest(s, i, i);
}

/// Looking for a line feed from `k` on in a text, or from `k - i` on in its
/// rest from `i` on, comes to the same place.
pub proof fn lemma_find_in_rest(s: Seq<char>, i: int, k: int)
    requires
        0 <= i <= k <= s.len(),
    ensures
        find_char(s, k, '\n') == i + find_char(s.skip(i), k - i, '\n'),
    decreases s.len() - k,
{
    if k < s.len() {
        assert(s.skip(i)[k - i] == s[k]);
        if s[k] != '\n' {
            lemma_find_in_rest(s, i, k + 1);
        }
    }
}

/// Where `a` from `i` on and `b` from `j` on have the same number of line
/// feeds, there are no findings exactly when the two are the same.
pub proof fn lemma_diff_empty(a: Seq<char>, b: Seq<char>, i: int, j: int)
    requires
        0 <= i <= a.len(),
        0 <= j <= b.len(),
        feeds(a.skip(i)) == feeds(b.skip(j)),
    ensures
        diff_from(a, b, i, j).len() == 0 <==> a.skip(i) == b.skip(j),
    decreases a.len() - i,
{
    let e = find_char(a, i, '\n');
    let f = find_char(b, j, '\n');
    lemma_rest(a, i);
    lemma_rest(b, j);
    if e < a.len() {
        lemma_diff_empty(a, b, e + 1, f + 1);
        let rest_a = a.skip(e + 1);
        let rest_b = b.skip(f + 1);
        if a.skip(i) == b.skip(j) {
            let r = a.skip(i);
            assert(e - i == f - j);
            assert(line_at(a, i) =~= r.subrange(0, e - i));
            assert(line_at(b, j) =~= r.subrange(0, f - j));
            assert(rest_a =~= r.skip(e - i + 1));
            assert(rest_b =~= r.skip(f - j + 1));
        }
        if diff_from(a, b, i, j).len() == 0 {
            assert(line_finding(a, b, i, j).len() == 0);
            assert(line_at(a, i) == line_at(b, j));
            assert(diff_from(a, b, e + 1, f + 1).len() == 0);
        }
    } else {
        if a.skip(i) == b.skip(j) {
        }
    }
}

/// The findings stand in the order of the lines: each is on a later line
/// than the one before it, and none before the line at which they start.
pub proof fn lemma_diff_increases(a: Seq<char>, b: Seq<char>, i: int, j: int)
    requires
        0 <= i <= a.len(),
    ensures
        forall|k: int|
            0 <= k < diff_from(a, b, i, j).len() ==> (#[trigger] diff_from(a, b, i, j)[k]).line
                >= line_of(a, i),
        forall|k: int, m: int|
            0 <= k < m < diff_from(a, b, i, j).len() ==> (#[trigger] diff_from(a, b, i, j)[k]).line
                < (#[trigger] diff_from(a, b, i, j)[m]).line,
    decreases a.len() - i,
{
    if 0 <= j <= b.len() {
        let e = find_char(a, i, '\n');
        lemma_find_char(a, i, '\n');
        if e < a.len() {
            let first = line_finding(a, b, i, j);
            let rest = diff_from(a, b, e + 1, next_start(b, j));
            lemma_find_char(b, j, '\n');
            lemma_diff_increases(a, b, e + 1, next_start(b, j));
            lemma_same_line(a, i, e);
            assert(line_of(a, e + 1) == line_of(a, i) + 1);
            let all = diff_from(a, b, i, j);
            assert(all == first + rest);
            assert forall|k: int| 0 <= k < all.len() implies (#[trigger] all[k]).line >= line_of(
                a,
                i,
            ) by {
                if k >= first.len() {
                    assert(all[k] == rest[k - first.len()]);
                }
            }
            assert forall|k: int, m: int| 0 <= k < m < all.len() implies (#[trigger] all[k]).line
                < (#[trigger] all[m]).line by {
                assert(all[m] == rest[m - first.len()]);
                if k >= first.len() {
                    assert(all[k] == rest[k - first.len()]);
                }
            }
        }
    }
}

/// Whether the finding `f` speaks of position `p` of `raw`: `p` is the
/// start of a line, line and column are those of `p`, and the old text of
/// the finding stands there.
pub open spec fn stands_at(raw: Seq<char>, f: LineView, p: int) -> bool {
    &&& 0 <= p
    &&& p + f.old.len() <= raw.len()
    &&& line_start(raw, p) == p
    &&& line_of(raw, p) == f.line
    &&& col_of(raw, p) == f.col
    &&& f.col == 1
    &&& raw.subrange(p, p + f.old.len()) == f.old
}

/// Whether the finding `f` is true of `raw`: its old text stands in `raw`
/// at its line and column, its new text differs from the old one, and it
/// is a warning.
pub open spec fn finding_holds(raw: Seq<char>, f: LineView) -> bool {
    &&& exists|p: int| #[trigger] stands_at(raw, f, p)
    &&& f.new != f.old
    &&& f.severity == Severity::Warn
}

/// Every finding is true of the document.
pub proof fn lemma_diff_holds(a: Seq<char>, b: Seq<char>, i: int, j: int)
    requires
        0 <= i <= a.len(),
        line_start(a, i) == i,
    ensures
        forall|k: int|
            0 <= k < diff_from(a, b, i, j).len() ==> finding_holds(
                a,
                #[trigger] diff_from(a, b, i, j)[k],
            ),
    decreases a.len() - i,
{
    if 0 <= j <= b.len() {
        let e = find_char(a, i, '\n');
        lemma_find_char(a, i, '\n');
        lemma_find_char(b, j, '\n');
        let first = line_finding(a, b, i, j);
        let all = diff_from(a, b, i, j);
        if first.len() > 0 {
            let f = first[0];
            let old = line_at(a, i);
            let new = line_at(b, j);
            assert(f.old =~= a.subrange(i, i + f.old.len()));
            assert(stands_at(a, f, i));
            if old.len() > 0 && new.len() > 0 && old.last() == '\r' && new.last() == '\r' {
                if old.drop_last() == new.drop_last() {
                    assert(old =~= old.drop_last().push('\r'));
                    assert(new =~= new.drop_last().push('\r'));
                }
            }
            assert(finding_holds(a, f));
        }
        if e < a.len() {
            let rest = diff_from(a, b, e + 1, next_start(b, j));
            lemma_diff_holds(a, b, e + 1, next_start(b, j));
            assert(all == first + rest);
            assert forall|k: int| 0 <= k < all.len() implies finding_holds(a, #[trigger] all[k]) by {
                if k >= first.len() {
                    assert(all[k] == rest[k - first.len()]);
                } else {
                    assert(all[k] == first[0]);
                }
            }
        } else {
            assert(all == first);
        }
    }
}

/// A document that is its own formatted form has no findings.
pub proof fn lemma_diff_same(a: Seq<char>, i: int)
    ensures
        diff_from(a, a, i, i) == Seq::<LineView>::empty(),
    decreases a.len() - i,
{
    if 0 <= i <= a.len() {
        let e = find_char(a, i, '\n');
        if i <= e < a.len() {
            lemma_diff_same(a, e + 1);
        }
    }
}

/// The line that starts at `i`, as a vector.
fn line_of_text(s: &Vec<char>, i: usize, e: usize) -> (out: Vec<char>)
    requires
        i <= e <= s.len(),
    ensures
        out@ == s@.subrange(i as int, e as int),
{
    let span = Span { kind: SpanKind::Text, start: i, end: e };
    span.text(s)
}

fn cut_line(x: Vec<char>, other: &Vec<char>) -> (out: Vec<char>)
    ensures
        out@ == cut(x@, other@),
{
    let mut x = x;
    if x.len() > 0 && other.len() > 0 && x[x.len() - 1] == '\r' && other[other.len() - 1] == '\r' {
        x.pop();
    }
    x
}

/// The findings of the document `a` whose formatted form is `b`.
pub fn diff(a: &Vec<char>, b: &Vec<char>) -> (out: Vec<LineResult>)
    requires
        a.len() < usize::MAX,
    ensures
        line_views(out@) == diff_lines(a@, b@),
{
    let mut out: Vec<LineResult> = Vec::new();
    let mut i: usize = 0;
    let mut j: usize = 0;
    let mut line: usize = 1;
    let mut more = true;
    proof {
        assert(line_views(out@) =~= Seq::<LineView>::empty());
        assert(line_views(out@) + diff_from(a@, b@, 0, 0) =~= diff_lines(a@, b@));
    }
    while more
        invariant
            a.len() < usize::MAX,
            i <= a.len(),
            j <= b.len(),
            line == line_of(a@, i as int),
            line <= i + 1,
            line_start(a@, i as int) == i,
            more ==> line_views(out@) + diff_from(a@, b@, i as int, j as int) == diff_lines(a@, b@),
            !more ==> line_views(out@) == diff_lines(a@, b@),
        decreases
                a.len() - i + if more {
                    1nat
                } else {
                    0nat
                },
    {
        let e = position_of(a, i, '\n');
        let f = position_of(b, j, '\n');
        let ghost views = line_views(out@);
        proof {
            lemma_find_char(a@, i as int, '\n');
            lemma_find_char(b@, j as int, '\n');
        }
        let old_line = line_of_text(a, i, e);
        let new_line = line_of_text(b, j, f);
        if !same_chars(&old_line, &new_line) {
            let new_cut = cut_line(new_line, &old_line);
            let new_text = to_string(&new_cut);
            let old_cut = cut_line(old_line, &line_of_text(b, j, f));
            let item = LineResult {
                line,
                col: 1,
                new: new_text,
                old: to_string(&old_cut),
                severity: Severity::Warn,
            };
            let ghost item_view = item@;
            out.push(item);
            proof {
                assert(line_views(out@) =~= views.push(item_view));
                assert(line_finding(a@, b@, i as int, j as int) =~= seq![item_view]);
            }
        }
        proof {
            assert(line_views(out@) =~= views + line_finding(a@, b@, i as int, j as int));
        }
        if e < a.len() {
            proof {
                lemma_same_line(a@, i as int, e as int);
                assert(line_views(out@) + diff_from(a@, b@, e + 1, next_start(b@, j as int))
                    =~= views + (line_finding(a@, b@, i as int, j as int) + diff_from(
                    a@,
                    b@,
                    e + 1,
                    next_start(b@, j as int),
                )));
            }
            i = e + 1;
            j = if f < b.len() {
                f + 1
            } else {
                b.len()
            };
            line = line + 1;
        } else {
            more = false;
        }
    }
    out
}

} // verus!
