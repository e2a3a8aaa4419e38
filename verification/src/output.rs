//! What a driver does with a document: which text it prints or writes, and
//! how the findings of many documents are reported.

use vstd::prelude::*;
use crate::document::{
    error_of, format_for, format_for_out, lint_for, lint_for_lines, unavailable_message,
};
use crate::fmt::{decimal, decimal_of, push_all, push_str};
use crate::result::{diff_spec, json_spec, line_views};
use crate::text::{is_text, to_chars, to_string};
use crate::unicode::classes_available;

verus! {

/// The texts of a list of strings.
pub open spec fn texts(v: Seq<String>) -> Seq<Seq<char>> {
    Seq::new(v.len(), |k: int| v[k]@)
}

/// What linting one document adds to the report: nothing for a document
/// without findings; else the findings as one JSON object where
/// `formatter` is `json`, and in the diff form otherwise.
pub open spec fn lint_output(
    filepath: Seq<char>,
    filetype: Seq<char>,
    raw: Seq<char>,
    formatter: Seq<char>,
) -> Seq<Seq<char>> {
    let lines = lint_for_lines(raw, filetype);
    if lines.len() == 0 {
        Seq::empty()
    } else if formatter == "json"@ {
        seq![json_spec(filepath, raw, error_of(raw, filetype), lines)]
    } else {
        seq![diff_spec(filepath, lines)]
    }
}

/// Lints the document `raw` of the file `filepath` and appends what is to
/// be reported of it to `results`.
pub fn lint_and_output(
    filepath: &str,
    filetype: &str,
    raw: &str,
    formatter: &str,
    results: &mut Vec<String>,
)
    ensures
        classes_available() && raw@.len() < usize::MAX ==> texts(final(results)@) == texts(
            old(results)@,
        ) + lint_output(filepath@, filetype@, raw@, formatter@),
        !(classes_available() && raw@.len() < usize::MAX) ==> texts(final(results)@) == texts(
            old(results)@,
        ),
{
    let ghost before = texts(results@);
    let mut result = lint_for(raw, filetype);
    proof {
        assert(line_views(result.lines@).len() == result.lines@.len());
    }
    if result.lines.len() == 0 {
        proof {
            assert(texts(results@) + Seq::<Seq<char>>::empty() =~= texts(results@));
        }
        return ;
    }
    result.filepath = filepath.to_owned();
    let kind = to_chars(formatter);
    let text = if is_text(&kind, "json") {
        result.to_json()
    } else {
        result.to_diff()
    };
    let ghost text_view = text@;
    results.push(text);
    proof {
        assert(texts(results@) =~= before + seq![text_view]);
    }
}

/// What is to be done with a formatted document.
#[derive(Debug)]
pub enum Output {
    /// Nothing.
    Skip,
    /// The text is printed.
    Print(String),
    /// The text is written to the file; `changed` says whether it differs
    /// from the document.
    Write { content: String, changed: bool },
    /// The document could not be formatted: it is reported as it is.
    Report(String),
}

/// An `Output`, as the contracts see it.
pub enum OutputView {
    Skip,
    Print(Seq<char>),
    Write { content: Seq<char>, changed: bool },
    Report(Seq<char>),
}

impl View for Output {
    type V = OutputView;

    open spec fn view(&self) -> OutputView {
        match self {
            Output::Skip => OutputView::Skip,
            Output::Print(s) => OutputView::Print(s@),
            Output::Write { content, changed } => OutputView::Write {
                content: content@,
                changed: *changed,
            },
            Output::Report(s) => OutputView::Report(s@),
        }
    }
}

/// What is done with a document whose formatting gave `out` and `error`.
/// With `fix` the text is written to the file, unless there was an error
/// or there is no path. Without it the text is printed; after an error the
/// document is reported instead.
pub open spec fn output_spec(
    filepath: Seq<char>,
    raw: Seq<char>,
    out: Seq<char>,
    error: Seq<char>,
    fix: bool,
) -> OutputView {
    if fix {
        if error.len() > 0 || filepath.len() == 0 {
            OutputView::Skip
        } else {
            OutputView::Write { content: out, changed: out != raw }
        }
    } else if error.len() > 0 {
        OutputView::Report(raw)
    } else {
        OutputView::Print(out)
    }
}

/// Formats the document `raw` of the file `filepath` and says what is to
/// be done with the result.
pub fn format_and_output(filepath: &str, filetype: &str, raw: &str, fix: bool) -> (r: Output)
    ensures
        classes_available() ==> r@ == output_spec(
            filepath@,
            raw@,
            format_for_out(raw@, filetype@),
            error_of(raw@, filetype@),
            fix,
        ),
        !classes_available() ==> r@ == output_spec(
            filepath@,
            raw@,
            raw@,
            unavailable_message(),
            fix,
        ),
{
    let result = format_for(raw, filetype);
    proof {
        reveal_strlit("character classes are not available");
    }
    if fix {
        if result.has_error() || filepath.is_empty() {
            Output::Skip
        } else {
            let changed = !crate::text::same_chars(&to_chars(result.out.as_str()), &to_chars(raw));
            Output::Write { content: result.out, changed }
        }
    } else if result.has_error() {
        Output::Report(raw.to_owned())
    } else {
        Output::Print(result.out)
    }
}

/// `parts` with `sep` between two of them.
pub open spec fn joined(parts: Seq<Seq<char>>, sep: Seq<char>) -> Seq<char>
    decreases parts.len(),
{
    if parts.len() == 0 {
        Seq::empty()
    } else if parts.len() == 1 {
        parts[0]
    } else {
        joined(parts.drop_last(), sep) + sep + parts.last()
    }
}

/// The report of a lint run in JSON: the number of entries and the entries.
pub open spec fn json_report_spec(parts: Seq<Seq<char>>) -> Seq<char> {
    "{\"count\": "@ + decimal(parts.len()) + ",\"messages\": ["@ + joined(parts, ","@) + "]}"@
}

fn join(results: &Vec<String>, sep: &str) -> (out: Vec<char>)
    ensures
        out@ == joined(texts(results@), sep@),
{
    let mut out: Vec<char> = Vec::new();
    let ghost all = texts(results@);
    let mut k: usize = 0;
    while k < results.len()
        invariant
            k <= results.len(),
            all == texts(results@),
            out@ == joined(all.take(k as int), sep@),
        decreases results.len() - k,
    {
        let ghost before = out@;
        if k > 0 {
            push_str(&mut out, sep);
        }
        push_str(&mut out, results[k].as_str());
        proof {
            let now = all.take(k + 1);
            assert(now.drop_last() =~= all.take(k as int));
            assert(now.last() == results@[k as int]@);
            if k == 0 {
                assert(now[0] == now.last());
                assert(out@ =~= now[0]);
            } else {
                assert(out@ =~= before + sep@ + now.last());
            }
        }
        k = k + 1;
    }
    proof {
        assert(all.take(k as int) =~= all);
    }
    out
}

/// The report of a lint run in JSON.
pub fn json_report(results: &Vec<String>) -> (out: String)
    ensures
        out@ == json_report_spec(texts(results@)),
{
    let mut out: Vec<char> = Vec::new();
    push_str(&mut out, "{\"count\": ");
    push_all(&mut out, &decimal_of(results.len()));
    push_str(&mut out, ",\"messages\": [");
    push_all(&mut out, &join(results, ","));
    push_str(&mut out, "]}");
    proof {
        assert(texts(results@).len() == results@.len());
        assert(out@ =~= json_report_spec(texts(results@)));
    }
    to_string(&out)
}

/// The report of a lint run in the diff form: the entries, each on lines of
/// its own.
pub fn diff_report(results: &Vec<String>) -> (out: String)
    ensures
        out@ == joined(texts(results@), "\n"@),
{
    to_string(&join(results, "\n"))
}

/// The exit code of a lint run: 1 where the diff form reports findings, 0
/// otherwise.
pub fn exit_code(formatter: &str, findings: usize) -> (code: i32)
    ensures
        code == if formatter@ != "json"@ && findings > 0 {
            1i32
        } else {
            0i32
        },
{
    let kind = to_chars(formatter);
    if !is_text(&kind, "json") && findings > 0 {
        1
    } else {
        0
    }
}

} // verus!
