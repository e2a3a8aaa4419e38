//! What formatting and linting hand back.

use vstd::prelude::*;
use crate::fmt::{decimal, decimal_of, json_string, push_all, push_json_string, push_str};
use crate::text::{to_chars, to_string};

verus! {

/// How serious a finding is.
#[derive(Clone, Copy, Debug, PartialEq, Eq, Structural)]
pub enum Severity {
    Pass,
    Warn,
    Error,
}

/// The number that stands for a severity: 0 for `Pass`, 1 for `Warn`, 2 for
/// `Error`.
pub open spec fn severity_code(s: Severity) -> nat {
    match s {
        Severity::Pass => 0,
        Severity::Warn => 1,
        Severity::Error => 2,
    }
}

impl Severity {
    /// The number that stands for the severity.
    pub fn code(&self) -> (n: u8)
        ensures
            n == severity_code(*self),
    {
        match self {
            Severity::Pass => 0,
            Severity::Warn => 1,
            Severity::Error => 2,
        }
    }
}

/// One finding: at line `line` and column `col` of the document, both
/// counted from 1 and the column in characters, stands `old`, which
/// formatting turns into `new`.
#[derive(Debug)]
pub struct LineResult {
    pub line: usize,
    pub col: usize,
    pub new: String,
    pub old: String,
    pub severity: Severity,
}

/// A finding, as the contracts see it.
pub struct LineView {
    pub line: nat,
    pub col: nat,
    pub new: Seq<char>,
    pub old: Seq<char>,
    pub severity: Severity,
}

impl View for LineResult {
    type V = LineView;

    open spec fn view(&self) -> LineView {
        LineView {
            line: self.line as nat,
            col: self.col as nat,
            new: self.new@,
            old: self.old@,
            severity: self.severity,
        }
    }
}

/// The findings of `lines`, as the contracts see them.
pub open spec fn line_views(lines: Seq<LineResult>) -> Seq<LineView> {
    Seq::new(lines.len(), |k: int| lines[k]@)
}

/// The result of formatting a document: the rewritten text, or the
/// document as it was together with an error.
#[derive(Debug)]
pub struct FormatResult {
    pub out: String,
    pub error: String,
}

impl FormatResult {
    /// The result that hands `raw` back unchanged.
    pub fn new(raw: &str) -> (r: FormatResult)
        ensures
            r.out@ == raw@,
            r.error@.len() == 0,
    {
        FormatResult { out: raw.to_owned(), error: String::new() }
    }

    /// Whether formatting failed.
    pub fn has_error(&self) -> (r: bool)
        ensures
            r == (self.error@.len() > 0),
    {
        !self.error.as_str().is_empty()
    }
}

/// The result of linting a document: the document, the path it came from,
/// and its findings in the order of the document, or an error.
#[derive(Debug)]
pub struct LintResult {
    pub raw: String,
    pub filepath: String,
    pub lines: Vec<LineResult>,
    pub error: String,
}

/// One finding in the diff form: path, line and column, then the old and
/// the new text.
pub open spec fn diff_entry(filepath: Seq<char>, l: LineView) -> Seq<char> {
    filepath + seq![':'] + decimal(l.line) + seq![':'] + decimal(l.col) + seq!['\n', '-', ' ']
        + l.old + seq!['\n', '+', ' '] + l.new + seq!['\n']
}

/// The findings in the diff form, with an empty line between two of them.
pub open spec fn diff_spec(filepath: Seq<char>, lines: Seq<LineView>) -> Seq<char>
    decreases lines.len(),
{
    if lines.len() == 0 {
        Seq::empty()
    } else if lines.len() == 1 {
        diff_entry(filepath, lines[0])
    } else {
        diff_spec(filepath, lines.drop_last()) + seq!['\n'] + diff_entry(filepath, lines.last())
    }
}

/// One finding as a JSON object.
pub open spec fn json_line(l: LineView) -> Seq<char> {
    "{\"line\":"@ + decimal(l.line) + ",\"col\":"@ + decimal(l.col) + ",\"old\":"@ + json_string(
        l.old,
    ) + ",\"new\":"@ + json_string(l.new) + ",\"severity\":"@ + decimal(
        severity_code(l.severity),
    ) + "}"@
}

/// The findings as JSON objects, with a comma between two of them.
pub open spec fn json_lines(lines: Seq<LineView>) -> Seq<char>
    decreases lines.len(),
{
    if lines.len() == 0 {
        Seq::empty()
    } else if lines.len() == 1 {
        json_line(lines[0])
    } else {
        json_lines(lines.drop_last()) + ","@ + json_line(lines.last())
    }
}

/// A lint result as one JSON object.
pub open spec fn json_spec(
    filepath: Seq<char>,
    raw: Seq<char>,
    error: Seq<char>,
    lines: Seq<LineView>,
) -> Seq<char> {
    "{\"filepath\":"@ + json_string(filepath) + ",\"raw\":"@ + json_string(raw) + ",\"error\":"@
        + json_string(error) + ",\"lines\":["@ + json_lines(lines) + "]}"@
}

fn push_diff_entry(out: &mut Vec<char>, filepath: &Vec<char>, l: &LineResult)
    ensures
        final(out)@ == old(out)@ + diff_entry(filepath@, l@),
{
    let ghost before = out@;
    push_all(out, filepath);
    out.push(':');
    push_all(out, &decimal_of(l.line));
    out.push(':');
    push_all(out, &decimal_of(l.col));
    out.push('\n');
    out.push('-');
    out.push(' ');
    push_str(out, l.old.as_str());
    out.push('\n');
    out.push('+');
    out.push(' ');
    push_str(out, l.new.as_str());
    out.push('\n');
    proof {
        assert(out@ =~= before + diff_entry(filepath@, l@));
    }
}

fn push_json_line(out: &mut Vec<char>, l: &LineResult)
    ensures
        final(out)@ == old(out)@ + json_line(l@),
{
    let ghost before = out@;
    push_str(out, "{\"line\":");
    push_all(out, &decimal_of(l.line));
    push_str(out, ",\"col\":");
    push_all(out, &decimal_of(l.col));
    push_str(out, ",\"old\":");
    push_json_string(out, &to_chars(l.old.as_str()));
    push_str(out, ",\"new\":");
    push_json_string(out, &to_chars(l.new.as_str()));
    push_str(out, ",\"severity\":");
    let code: u8 = l.severity.code();
    push_all(out, &decimal_of(code as usize));
    push_str(out, "}");
    proof {
        assert(out@ =~= before + json_line(l@));
    }
}

impl LintResult {
    /// The result for `raw` without findings.
    pub fn new(raw: &str) -> (r: LintResult)
        ensures
            r.raw@ == raw@,
            r.filepath@.len() == 0,
            r.lines@.len() == 0,
            r.error@.len() == 0,
    {
        LintResult {
            raw: raw.to_owned(),
            filepath: String::new(),
            lines: Vec::new(),
            error: String::new(),
        }
    }

    /// Whether linting failed.
    pub fn has_error(&self) -> (r: bool)
        ensures
            r == (self.error@.len() > 0),
    {
        !self.error.as_str().is_empty()
    }

    /// The findings in the diff form: for each finding the path with line
    /// and column, a line with the old text and a line with the new text;
    /// an empty line between two findings.
    pub fn to_diff(&self) -> (out: String)
        ensures
            out@ == diff_spec(self.filepath@, line_views(self.lines@)),
    {
        let filepath = to_chars(self.filepath.as_str());
        let mut out: Vec<char> = Vec::new();
        let mut k: usize = 0;
        let ghost views = line_views(self.lines@);
        while k < self.lines.len()
            invariant
                k <= self.lines.len(),
                filepath@ == self.filepath@,
                views == line_views(self.lines@),
                out@ == diff_spec(self.filepath@, views.take(k as int)),
            decreases self.lines.len() - k,
        {
            let ghost before = out@;
            if k > 0 {
                out.push('\n');
            }
            push_diff_entry(&mut out, &filepath, &self.lines[k]);
            proof {
                let now = views.take(k + 1);
                assert(now.drop_last() =~= views.take(k as int));
                assert(now.last() == self.lines@[k as int]@);
                if k == 0 {
                    assert(now[0] == now.last());
                    assert(before =~= Seq::<char>::empty());
                    assert(out@ =~= diff_entry(self.filepath@, now[0]));
                } else {
                    assert(out@ =~= before + seq!['\n'] + diff_entry(self.filepath@, now.last()));
                }
            }
            k = k + 1;
        }
        proof {
            assert(views.take(k as int) =~= views);
        }
        to_string(&out)
    }

    /// The result as one JSON object with the fields `filepath`, `raw`,
    /// `error` and `lines`; each finding is an object with the fields
    /// `line`, `col`, `old`, `new` and `severity`, the last as its number.
    pub fn to_json(&self) -> (out: String)
        ensures
            out@ == json_spec(self.filepath@, self.raw@, self.error@, line_views(self.lines@)),
    {
        let mut out: Vec<char> = Vec::new();
        push_str(&mut out, "{\"filepath\":");
        push_json_string(&mut out, &to_chars(self.filepath.as_str()));
        push_str(&mut out, ",\"raw\":");
        push_json_string(&mut out, &to_chars(self.raw.as_str()));
        push_str(&mut out, ",\"error\":");
        push_json_string(&mut out, &to_chars(self.error.as_str()));
        push_str(&mut out, ",\"lines\":[");
        let ghost head = out@;
        let ghost views = line_views(self.lines@);
        let mut k: usize = 0;
        while k < self.lines.len()
            invariant
                k <= self.lines.len(),
                views == line_views(self.lines@),
                out@ == head + json_lines(views.take(k as int)),
            decreases self.lines.len() - k,
        {
            let ghost before = out@;
            if k > 0 {
                push_str(&mut out, ",");
            }
            push_json_line(&mut out, &self.lines[k]);
            proof {
                let now = views.take(k + 1);
                assert(now.drop_last() =~= views.take(k as int));
                assert(now.last() == self.lines@[k as int]@);
                if k == 0 {
                    assert(now[0] == now.last());
                    assert(json_lines(views.take(0)) =~= Seq::<char>::empty());
                    assert(out@ =~= head + json_line(now[0]));
                } else {
                    assert(out@ =~= head + (json_lines(views.take(k as int)) + ","@ + json_line(
                        now.last(),
                    )));
                }
            }
            k = k + 1;
        }
        push_str(&mut out, "]}");
        proof {
            assert(views.take(k as int) =~= views);
            assert(out@ =~= json_spec(self.filepath@, self.raw@, self.error@, views));
        }
        to_string(&out)
    }
}

} // verus!
