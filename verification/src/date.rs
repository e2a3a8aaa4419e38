//! Full dates without spaces: `2013 年 3 月 10 日` written as `2013年3月10日`.
//!
//! The engine does not apply this pass; it is offered to callers that want
//! dates set tight. The pass goes through the text from left to right: a
//! step function says, for a position, what is written out and at which
//! position the pass goes on.

use vstd::prelude::*;
use crate::charset::{ascii_digit, is_ascii_digit};
use crate::scan::{after_spaces, skip_spaces};

verus! {

/// What a pass does at one position: the characters it writes and the
/// position at which it continues.
pub struct Step {
    pub out: Seq<char>,
    pub next: int,
}

/// A step function.
pub type StepFn = spec_fn(Seq<char>, int) -> Step;

/// The output of the pass `step` on `s` from position `i` on. A step that
/// does not move forward inside `s` counts as copying one character.
pub open spec fn run(step: StepFn, s: Seq<char>, i: int) -> Seq<char>
    decreases s.len() - i,
{
    if 0 <= i < s.len() {
        let st = step(s, i);
        if i < st.next <= s.len() {
            st.out + run(step, s, st.next)
        } else {
            seq![s[i]] + run(step, s, i + 1)
        }
    } else {
        Seq::empty()
    }
}

/// The first position at or after `i` that holds no digit, or the length.
pub open spec fn skip_digits(s: Seq<char>, i: int) -> int
    decreases s.len() - i,
{
    if 0 <= i < s.len() && is_ascii_digit(s[i]) {
        skip_digits(s, i + 1)
    } else {
        i
    }
}

/// The position behind a number with its unit that starts at `i`: any
/// spaces, at least one digit, any spaces, then a character for which
/// `unit` holds. `None` where no such number starts at `i`.
pub open spec fn number_end(s: Seq<char>, i: int, unit: spec_fn(char) -> bool) -> Option<int> {
    let a = skip_spaces(s, i);
    let b = skip_digits(s, a);
    let c = skip_spaces(s, b);
    if a < b && 0 <= c < s.len() && unit(s[c]) {
        Some(c + 1)
    } else {
        None
    }
}

pub open spec fn is_year(c: char) -> bool {
    c == '年'
}

pub open spec fn is_month(c: char) -> bool {
    c == '月'
}

pub open spec fn is_day(c: char) -> bool {
    c == '日' || c == '号'
}

/// The position behind a full date that starts at `i`: a number of years, a
/// space, a number of months, a space, a number of days, and any spaces
/// behind it. `None` where no full date starts at `i`.
pub open spec fn date_end(s: Seq<char>, i: int) -> Option<int> {
    match number_end(s, i, |c: char| is_year(c)) {
        Some(y) => if 0 <= y < s.len() && s[y] == ' ' {
            match number_end(s, y + 1, |c: char| is_month(c)) {
                Some(m) => if 0 <= m < s.len() && s[m] == ' ' {
                    match number_end(s, m + 1, |c: char| is_day(c)) {
                        Some(d) => Some(skip_spaces(s, d)),
                        None => None,
                    }
                } else {
                    None
                },
                None => None,
            }
        } else {
            None
        },
        None => None,
    }
}

/// `s` without its spaces.
pub open spec fn without_spaces(s: Seq<char>) -> Seq<char> {
    s.filter(|c: char| c != ' ')
}

/// The step of the pass: a full date is written without its spaces;
/// anything else is copied.
pub open spec fn date_step() -> StepFn {
    |s: Seq<char>, i: int|
        match date_end(s, i) {
            Some(end) => Step { out: without_spaces(s.subrange(i, end)), next: end },
            None => Step { out: seq![s[i]], next: i + 1 },
        }
}

/// `s` with the spaces in and around its full dates removed.
pub open spec fn full_date_spec(s: Seq<char>) -> Seq<char> {
    run(date_step(), s, 0)
}

fn after_digits(raw: &Vec<char>, i: usize) -> (j: usize)
    requires
        i <= raw.len(),
    ensures
        j == skip_digits(raw@, i as int),
        i <= j <= raw.len(),
{
    let mut j: usize = i;
    while j < raw.len() && ascii_digit(raw[j])
        invariant
            i <= j <= raw.len(),
            skip_digits(raw@, j as int) == skip_digits(raw@, i as int),
        decreases raw.len() - j,
    {
        j = j + 1;
    }
    j
}

/// The position of the unit of the number that starts at `i`, if there are
/// digits before it.
fn unit_position(raw: &Vec<char>, i: usize) -> (r: Option<usize>)
    requires
        i <= raw.len(),
    ensures
        r matches Some(c) ==> i < c < raw.len() && c == skip_spaces(
            raw@,
            skip_digits(raw@, skip_spaces(raw@, i as int)),
        ) && skip_spaces(raw@, i as int) < skip_digits(raw@, skip_spaces(raw@, i as int)),
        r is None ==> forall|unit: spec_fn(char) -> bool| number_end(raw@, i as int, unit) is None,
{
    let a = after_spaces(raw, i);
    let b = after_digits(raw, a);
    let c = after_spaces(raw, b);
    if a < b && c < raw.len() {
        Some(c)
    } else {
        None
    }
}

fn end_of_date(raw: &Vec<char>, i: usize) -> (r: Option<usize>)
    requires
        i < raw.len(),
    ensures
        r is Some <==> date_end(raw@, i as int) is Some,
        r matches Some(end) ==> date_end(raw@, i as int) == Some(end as int) && i < end
            <= raw.len(),
{
    let y = match unit_position(raw, i) {
        Some(c) => c,
        None => { return None; },
    };
    if raw[y] != '年' || y + 1 >= raw.len() || raw[y + 1] != ' ' {
        return None;
    }
    let m = match unit_position(raw, y + 2) {
        Some(c) => c,
        None => { return None; },
    };
    if raw[m] != '月' || m + 1 >= raw.len() || raw[m + 1] != ' ' {
        return None;
    }
    let d = match unit_position(raw, m + 2) {
        Some(c) => c,
        None => { return None; },
    };
    if raw[d] != '日' && raw[d] != '号' {
        return None;
    }
    Some(after_spaces(raw, d + 1))
}

/// Removes the spaces in and around full dates: a number of years before
/// `年`, a space, a number of months before `月`, a space, and a number of
/// days before `日` or `号`.
pub fn remove_full_date_spacing(text: &Vec<char>) -> (out: Vec<char>)
    ensures
        out@ == full_date_spec(text@),
{
    let mut out: Vec<char> = Vec::new();
    let mut i: usize = 0;
    while i < text.len()
        invariant
            i <= text.len(),
            out@ + run(date_step(), text@, i as int) == full_date_spec(text@),
        decreases text.len() - i,
    {
        let ghost before = out@;
        let ghost st = date_step()(text@, i as int);
        let mut next: usize = i + 1;
        match end_of_date(text, i) {
            Some(end) => {
                let ghost part = text@.subrange(i as int, end as int);
                let mut k: usize = i;
                while k < end
                    invariant
                        i <= k <= end <= text.len(),
                        part == text@.subrange(i as int, end as int),
                        out@ == before + without_spaces(part.take(k - i)),
                    decreases end - k,
                {
                    proof {
                        reveal(Seq::filter);
                        let now = part.take(k - i + 1);
                        assert(now.drop_last() =~= part.take(k - i));
                        assert(now.last() == text@[k as int]);
                    }
                    if text[k] != ' ' {
                        out.push(text[k]);
                    }
                    proof {
                        assert(out@ =~= before + without_spaces(part.take(k - i + 1)));
                    }
                    k = k + 1;
                }
                proof {
                    assert(part.take(end - i) =~= part);
                }
                next = end;
            },
            None => {
                out.push(text[i]);
            },
        }
        proof {
            assert(st.next == next);
            assert(out@ =~= before + st.out);
            assert(out@ + run(date_step(), text@, next as int) =~= before + (st.out + run(
                date_step(),
                text@,
                next as int,
            )));
        }
        i = next;
    }
    proof {
        assert(out@ + run(date_step(), text@, i as int) =~= out@);
    }
    out
}

} // verus!
