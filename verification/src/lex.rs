//! Helpers for cutting a document into tokens: looking for characters and
//! patterns from a position on.

use vstd::prelude::*;

verus! {

/// The lower-case form of an ASCII capital; other characters are kept.
pub open spec fn lower(c: char) -> char {
    if 'A' <= c && c <= 'Z' {
        ((c as u8 + 32) as u8) as char
    } else {
        c
    }
}

pub fn to_lower(c: char) -> (r: char)
    ensures
        r == lower(c),
{
    if 'A' <= c && c <= 'Z' {
        let b: u8 = c as u8 + 32;
        b as char
    } else {
        c
    }
}

/// Whether `pat` stands in `s` at position `i`.
pub open spec fn starts(s: Seq<char>, i: int, pat: Seq<char>) -> bool {
    &&& 0 <= i
    &&& i + pat.len() <= s.len()
    &&& forall|k: int| 0 <= k < pat.len() ==> s[i + k] == #[trigger] pat[k]
}

/// Whether `pat`, given in lower case, stands in `s` at position `i` in
/// either case.
pub open spec fn starts_nocase(s: Seq<char>, i: int, pat: Seq<char>) -> bool {
    &&& 0 <= i
    &&& i + pat.len() <= s.len()
    &&& forall|k: int| 0 <= k < pat.len() ==> lower(s[i + k]) == #[trigger] pat[k]
}

/// The first position at or after `i` that holds `c`, or the length.
pub open spec fn find_char(s: Seq<char>, i: int, c: char) -> int
    decreases s.len() - i,
{
    if 0 <= i < s.len() {
        if s[i] == c {
            i
        } else {
            find_char(s, i + 1, c)
        }
    } else {
        s.len() as int
    }
}

/// The first position at or after `i` at which `pat` stands, or the length.
pub open spec fn find_pat(s: Seq<char>, i: int, pat: Seq<char>) -> int
    decreases s.len() - i,
{
    if 0 <= i < s.len() {
        if starts(s, i, pat) {
            i
        } else {
            find_pat(s, i + 1, pat)
        }
    } else {
        s.len() as int
    }
}

/// The first position at or after `i` at which `pat` stands in either case,
/// or the length.
pub open spec fn find_nocase(s: Seq<char>, i: int, pat: Seq<char>) -> int
    decreases s.len() - i,
{
    if 0 <= i < s.len() {
        if starts_nocase(s, i, pat) {
            i
        } else {
            find_nocase(s, i + 1, pat)
        }
    } else {
        s.len() as int
    }
}

/// The end of the line that holds position `i`: the position of the next
/// line feed, or the length.
pub open spec fn line_end(s: Seq<char>, i: int) -> int {
    find_char(s, i, '\n')
}

/// What lies before the position that `find_char` gives holds no `c`.
pub proof fn lemma_find_char(s: Seq<char>, i: int, c: char)
    requires
        0 <= i <= s.len(),
    ensures
        i <= find_char(s, i, c) <= s.len(),
        find_char(s, i, c) < s.len() ==> s[find_char(s, i, c)] == c,
        forall|k: int| i <= k < find_char(s, i, c) ==> s[k] != c,
    decreases s.len() - i,
{
    if i < s.len() && s[i] != c {
        lemma_find_char(s, i + 1, c);
    }
}

pub proof fn lemma_find_pat(s: Seq<char>, i: int, pat: Seq<char>)
    requires
        0 <= i <= s.len(),
    ensures
        i <= find_pat(s, i, pat) <= s.len(),
        find_pat(s, i, pat) < s.len() ==> starts(s, find_pat(s, i, pat), pat),
    decreases s.len() - i,
{
    if i < s.len() && !starts(s, i, pat) {
        lemma_find_pat(s, i + 1, pat);
    }
}

/// Whether `pat` stands in `raw` at position `i`.
pub fn starts_with(raw: &Vec<char>, i: usize, pat: &[char]) -> (r: bool)
    ensures
        r == starts(raw@, i as int, pat@),
{
    if pat.len() > raw.len() || i > raw.len() - pat.len() {
        return false;
    }
    let mut k: usize = 0;
    while k < pat.len()
        invariant
            k <= pat.len(),
            i + pat.len() <= raw.len(),
            forall|j: int| 0 <= j < k ==> raw@[i + j] == #[trigger] pat@[j],
        decreases pat.len() - k,
    {
        if raw[i + k] != pat[k] {
            return false;
        }
        k = k + 1;
    }
    true
}

/// Whether `pat`, given in lower case, stands in `raw` at position `i` in
/// either case.
pub fn starts_with_nocase(raw: &Vec<char>, i: usize, pat: &[char]) -> (r: bool)
    ensures
        r == starts_nocase(raw@, i as int, pat@),
{
    if pat.len() > raw.len() || i > raw.len() - pat.len() {
        return false;
    }
    let mut k: usize = 0;
    while k < pat.len()
        invariant
            k <= pat.len(),
            i + pat.len() <= raw.len(),
            forall|j: int| 0 <= j < k ==> lower(raw@[i + j]) == #[trigger] pat@[j],
        decreases pat.len() - k,
    {
        if to_lower(raw[i + k]) != pat[k] {
            return false;
        }
        k = k + 1;
    }
    true
}

/// The first position at or after `i` that holds `c`, or the length.
pub fn position_of(raw: &Vec<char>, i: usize, c: char) -> (j: usize)
    requires
        i <= raw.len(),
    ensures
        j == find_char(raw@, i as int, c),
        i <= j <= raw.len(),
{
    let mut j: usize = i;
    while j < raw.len() && raw[j] != c
        invariant
            i <= j <= raw.len(),
            find_char(raw@, j as int, c) == find_char(raw@, i as int, c),
        decreases raw.len() - j,
    {
        j = j + 1;
    }
    j
}

/// The first position at or after `i` at which `pat` stands, or the length.
pub fn position_of_pat(raw: &Vec<char>, i: usize, pat: &[char]) -> (j: usize)
    requires
        i <= raw.len(),
    ensures
        j == find_pat(raw@, i as int, pat@),
        i <= j <= raw.len(),
{
    let mut j: usize = i;
    while j < raw.len() && !starts_with(raw, j, pat)
        invariant
            i <= j <= raw.len(),
            find_pat(raw@, j as int, pat@) == find_pat(raw@, i as int, pat@),
        decreases raw.len() - j,
    {
        j = j + 1;
    }
    j
}

/// The first position at or after `i` at which `pat` stands in either case,
/// or the length.
pub fn position_of_nocase(raw: &Vec<char>, i: usize, pat: &[char]) -> (j: usize)
    requires
        i <= raw.len(),
    ensures
        j == find_nocase(raw@, i as int, pat@),
        i <= j <= raw.len(),
{
    let mut j: usize = i;
    while j < raw.len() && !starts_with_nocase(raw, j, pat)
        invariant
            i <= j <= raw.len(),
            find_nocase(raw@, j as int, pat@) == find_nocase(raw@, i as int, pat@),
        decreases raw.len() - j,
    {
        j = j + 1;
    }
    j
}

} // verus!
