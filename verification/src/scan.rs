//! Character sequences: their runs of spaces and their CJK characters.

use vstd::prelude::*;
use crate::charset::{cjk_kind, is_cjk, is_cjk_kind, kinds_of, Kind};

verus! {

/// The first position at or after `i` that holds no space, or the length.
pub open spec fn skip_spaces(s: Seq<char>, i: int) -> int
    decreases s.len() - i,
{
    if 0 <= i < s.len() && s[i] == ' ' {
        skip_spaces(s, i + 1)
    } else {
        i
    }
}

/// The CJK characters of `s`, in order.
pub open spec fn cjk_of(s: Seq<char>) -> Seq<char> {
    s.filter(|c: char| is_cjk(c))
}

/// Whether `s` holds a CJK character.
pub open spec fn has_cjk(s: Seq<char>) -> bool {
    exists|i: int| 0 <= i < s.len() && is_cjk(#[trigger] s[i])
}

/// Whether `s`, whose characters are of the kinds `kinds`, holds a CJK
/// character.
pub open spec fn any_cjk(s: Seq<char>, kinds: Seq<Kind>) -> bool {
    exists|i: int| 0 <= i < s.len() && i < kinds.len() && cjk_kind(#[trigger] s[i], kinds[i])
}

/// With the kinds that the tables give, a text holds a CJK character by
/// its kinds exactly when it holds one.
pub proof fn lemma_any_cjk(s: Seq<char>)
    ensures
        any_cjk(s, kinds_of(s)) == has_cjk(s),
{
    let kinds = kinds_of(s);
    if any_cjk(s, kinds) {
        let i = choose|i: int| 0 <= i < s.len() && i < kinds.len() && cjk_kind(#[trigger] s[i], kinds[i]);
        assert(is_cjk(s[i]));
    }
    if has_cjk(s) {
        let i = choose|i: int| 0 <= i < s.len() && is_cjk(#[trigger] s[i]);
        assert(cjk_kind(s[i], kinds[i]));
    }
}

/// Whether `text[from..to]` holds a CJK character.
pub fn range_has_cjk(text: &Vec<char>, kinds: &Vec<Kind>, from: usize, to: usize) -> (r: bool)
    requires
        from <= to <= text.len(),
        kinds.len() == text.len(),
    ensures
        r == any_cjk(text@.subrange(from as int, to as int), kinds@.subrange(from as int, to as int)),
{
    let ghost part = text@.subrange(from as int, to as int);
    let ghost part_kinds = kinds@.subrange(from as int, to as int);
    let mut k: usize = from;
    while k < to
        invariant
            from <= k <= to <= text.len(),
            kinds.len() == text.len(),
            part == text@.subrange(from as int, to as int),
            part_kinds == kinds@.subrange(from as int, to as int),
            forall|j: int| 0 <= j < k - from ==> !cjk_kind(#[trigger] part[j], part_kinds[j]),
        decreases to - k,
    {
        if is_cjk_kind(text[k], kinds[k]) {
            proof {
                assert(cjk_kind(part[k - from], part_kinds[k - from]));
            }
            return true;
        }
        k = k + 1;
    }
    false
}

/// The position after the spaces that start at `i`.
pub fn after_spaces(s: &Vec<char>, i: usize) -> (j: usize)
    requires
        i <= s.len(),
    ensures
        j == skip_spaces(s@, i as int),
        i <= j <= s.len(),
{
    let mut j: usize = i;
    while j < s.len() && s[j] == ' '
        invariant
            i <= j <= s.len(),
            skip_spaces(s@, j as int) == skip_spaces(s@, i as int),
        decreases s.len() - j,
    {
        j = j + 1;
    }
    j
}

/// The CJK characters of a concatenation are those of its parts.
pub proof fn lemma_cjk_of_add(a: Seq<char>, b: Seq<char>)
    ensures
        cjk_of(a + b) == cjk_of(a) + cjk_of(b),
{
    Seq::filter_distributes_over_add(a, b, |c: char| is_cjk(c));
}

/// The CJK characters of a single character.
pub proof fn lemma_cjk_of_one(c: char)
    ensures
        cjk_of(seq![c]) == if is_cjk(c) {
            seq![c]
        } else {
            Seq::<char>::empty()
        },
{
    let p = |c: char| is_cjk(c);
    reveal(Seq::filter);
    let s = seq![c];
    assert(s.drop_last() =~= Seq::<char>::empty());
    assert(s.drop_last().filter(p) =~= Seq::<char>::empty());
    assert(s.filter(p) =~= if is_cjk(c) {
        seq![c]
    } else {
        Seq::<char>::empty()
    });
}

/// A sequence without CJK characters has none to keep.
pub proof fn lemma_cjk_of_none(s: Seq<char>)
    requires
        forall|k: int| 0 <= k < s.len() ==> !is_cjk(#[trigger] s[k]),
    ensures
        cjk_of(s) == Seq::<char>::empty(),
    decreases s.len(),
{
    let p = |c: char| is_cjk(c);
    reveal(Seq::filter);
    if s.len() > 0 {
        lemma_cjk_of_none(s.drop_last());
        assert(s.filter(p) =~= Seq::<char>::empty());
    } else {
        assert(s.filter(p) =~= Seq::<char>::empty());
    }
}

/// A sequence has a CJK character exactly when it keeps one.
pub proof fn lemma_has_cjk(s: Seq<char>)
    ensures
        has_cjk(s) <==> cjk_of(s).len() > 0,
    decreases s.len(),
{
    let p = |c: char| is_cjk(c);
    reveal(Seq::filter);
    if s.len() > 0 {
        let t = s.drop_last();
        lemma_has_cjk(t);
        if has_cjk(s) {
            let i = choose|i: int| 0 <= i < s.len() && is_cjk(#[trigger] s[i]);
            if i < s.len() - 1 {
                assert(is_cjk(t[i]));
            }
        }
        if has_cjk(t) {
            let i = choose|i: int| 0 <= i < t.len() && is_cjk(#[trigger] t[i]);
            assert(is_cjk(s[i]));
        }
        if is_cjk(s.last()) {
            assert(is_cjk(s[s.len() - 1]));
        }
    }
}

} // verus!
