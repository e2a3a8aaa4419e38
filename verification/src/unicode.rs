//! Unicode character classes that come from script and word tables.
//!
//! The tables are those of the `regex` crate: a class is a compiled pattern
//! that is asked about one character at a time. Everything that is stated
//! about a class here is stated over the names below, of which nothing is
//! proved.

use vstd::prelude::*;
use regex::Regex;

verus! {

/// `regex::Regex`: a compiled pattern. Nothing is known of what is inside
/// but the pattern it was built from.
#[verifier::external_type_specification]
#[verifier::external_body]
pub struct ExRegex(regex::Regex);

/// `regex::Error`: why a pattern was refused. It is only passed on.
#[verifier::external_type_specification]
#[verifier::external_body]
pub struct ExRegexError(regex::Error);

/// Whether `Regex::new` accepts `pattern`.
pub uninterp spec fn regex_accepts(pattern: Seq<char>) -> bool;

/// The pattern that a compiled `Regex` was built from.
pub uninterp spec fn regex_source(re: Regex) -> Seq<char>;

/// Whether the regex built from `pattern` has a match somewhere in `hay`.
pub uninterp spec fn regex_matches(pattern: Seq<char>, hay: Seq<char>) -> bool;

/// `Regex::new`: compiles `pattern`. The compiled regex remembers the
/// pattern it was built from; a pattern is either accepted or refused,
/// whoever asks.
#[verifier::external_body]
fn compile(pattern: &str) -> (r: Result<Regex, regex::Error>)
    ensures
        r is Ok <==> regex_accepts(pattern@),
        r matches Ok(re) ==> regex_source(re) == pattern@,
{
    Regex::new(pattern)
}

/// `Regex::is_match` on the text that holds the single character `c`: true
/// exactly when the regex matches somewhere in that text.
#[verifier::external_body]
fn matches_char(re: &Regex, c: char) -> (r: bool)
    ensures
        r == regex_matches(regex_source(*re), seq![c]),
{
    re.is_match(c.encode_utf8(&mut [0u8; 4]))
}

/// The pattern of the CJK class: the union of the scripts Han, Hangul,
/// Hanunoo, Katakana, Hiragana and Bopomofo.
pub const CJK_PATTERN: &'static str =
    "[\\p{Han}\\p{Hangul}\\p{Hanunoo}\\p{Katakana}\\p{Hiragana}\\p{Bopomofo}]";

/// The pattern of the word class: letters, marks, digits and connectors.
pub const WORD_PATTERN: &'static str = "\\w";

/// Whether `c` belongs to one of the six CJK scripts.
pub open spec fn in_cjk_script(c: char) -> bool {
    regex_matches(CJK_PATTERN@, seq![c])
}

/// Whether `c` is a word character.
pub open spec fn in_word_class(c: char) -> bool {
    regex_matches(WORD_PATTERN@, seq![c])
}

/// Whether both class patterns compile.
pub open spec fn classes_available() -> bool {
    regex_accepts(CJK_PATTERN@) && regex_accepts(WORD_PATTERN@)
}

/// The two compiled classes.
pub struct Classes {
    cjk: Regex,
    word: Regex,
}

impl Classes {
    /// The classes were compiled from the two patterns of this module.
    pub closed spec fn wf(&self) -> bool {
        &&& regex_source(self.cjk) == CJK_PATTERN@
        &&& regex_source(self.word) == WORD_PATTERN@
    }

    /// Compiles both classes; `None` when a pattern is refused.
    pub fn new() -> (r: Option<Classes>)
        ensures
            r is Some <==> classes_available(),
            r matches Some(cl) ==> cl.wf(),
    {
        match compile(CJK_PATTERN) {
            Ok(cjk) => match compile(WORD_PATTERN) {
                Ok(word) => Some(Classes { cjk, word }),
                Err(_) => None,
            },
            Err(_) => None,
        }
    }

    /// Script membership of one character.
    pub fn cjk_script(&self, c: char) -> (r: bool)
        requires
            self.wf(),
        ensures
            r == in_cjk_script(c),
    {
        matches_char(&self.cjk, c)
    }

    /// Word-class membership of one character.
    pub fn word_class(&self, c: char) -> (r: bool)
        requires
            self.wf(),
        ensures
            r == in_word_class(c),
    {
        matches_char(&self.word, c)
    }
}

} // verus!
