//! HTML: tags, scripts and styles are code; text nodes and the inside of
//! comments are prose.

use vstd::prelude::*;
use crate::charset::{ascii_letter, is_ascii_letter};
use crate::lex::{
    find_char, find_nocase, find_pat, lemma_find_pat, position_of, position_of_nocase,
    position_of_pat, starts, starts_nocase, starts_with, starts_with_nocase,
};
use crate::span::SpanKind;
use crate::token::{body_tok, body_token, code_tok, code_token, token_fits, Tok, Token};

verus! {

pub open spec fn comment_open() -> Seq<char> {
    seq!['<', '!', '-', '-']
}

pub open spec fn comment_close() -> Seq<char> {
    seq!['-', '-', '>']
}

pub open spec fn script_open() -> Seq<char> {
    seq!['<', 's', 'c', 'r', 'i', 'p', 't']
}

pub open spec fn script_close() -> Seq<char> {
    seq!['<', '/', 's', 'c', 'r', 'i', 'p', 't']
}

pub open spec fn style_open() -> Seq<char> {
    seq!['<', 's', 't', 'y', 'l', 'e']
}

pub open spec fn style_close() -> Seq<char> {
    seq!['<', '/', 's', 't', 'y', 'l', 'e']
}

/// Whether a tag starts at `i`: a `<` followed by a letter, `/`, `!` or `?`.
pub open spec fn tag_opens(s: Seq<char>, i: int) -> bool {
    &&& 0 <= i
    &&& i + 1 < s.len()
    &&& s[i] == '<'
    &&& (is_ascii_letter(s[i + 1]) || s[i + 1] == '/' || s[i + 1] == '!' || s[i + 1] == '?')
}

/// The position behind the next `>` at or after `i`, or the length.
pub open spec fn after_gt(s: Seq<char>, i: int) -> int {
    let gt = find_char(s, i, '>');
    if gt < s.len() {
        gt + 1
    } else {
        s.len() as int
    }
}

/// An element whose content is code: from its opening tag at `i` to the end
/// of its closing tag, or to the end of the document.
pub open spec fn raw_element(s: Seq<char>, i: int, close: Seq<char>) -> Token {
    code_token(i, after_gt(s, find_nocase(s, i + 1, close)))
}

/// The HTML token that starts at `i`.
pub open spec fn html_token(s: Seq<char>, i: int) -> Token {
    let len = s.len() as int;
    if starts(s, i, comment_open()) {
        let close = find_pat(s, i + 4, comment_close());
        if close < len {
            Token {
                lead: i + 4,
                body_kind: SpanKind::Comment,
                body_end: close,
                end: close + 3,
                fault: false,
            }
        } else {
            Token { lead: i + 4, body_kind: SpanKind::Comment, body_end: len, end: len, fault: true }
        }
    } else if starts_nocase(s, i, script_open()) {
        raw_element(s, i, script_close())
    } else if starts_nocase(s, i, style_open()) {
        raw_element(s, i, style_close())
    } else if tag_opens(s, i) {
        code_token(i, after_gt(s, i + 1))
    } else {
        body_token(SpanKind::Text, i, find_char(s, i + 1, '<'))
    }
}

fn position_after_gt(raw: &Vec<char>, i: usize) -> (j: usize)
    requires
        i <= raw.len(),
    ensures
        j == after_gt(raw@, i as int),
        i <= j <= raw.len(),
        i < raw.len() ==> i < j,
{
    let gt = position_of(raw, i, '>');
    if gt < raw.len() {
        gt + 1
    } else {
        raw.len()
    }
}

fn raw_element_tok(raw: &Vec<char>, i: usize, close: &[char]) -> (t: Tok)
    requires
        i < raw.len(),
    ensures
        t@ == raw_element(raw@, i as int, close@),
        token_fits(t@, i as int, raw@.len() as int),
{
    let at = position_of_nocase(raw, i + 1, close);
    let end = position_after_gt(raw, at);
    code_tok(i, end)
}

/// The HTML token that starts at `i`.
pub fn html_tok(raw: &Vec<char>, i: usize) -> (t: Tok)
    requires
        i < raw.len(),
    ensures
        t@ == html_token(raw@, i as int),
        token_fits(t@, i as int, raw@.len() as int),
{
    let comment_open: [char; 4] = ['<', '!', '-', '-'];
    let comment_close: [char; 3] = ['-', '-', '>'];
    let script_open: [char; 7] = ['<', 's', 'c', 'r', 'i', 'p', 't'];
    let script_close: [char; 8] = ['<', '/', 's', 'c', 'r', 'i', 'p', 't'];
    let style_open: [char; 6] = ['<', 's', 't', 'y', 'l', 'e'];
    let style_close: [char; 7] = ['<', '/', 's', 't', 'y', 'l', 'e'];
    proof {
        assert(comment_open@ =~= self::comment_open());
        assert(comment_close@ =~= self::comment_close());
        assert(script_open@ =~= self::script_open());
        assert(script_close@ =~= self::script_close());
        assert(style_open@ =~= self::style_open());
        assert(style_close@ =~= self::style_close());
    }
    if starts_with(raw, i, comment_open.as_slice()) {
        let close = position_of_pat(raw, i + 4, comment_close.as_slice());
        proof {
            lemma_find_pat(raw@, i + 4, comment_close@);
        }
        if close < raw.len() {
            Tok {
                lead: i + 4,
                body_kind: SpanKind::Comment,
                body_end: close,
                end: close + 3,
                fault: false,
            }
        } else {
            Tok {
                lead: i + 4,
                body_kind: SpanKind::Comment,
                body_end: raw.len(),
                end: raw.len(),
                fault: true,
            }
        }
    } else if starts_with_nocase(raw, i, script_open.as_slice()) {
        raw_element_tok(raw, i, script_close.as_slice())
    } else if starts_with_nocase(raw, i, style_open.as_slice()) {
        raw_element_tok(raw, i, style_close.as_slice())
    } else if raw[i] == '<' && i + 1 < raw.len() && (ascii_letter(raw[i + 1]) || raw[i + 1] == '/'
        || raw[i + 1] == '!' || raw[i + 1] == '?') {
        let end = position_after_gt(raw, i + 1);
        code_tok(i, end)
    } else {
        let end = position_of(raw, i + 1, '<');
        body_tok(SpanKind::Text, i, end)
    }
}

} // verus!
