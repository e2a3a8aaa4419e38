//! Spacing and punctuation normalisation for text that mixes CJK scripts with
//! half-width Latin letters, digits and symbols.
//!
//! Text is handled as a sequence of Unicode scalar values. Every public
//! function carries a contract over that sequence.

use vstd::prelude::*;

pub mod text;
pub mod unicode;
pub mod charset;
pub mod scan;
pub mod cells;
pub mod halfwidth;
pub mod fullwidth;
pub mod strategery;
pub mod engine;
pub mod date;
pub mod span;
pub mod lex;
pub mod token;
pub mod html;
pub mod code;
pub mod markdown;
pub mod yaml;
pub mod fmt;
pub mod result;
pub mod lint;
pub mod filetype;
pub mod document;
pub mod normal;
pub mod laws;
pub mod output;
pub use crate::document::{
    format_for, format_html, get_file_extension, is_ignore_auto_correct, lint_for,
};
pub use crate::filetype::is_support_type;
pub use crate::output::{format_and_output, lint_and_output};
pub use crate::result::{FormatResult, LineResult, LintResult, Severity};
use crate::engine::{format_spec, format_with};
use crate::text::{to_chars, to_string};
use crate::unicode::{classes_available, Classes};

verus! {

/// Formats a plain text: adds the spaces between CJK characters and
/// half-width letters, digits and symbols, and sets the punctuation behind
/// CJK text in full width. Where the character classes cannot be had, the
/// text comes back as it is.
pub fn format(text: &str) -> (out: String)
    ensures
        classes_available() ==> out@ == format_spec(text@),
        !classes_available() ==> out@ == text@,
{
    match Classes::new() {
        Some(classes) => format_with(&classes, text),
        None => {
            let chars = to_chars(text);
            to_string(&chars)
        },
    }
}

} // verus!
