//! File types: from the extension of a file, or the name of a type, to the
//! kind of document.

use vstd::prelude::*;
use crate::text::{is_text, to_chars};
use crate::token::Syntax;

verus! {

/// The kind of document that the file type `t` stands for, if it is known.
pub open spec fn syntax_of_spec(t: Seq<char>) -> Option<Syntax> {
    if t == "html"@ || t == "htm"@ {
        Some(Syntax::Html)
    } else if t == "yaml"@ || t == "yml"@ {
        Some(Syntax::Yaml)
    } else if t == "rs"@ || t == "rust"@ {
        Some(Syntax::Rust)
    } else if t == "sql"@ {
        Some(Syntax::Sql)
    } else if t == "rb"@ || t == "cr"@ || t == "crystal"@ || t == "ruby"@ {
        Some(Syntax::Ruby)
    } else if t == "js"@ || t == "jsx"@ || t == "ts"@ || t == "tsx"@ || t == "javascript"@ || t == "typescript"@ {
        Some(Syntax::JavaScript)
    } else if t == "css"@ || t == "scss"@ || t == "sass"@ || t == "less"@ {
        Some(Syntax::Css)
    } else if t == "json"@ {
        Some(Syntax::Json)
    } else if t == "go"@ {
        Some(Syntax::Go)
    } else if t == "py"@ || t == "python"@ {
        Some(Syntax::Python)
    } else if t == "m"@ || t == "h"@ || t == "objective-c"@ || t == "objective_c"@ {
        Some(Syntax::ObjectiveC)
    } else if t == "strings"@ {
        Some(Syntax::Strings)
    } else if t == "cs"@ || t == "csharp"@ {
        Some(Syntax::CSharp)
    } else if t == "java"@ {
        Some(Syntax::Java)
    } else if t == "swift"@ {
        Some(Syntax::Swift)
    } else if t == "kotlin"@ {
        Some(Syntax::Kotlin)
    } else if t == "php"@ {
        Some(Syntax::Php)
    } else if t == "dart"@ {
        Some(Syntax::Dart)
    } else if t == "md"@ || t == "markdown"@ {
        Some(Syntax::Markdown)
    } else if t == "txt"@ || t == "text"@ || t == "plain"@ {
        Some(Syntax::Text)
    } else {
        None
    }
}

/// The kind of document that `filetype` stands for; `None` for an unknown
/// type.
pub fn syntax_of(filetype: &str) -> (r: Option<Syntax>)
    ensures
        r == syntax_of_spec(filetype@),
{
    let t = to_chars(filetype);
    if is_text(&t, "html") || is_text(&t, "htm") {
        Some(Syntax::Html)
    } else if is_text(&t, "yaml") || is_text(&t, "yml") {
        Some(Syntax::Yaml)
    } else if is_text(&t, "rs") || is_text(&t, "rust") {
        Some(Syntax::Rust)
    } else if is_text(&t, "sql") {
        Some(Syntax::Sql)
    } else if is_text(&t, "rb") || is_text(&t, "cr") || is_text(&t, "crystal") || is_text(&t, "ruby") {
        Some(Syntax::Ruby)
    } else if is_text(&t, "js") || is_text(&t, "jsx") || is_text(&t, "ts") || is_text(&t, "tsx") || is_text(&t, "javascript") || is_text(&t, "typescript") {
        Some(Syntax::JavaScript)
    } else if is_text(&t, "css") || is_text(&t, "scss") || is_text(&t, "sass") || is_text(&t, "less") {
        Some(Syntax::Css)
    } else if is_text(&t, "json") {
        Some(Syntax::Json)
    } else if is_text(&t, "go") {
        Some(Syntax::Go)
    } else if is_text(&t, "py") || is_text(&t, "python") {
        Some(Syntax::Python)
    } else if is_text(&t, "m") || is_text(&t, "h") || is_text(&t, "objective-c") || is_text(&t, "objective_c") {
        Some(Syntax::ObjectiveC)
    } else if is_text(&t, "strings") {
        Some(Syntax::Strings)
    } else if is_text(&t, "cs") || is_text(&t, "csharp") {
        Some(Syntax::CSharp)
    } else if is_text(&t, "java") {
        Some(Syntax::Java)
    } else if is_text(&t, "swift") {
        Some(Syntax::Swift)
    } else if is_text(&t, "kotlin") {
        Some(Syntax::Kotlin)
    } else if is_text(&t, "php") {
        Some(Syntax::Php)
    } else if is_text(&t, "dart") {
        Some(Syntax::Dart)
    } else if is_text(&t, "md") || is_text(&t, "markdown") {
        Some(Syntax::Markdown)
    } else if is_text(&t, "txt") || is_text(&t, "text") || is_text(&t, "plain") {
        Some(Syntax::Text)
    } else {
        None
    }
}

/// Whether `filetype` is a known file type.
pub fn is_support_type(filetype: &str) -> (r: bool)
    ensures
        r == syntax_of_spec(filetype@).is_some(),
{
    syntax_of(filetype).is_some()
}

} // verus!
