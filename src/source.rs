use vstd::prelude::*;
use crate::pattern::{compile, regex_compiles, regex_replace_all, replace_all};
use std::io::Read;

verus! {

/// The text with its `//`, `/* */` and `#` comments blanked out, or `None`
/// when a string or block comment is left open.
pub uninterp spec fn comments_stripped(text: Seq<char>) -> Option<Seq<char>>;

/// Relies on `json_comments::StripComments`, read to the end: the text with
/// its comments blanked out, or an error for an unterminated string or comment.
#[verifier::external_body]
fn strip_comments(text: &str) -> (r: Option<String>)
    ensures
        match r {
            Some(t) => comments_stripped(text@) == Some(t@),
            None => comments_stripped(text@) is None,
        },
{
    let mut out = String::new();
    match json_comments::StripComments::new(text.as_bytes()).read_to_string(&mut out) {
        Ok(_) => Some(out),
        Err(_) => None,
    }
}

/// A comma followed only by whitespace before a closing brace or bracket.
pub const TRAILING_COMMA_PATTERN: &'static str = r",(\s*[}\]])";

/// The text with each trailing comma removed and what followed it kept.
pub open spec fn trailing_commas_removed(text: Seq<char>) -> Seq<char> {
    if regex_compiles(TRAILING_COMMA_PATTERN@) {
        regex_replace_all(TRAILING_COMMA_PATTERN@, text, "$1"@)
    } else {
        text
    }
}

/// Removes the commas that JSON with comments allows before `}` and `]`.
pub fn remove_trailing_commas(text: &str) -> (r: String)
    ensures
        r@ == trailing_commas_removed(text@),
{
    match compile(TRAILING_COMMA_PATTERN) {
        Some(p) => replace_all(&p, text, "$1"),
        None => String::from_str(text),
    }
}

/// Turns JSON with comments and trailing commas into plain JSON text, or
/// `None` when a string or block comment is left open.
pub fn prepare_document(text: &str) -> (r: Option<String>)
    ensures
        r is Some == comments_stripped(text@) is Some,
        r matches Some(t) ==> t@ == trailing_commas_removed(comments_stripped(text@)->0),
{
    match strip_comments(text) {
        Some(stripped) => Some(remove_trailing_commas(stripped.as_str())),
        None => None,
    }
}

} // verus!
