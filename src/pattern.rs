use vstd::prelude::*;

verus! {

/// Whether `pattern` is accepted by the regex crate's compiler.
pub uninterp spec fn regex_compiles(pattern: Seq<char>) -> bool;

/// Whether the compiled `pattern` matches somewhere in `haystack`.
pub uninterp spec fn regex_is_match(pattern: Seq<char>, haystack: Seq<char>) -> bool;

/// What replacing every match of `pattern` in `haystack` by `replacement` gives.
pub uninterp spec fn regex_replace_all(pattern: Seq<char>, haystack: Seq<char>, replacement: Seq<char>) -> Seq<char>;

#[verifier::external_type_specification]
#[verifier::external_body]
pub struct ExRegex(regex::Regex);

/// A regular expression together with the source it was compiled from.
pub struct Pattern {
    source: String,
    compiled: regex::Regex,
}

impl Pattern {
    pub closed spec fn source(&self) -> Seq<char> {
        self.source@
    }
}

/// Relies on `regex::Regex::new`: it compiles `source`, or returns an error
/// when the pattern is not a valid regular expression.
#[verifier::external_body]
pub(crate) fn compile(source: &str) -> (r: Option<Pattern>)
    ensures
        r is Some == regex_compiles(source@),
        r matches Some(p) ==> p.source() == source@,
{
    match regex::Regex::new(source) {
        Ok(compiled) => Some(Pattern { source: source.to_string(), compiled }),
        Err(_) => None,
    }
}

/// Relies on `regex::Regex::is_match`: whether the expression matches
/// somewhere in `haystack`.
#[verifier::external_body]
fn is_match(p: &Pattern, haystack: &str) -> (r: bool)
    ensures
        r == regex_is_match(p.source(), haystack@),
{
    p.compiled.is_match(haystack)
}

/// Relies on `regex::Regex::replace_all`: every non-overlapping match in
/// `haystack` replaced by `replacement`, whose `$n` stand for capture groups.
#[verifier::external_body]
pub(crate) fn replace_all(p: &Pattern, haystack: &str, replacement: &str) -> (r: String)
    ensures
        r@ == regex_replace_all(p.source(), haystack@, replacement@),
{
    p.compiled.replace_all(haystack, replacement).into_owned()
}

/// Searches `haystack` for `source`: `None` when `source` does not compile,
/// else whether it matches somewhere.
pub fn search(source: &str, haystack: &str) -> (r: Option<bool>)
    ensures
        r == search_outcome(source@, haystack@),
{
    match compile(source) {
        Some(p) => Some(is_match(&p, haystack)),
        None => None,
    }
}

pub open spec fn search_outcome(source: Seq<char>, haystack: Seq<char>) -> Option<bool> {
    if regex_compiles(source) {
        Some(regex_is_match(source, haystack))
    } else {
        None
    }
}

} // verus!
