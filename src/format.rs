use vstd::prelude::*;
use crate::pattern::{search, search_outcome};
use crate::text::starts_with;

verus! {

/// The address shape accepted as an email: no whitespace and no `@` around a
/// single `@`, with a dot in the part after it.
pub const EMAIL_PATTERN: &'static str = r"^[^\s@]+@[^\s@]+\.[^\s@]+$";

/// A URI is accepted when it begins with one of three literal prefixes; this
/// is a narrow allowlist, not a URI grammar.
pub open spec fn uri_ok(s: Seq<char>) -> bool {
    "http://"@.is_prefix_of(s) || "https://"@.is_prefix_of(s) || "data:image/"@.is_prefix_of(s)
}

/// An email is accepted when the email expression matches it.
pub open spec fn email_ok(s: Seq<char>) -> bool {
    search_outcome(EMAIL_PATTERN@, s) == Some(true)
}

pub fn is_valid_uri(s: &str) -> (r: bool)
    ensures
        r == uri_ok(s@),
{
    starts_with(s, "http://") || starts_with(s, "https://") || starts_with(s, "data:image/")
}

pub fn is_valid_email(s: &str) -> (r: bool)
    ensures
        r == email_ok(s@),
{
    match search(EMAIL_PATTERN, s) {
        Some(found) => found,
        None => false,
    }
}

} // verus!
