//! Optional texts, and the prefix and suffix tests that the standard library
//! performs on text.

use vstd::prelude::*;

verus! {

/// What an optional text holds.
pub open spec fn text_of(text: Option<&str>) -> Option<Seq<char>> {
    match text {
        Some(t) => Some(t@),
        None => None,
    }
}

/// What an optional owned text holds.
pub open spec fn string_of(text: Option<String>) -> Option<Seq<char>> {
    match text {
        Some(t) => Some(t@),
        None => None,
    }
}

/// `str::ends_with` with a text as the pattern: whether `text` ends with
/// `suffix`. Believed of the standard library, not proved.
#[verifier::external_body]
pub(crate) fn ends_with(text: &str, suffix: &str) -> (yes: bool)
    ensures
        yes == suffix@.is_suffix_of(text@),
{
    text.ends_with(suffix)
}

/// `str::strip_prefix` with a text as the pattern: where `text` begins with
/// `prefix`, what follows that one prefix, else nothing. Believed of the
/// standard library, not proved.
#[verifier::external_body]
pub(crate) fn strip_prefix<'a>(text: &'a str, prefix: &str) -> (rest: Option<&'a str>)
    ensures
        match rest {
            Some(r) => prefix@.is_prefix_of(text@) && r@ == text@.skip(prefix@.len() as int),
            None => !prefix@.is_prefix_of(text@),
        },
{
    text.strip_prefix(prefix)
}

} // verus!
