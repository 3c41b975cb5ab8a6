//! Regular expressions and banner decoding, as the `regex` crate and the
//! standard library provide them.

use vstd::prelude::*;

verus! {

/// `regex::Error`, the error of `regex::Regex::new`. It is carried through
/// and never looked into.
#[verifier::external_type_specification]
#[verifier::external_body]
pub struct ExPatternError(regex::Error);

/// Whether `regex::Regex::new` accepts `pattern`.
pub uninterp spec fn regex_valid(pattern: Seq<char>) -> bool;

/// Whether `regex::Regex::is_match` finds `pattern` somewhere in `text`.
pub uninterp spec fn regex_is_match(pattern: Seq<char>, text: Seq<char>) -> bool;

/// What `regex::Regex::captures` finds of `pattern` in `text`: `None` where
/// there is no match; otherwise what the group named `group` holds in the
/// leftmost match, `None` inside where the pattern has no group of that
/// name or the group took no part in the match.
pub uninterp spec fn regex_group(pattern: Seq<char>, text: Seq<char>, group: Seq<char>) -> Option<
    Option<Seq<char>>,
>;

/// What `String::from_utf8_lossy` makes of `bytes`: the text they encode,
/// with U+FFFD in place of each invalid sequence.
pub uninterp spec fn utf8_lossy(bytes: Seq<u8>) -> Seq<char>;

/// The view of a search result.
pub open spec fn capture_view(found: Option<Option<String>>) -> Option<Option<Seq<char>>> {
    match found {
        None => None,
        Some(None) => Some(None),
        Some(Some(text)) => Some(Some(text@)),
    }
}

/// Compiles `pattern` with `regex::Regex::new` and asks `Regex::is_match`
/// whether it occurs in `text`. The error is the one `Regex::new` gave. The
/// answer depends on the two texts alone.
#[verifier::external_body]
pub(crate) fn is_match(pattern: &str, text: &str) -> (found: Result<bool, regex::Error>)
    ensures
        found is Ok == regex_valid(pattern@),
        found matches Ok(hit) ==> hit == regex_is_match(pattern@, text@),
{
    let compiled = regex::Regex::new(pattern)?;
    Ok(compiled.is_match(text))
}

/// Compiles `pattern` with `regex::Regex::new`, searches `text` with
/// `Regex::captures`, and reads the group named `group` with
/// `Captures::name` and `Match::as_str`. The error is the one `Regex::new`
/// gave. The answer depends on the three texts alone.
#[verifier::external_body]
pub(crate) fn find_group(pattern: &str, text: &str, group: &str) -> (found: Result<
    Option<Option<String>>,
    regex::Error,
>)
    ensures
        found is Ok == regex_valid(pattern@),
        found matches Ok(hit) ==> capture_view(hit) == regex_group(pattern@, text@, group@),
{
    let compiled = regex::Regex::new(pattern)?;
    Ok(
        match compiled.captures(text) {
            None => None,
            Some(groups) => match groups.name(group) {
                None => Some(None),
                Some(held) => Some(Some(held.as_str().to_string())),
            },
        },
    )
}

/// Decodes `bytes` with `String::from_utf8_lossy`, which never fails.
#[verifier::external_body]
pub(crate) fn decode_lossy(bytes: &[u8]) -> (text: String)
    ensures
        text@ == utf8_lossy(bytes@),
{
    String::from_utf8_lossy(bytes).into_owned()
}

} // verus!
