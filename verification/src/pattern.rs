//! Regular expressions over bytes, as the `regex` crate matches them.
//!
//! What a pattern matches is left to the crate and taken on trust; the
//! library reasons about the crate's answers by name.

use vstd::prelude::*;

use regex::bytes::Regex;

verus! {

#[verifier::external_type_specification]
#[verifier::external_body]
pub struct ExRegex(regex::bytes::Regex);

#[verifier::external_type_specification]
#[verifier::external_body]
pub struct ExRegexError(regex::Error);

/// Whether `regex::bytes::Regex::new` accepts `pattern`.
pub uninterp spec fn regex_compiles(pattern: Seq<char>) -> bool;

/// The pattern text that `Regex::new` compiled `re` from. Nothing else makes
/// a `Regex` in this library, so each one has the crate's default options and
/// its pattern text alone fixes what it matches.
pub uninterp spec fn regex_source(re: Regex) -> Seq<char>;

/// The capture groups of the first match of `pattern` in `haystack`, in the
/// order of their opening brackets and with the whole match first, as
/// `Regex::captures` finds them. A group that took no part in the match is
/// `None`; without a match there are no groups at all.
pub uninterp spec fn regex_captures(pattern: Seq<char>, haystack: Seq<u8>) -> Option<
    Seq<Option<Seq<u8>>>,
>;

/// `Regex::new` compiles a pattern or refuses it, always alike for the same
/// pattern, and the compiled expression remembers the pattern it came from.
pub assume_specification[ Regex::new ](re: &str) -> (r: Result<Regex, regex::Error>)
    ensures
        r is Ok == regex_compiles(re@),
        r matches Ok(compiled) ==> regex_source(compiled) == re@,
;

/// The contents of a list of capture groups.
pub open spec fn groups_view(groups: Seq<Option<Vec<u8>>>) -> Seq<Option<Seq<u8>>> {
    Seq::new(
        groups.len(),
        |i: int|
            match groups[i] {
                Some(bytes) => Some(bytes@),
                None => None,
            },
    )
}

/// Calls `Regex::captures` on `haystack` and copies out the bytes of each
/// capture group that `Captures::iter` yields. For a `Regex` that
/// `Regex::new` made, the answer depends on the pattern text and the haystack
/// alone.
#[verifier::external_body]
pub(crate) fn captures(re: &Regex, haystack: &[u8]) -> (r: Option<Vec<Option<Vec<u8>>>>)
    ensures
        r matches Some(groups) ==> regex_captures(regex_source(*re), haystack@) == Some(
            groups_view(groups@),
        ),
        r is None ==> regex_captures(regex_source(*re), haystack@) is None,
{
    re.captures(haystack).map(|c| c.iter().map(|m| m.map(|g| g.as_bytes().to_vec())).collect())
}

/// Whether groups 1 to `n` of a match all took part in it.
pub open spec fn has_groups(groups: Seq<Option<Seq<u8>>>, n: int) -> bool {
    groups.len() > n && forall|i: int| 1 <= i <= n ==> (#[trigger] groups[i]) is Some
}

/// Group `i` of a match, if there is such a group and it took part.
pub fn group_at<'a>(groups: &'a Vec<Option<Vec<u8>>>, i: usize) -> (r: Option<&'a [u8]>)
    ensures
        r matches Some(bytes) ==> i < groups.len() && groups_view(groups@)[i as int] == Some(
            bytes@,
        ),
        r is None ==> i >= groups.len() || groups_view(groups@)[i as int] is None,
{
    if i >= groups.len() {
        None
    } else {
        match &groups[i] {
            Some(bytes) => Some(bytes.as_slice()),
            None => None,
        }
    }
}

} // verus!
