//! Regular-expression captures, computed by the `regex` crate.
use vstd::prelude::*;

verus! {

/// The capture groups of the first match of `pattern` in `haystack`, as the
/// `regex` crate computes them (`Regex::new(pattern)` then
/// `Regex::captures(haystack)`): group 0 is the whole match, a group that did
/// not take part in the match is `None`, and the whole result is `None` when
/// the pattern is refused or nothing matches.
pub uninterp spec fn regex_captures_of(pattern: Seq<char>, haystack: Seq<char>) -> Option<
    Seq<Option<Seq<char>>>,
>;

/// Whether the `regex` crate accepts `pattern` (`Regex::new(pattern)` is `Ok`).
pub uninterp spec fn regex_compiles(pattern: Seq<char>) -> bool;

/// The view of a list of capture groups.
pub open spec fn groups_view(groups: Seq<Option<String>>) -> Seq<Option<Seq<char>>> {
    groups.map_values(
        |g: Option<String>|
            match g {
                Some(s) => Some(s@),
                None => None,
            },
    )
}

/// The view of a capture result.
pub open spec fn captures_view(c: Option<Vec<Option<String>>>) -> Option<Seq<Option<Seq<char>>>> {
    match c {
        Some(groups) => Some(groups_view(groups@)),
        None => None,
    }
}

/// Calls `regex::Regex::new(pattern)` and, when it succeeds,
/// `Regex::captures(haystack)`, copying out the text of each group.
/// Trusted: the flag is what `regex_compiles` names for the pattern, and the
/// captures are what `regex_captures_of` names for these arguments, `None`
/// when the pattern is refused (as the `Err` arm of this body makes it). What
/// the groups hold is not stated here.
#[verifier::external_body]
fn regex_run(pattern: &str, haystack: &str) -> (r: (bool, Option<Vec<Option<String>>>))
    ensures
        r.0 == regex_compiles(pattern@),
        captures_view(r.1) == regex_captures_of(pattern@, haystack@),
        !r.0 ==> r.1 is None,
{
    match regex::Regex::new(pattern) {
        Ok(re) => (
            true,
            re.captures(haystack).map(
                |caps| caps.iter().map(|m| m.map(|m| m.as_str().to_string())).collect(),
            ),
        ),
        Err(_) => (false, None),
    }
}

/// The capture groups of the first match of `pattern` in `haystack`; `None`
/// when nothing matches or the pattern is refused.
pub(crate) fn regex_captures(pattern: &str, haystack: &str) -> (r: Option<Vec<Option<String>>>)
    ensures
        captures_view(r) == regex_captures_of(pattern@, haystack@),
        !regex_compiles(pattern@) ==> r is None,
{
    regex_run(pattern, haystack).1
}

/// Whether the `regex` crate accepts `pattern`.
pub(crate) fn regex_is_valid(pattern: &str) -> (r: bool)
    ensures
        r == regex_compiles(pattern@),
{
    regex_run(pattern, "").0
}

/// Group `i` of a capture result, when there was a match and the group took part.
pub open spec fn group_of(caps: Option<Seq<Option<Seq<char>>>>, i: int) -> Option<Seq<char>> {
    match caps {
        Some(groups) => if 0 <= i < groups.len() {
            groups[i]
        } else {
            None
        },
        None => None,
    }
}

/// Group `i` of a capture result (`Captures::get(i)` then `Match::as_str`).
pub fn capture_group(caps: &Option<Vec<Option<String>>>, i: usize) -> (r: Option<String>)
    ensures
        match r {
            Some(s) => group_of(captures_view(*caps), i as int) == Some(s@),
            None => group_of(captures_view(*caps), i as int) is None,
        },
{
    match caps {
        Some(groups) => {
            if i < groups.len() {
                match &groups[i] {
                    Some(s) => Some(s.clone()),
                    None => None,
                }
            } else {
                None
            }
        },
        None => None,
    }
}

/// Groups 1 and 2 of the first match of `pattern` in `value`, when both took part.
pub open spec fn extract_pair(pattern: Seq<char>, value: Seq<char>) -> Option<(Seq<char>, Seq<char>)> {
    let caps = regex_captures_of(pattern, value);
    match (group_of(caps, 1), group_of(caps, 2)) {
        (Some(a), Some(b)) => Some((a, b)),
        _ => None,
    }
}

/// Groups 1 and 2 of the first match of `pattern` in `value`.
pub fn regex_extract(value: &str, pattern: &str) -> (r: Option<(String, String)>)
    ensures
        match r {
            Some((a, b)) => extract_pair(pattern@, value@) == Some((a@, b@)),
            None => extract_pair(pattern@, value@) is None,
        },
{
    let caps = regex_captures(pattern, value);
    match (capture_group(&caps, 1), capture_group(&caps, 2)) {
        (Some(a), Some(b)) => Some((a, b)),
        _ => None,
    }
}

/// Group 1 of the first match of `pattern` in `value`.
pub open spec fn extract_single(pattern: Seq<char>, value: Seq<char>) -> Option<Seq<char>> {
    group_of(regex_captures_of(pattern, value), 1)
}

/// Group 1 of the first match of `pattern` in `value`.
pub fn regex_extract_single(value: &str, pattern: &str) -> (r: Option<String>)
    ensures
        match r {
            Some(a) => extract_single(pattern@, value@) == Some(a@),
            None => extract_single(pattern@, value@) is None,
        },
{
    let caps = regex_captures(pattern, value);
    capture_group(&caps, 1)
}

} // verus!
