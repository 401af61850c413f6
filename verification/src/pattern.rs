//! Regular-expression searches, performed by the `regex` crate.
//!
//! The patterns are the library's own rules and are passed in by the callers;
//! each search compiles its pattern with `regex::Regex::new` and reports
//! `None` when the pattern does not compile.

use vstd::prelude::*;

verus! {

/// What `regex::Regex::find` reports for `pattern` on `haystack`: `None` when
/// the pattern does not compile, `Some(None)` when nothing matches, and
/// otherwise the text before the leftmost-first match, the match, and the
/// text after it.
pub uninterp spec fn regex_search(pattern: Seq<char>, haystack: Seq<char>) -> Option<
    Option<(Seq<char>, Seq<char>, Seq<char>)>,
>;

/// What `regex::Regex::find_iter` reports for `pattern` on `haystack`: `None`
/// when the pattern does not compile, otherwise the successive
/// non-overlapping matches.
pub uninterp spec fn regex_search_all(pattern: Seq<char>, haystack: Seq<char>) -> Option<
    Seq<Seq<char>>,
>;

/// What `regex::Regex::captures` reports for `pattern` on `haystack`: `None`
/// when the pattern does not compile, `Some(None)` when nothing matches, and
/// otherwise the text of each capture group of the first match (`None` for a
/// group that did not take part).
pub uninterp spec fn regex_groups(pattern: Seq<char>, haystack: Seq<char>) -> Option<
    Option<Seq<Option<Seq<char>>>>,
>;

/// The views of optional strings.
pub open spec fn opt_views(groups: Seq<Option<String>>) -> Seq<Option<Seq<char>>> {
    groups.map_values(
        |g: Option<String>|
            match g {
                Some(s) => Some(s@),
                None => None,
            },
    )
}

/// Leftmost-first match of `pattern` in `haystack` (`Regex::new` followed by
/// `Regex::find`), split into the text before, the match, and the text after.
/// Trusted: the result is `regex_search` of the arguments; the three parts
/// are the haystack cut at the match's byte offsets, so they make up the
/// haystack again.
#[verifier::external_body]
pub(crate) fn find_first(pattern: &str, haystack: &str) -> (r: Option<Option<(String, String, String)>>)
    ensures
        match r {
            None => regex_search(pattern@, haystack@) is None,
            Some(None) => regex_search(pattern@, haystack@) == Some(
                None::<(Seq<char>, Seq<char>, Seq<char>)>,
            ),
            Some(Some((b, m, a))) => regex_search(pattern@, haystack@) == Some(
                Some((b@, m@, a@)),
            ),
        },
        r matches Some(Some((b, m, a))) ==> b@ + m@ + a@ == haystack@,
{
    let re = regex::Regex::new(pattern).ok()?;
    Some(re.find(haystack).map(|m| {
        (haystack[..m.start()].to_string(), m.as_str().to_string(), haystack[m.end()..].to_string())
    }))
}

/// All successive non-overlapping matches of `pattern` in `haystack`
/// (`Regex::new` followed by `Regex::find_iter`).
/// Trusted: the result is `regex_search_all` of the arguments.
#[verifier::external_body]
pub(crate) fn find_all(pattern: &str, haystack: &str) -> (r: Option<Vec<String>>)
    ensures
        match r {
            None => regex_search_all(pattern@, haystack@) is None,
            Some(v) => regex_search_all(pattern@, haystack@) == Some(
                v@.map_values(|s: String| s@),
            ),
        },
{
    let re = regex::Regex::new(pattern).ok()?;
    Some(re.find_iter(haystack).map(|m| m.as_str().to_string()).collect())
}

/// Capture groups of the first match of `pattern` in `haystack`
/// (`Regex::new` followed by `Regex::captures`).
/// Trusted: the result is `regex_groups` of the arguments.
#[verifier::external_body]
pub(crate) fn capture_groups(pattern: &str, haystack: &str) -> (r: Option<Option<Vec<Option<String>>>>)
    ensures
        match r {
            None => regex_groups(pattern@, haystack@) is None,
            Some(None) => regex_groups(pattern@, haystack@) == Some(
                None::<Seq<Option<Seq<char>>>>,
            ),
            Some(Some(g)) => regex_groups(pattern@, haystack@) == Some(Some(opt_views(g@))),
        },
{
    let re = regex::Regex::new(pattern).ok()?;
    Some(re.captures(haystack).map(|c| c.iter().map(|g| g.map(|m| m.as_str().to_string())).collect()))
}

} // verus!
