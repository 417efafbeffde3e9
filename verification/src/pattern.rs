//! Regular-expression matching, done by `fancy_regex`.

use vstd::prelude::*;

verus! {

/// What `fancy_regex` finds for `pattern` in `text`: `None` when the pattern
/// does not compile, else the text of each successive non-overlapping match
/// (up to the first runtime error, if any).
pub uninterp spec fn spec_regex_matches(pattern: Seq<char>, text: Seq<char>) -> Option<Seq<Seq<char>>>;

/// What `fancy_regex` returns for replacing every match of `pattern` in
/// `text` by `rep` (taken literally): `None` when the pattern does not compile
/// or matching meets a runtime error.
pub uninterp spec fn spec_regex_replace_all(pattern: Seq<char>, text: Seq<char>, rep: Seq<char>) -> Option<Seq<char>>;

/// The successive non-overlapping matches of `pattern` in `text`.
///
/// Trusted: wraps `fancy_regex::Regex::new` and `Regex::find_iter`. The
/// result depends on the pattern and the text alone; the contract names it
/// and states nothing of what the pattern language means.
#[verifier::external_body]
pub(crate) fn regex_matches(pattern: &str, text: &str) -> (r: Option<Vec<String>>)
    ensures
        match r {
            Some(v) => spec_regex_matches(pattern@, text@) == Some(crate::text::views(v@)),
            None => spec_regex_matches(pattern@, text@) is None,
        },
{
    let re = fancy_regex::Regex::new(pattern).ok()?;
    Some(re.find_iter(text).map_while(|m| m.ok()).map(|m| m.as_str().to_string()).collect())
}

/// Every match of `pattern` in `text` replaced by `rep`.
///
/// Trusted: wraps `fancy_regex::Regex::new` and `Regex::try_replacen` with no
/// limit (what `replace_all` does, with its runtime error returned instead
/// of a panic). The replacement is taken literally (`NoExpand`). The result
/// depends on the arguments alone; the contract names it.
#[verifier::external_body]
pub(crate) fn regex_replace_all(pattern: &str, text: &str, rep: &str) -> (r: Option<String>)
    ensures
        match r {
            Some(s) => spec_regex_replace_all(pattern@, text@, rep@) == Some(s@),
            None => spec_regex_replace_all(pattern@, text@, rep@) is None,
        },
{
    let re = fancy_regex::Regex::new(pattern).ok()?;
    re.try_replacen(text, 0, fancy_regex::NoExpand(rep)).ok().map(|c| c.into_owned())
}

} // verus!
