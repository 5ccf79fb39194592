//! Pattern matching, done by the `regex` crate.
//!
//! Nothing in this module is proved: its items state what the `regex` crate
//! does.

use vstd::prelude::*;

verus! {

/// The matches of the regular expression `pattern` in `text`, from left to
/// right and without overlap, as `regex::Regex::captures_iter` yields them
/// for the expression that `regex::Regex::new` compiles from `pattern`.
/// Each match lists its capture groups as `regex::Captures::iter` does:
/// group 0, the whole match, comes first, and a group that took no part in
/// the match is `None`. The result is `None` where `pattern` does not
/// compile.
pub uninterp spec fn regex_captures(pattern: Seq<char>, text: Seq<char>) -> Option<
    Seq<Seq<Option<Seq<char>>>>,
>;

/// Compiles `pattern` with `regex::Regex::new` and collects what
/// `regex::Regex::captures_iter` yields on `text`, the text of every group
/// copied out of its `regex::Match`.
#[verifier::external_body]
pub(crate) fn captures_iter(pattern: &str, text: &str) -> (res: Option<Vec<Vec<Option<String>>>>)
    ensures
        res.deep_view() == regex_captures(pattern@, text@),
{
    let regex = regex::Regex::new(pattern).ok()?;
    let groups = |found: regex::Captures| found.iter().map(|g| g.map(|m| m.as_str().to_string())).collect();
    Some(regex.captures_iter(text).map(groups).collect())
}

} // verus!
