//! Flagging messages that advertise a well-known scam.

use crate::pattern::{captures_iter, regex_captures};
use crate::text::{contains, occurs_in};
use vstd::prelude::*;

verus! {

/// The mention that reaches every member of a server.
pub const EVERYONE: &'static str = "@everyone";

/// The word `nitro` in any case, standing alone.
pub const NITRO_PATTERN: &'static str = r"(?i)\bnitro\b";

/// Whether `content` mentions everyone and holds the word `nitro`.
pub open spec fn spec_is_nitro_scam(content: Seq<char>) -> bool {
    &&& occurs_in(EVERYONE@, content)
    &&& regex_captures(NITRO_PATTERN@, content) matches Some(matches)
    &&& matches.len() > 0
}

/// Whether pattern matches hold a match.
pub fn any_match(matches: &Option<Vec<Vec<Option<String>>>>) -> (any: bool)
    ensures
        any == (matches.deep_view() matches Some(found) && found.len() > 0),
{
    match matches {
        Some(found) => found.len() > 0,
        None => false,
    }
}

/// Whether a message is to be flagged: it mentions everyone and holds the
/// word `nitro`.
pub fn is_nitro_scam(content: &str) -> (flagged: bool)
    ensures
        flagged == spec_is_nitro_scam(content@),
{
    if !contains(content, EVERYONE) {
        return false;
    }
    any_match(&captures_iter(NITRO_PATTERN, content))
}

} // verus!
