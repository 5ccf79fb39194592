//! Finding board data in the text of a message.

use crate::pattern::{captures_iter, regex_captures};
use crate::text::chars_of;
use vstd::prelude::*;
use vstd::string::StringExecFns;

verus! {

/// Board data: the version tag and its payload, then options behind `#`.
pub const FUMEN_PATTERN: &'static str = r"(v115@[a-zA-Z0-9+/?]+)(#[^ ]+)?";

/// A short link that stands for board data, then options behind `#`.
pub const TINYURL_PATTERN: &'static str = r"((?:https?://)?tinyurl.com/[0-9a-zA-Z\-]+)(#[^ ]+)?";

/// The scheme given to a link that has none.
pub const DEFAULT_SCHEME: &'static str = "https://";

/// Where the board data of a message is to be had.
#[derive(Clone, Debug, PartialEq, Eq)]
pub enum Source {
    /// The message holds the data itself.
    Fumen { data: String, options: String },
    /// The message holds a link whose redirect target holds the data.
    Link { url: String, options: String },
}

/// Whether a message is a command, which is not searched for board data.
pub fn is_command(text: &str) -> (command: bool)
    ensures
        command == (text@.len() > 0 && text@[0] == '-'),
{
    let chars = chars_of(text);
    chars.len() > 0 && chars[0] == '-'
}

/// What the first of the matches refers to and the options behind it:
/// group 1, and group 2 or nothing.
pub open spec fn first_reference(matches: Seq<Seq<Option<Seq<char>>>>) -> Option<
    (Seq<char>, Seq<char>),
> {
    if matches.len() > 0 && matches[0].len() >= 3 && matches[0][1] is Some {
        Some(
            (
                matches[0][1]->0,
                match matches[0][2] {
                    Some(options) => options,
                    None => Seq::empty(),
                },
            ),
        )
    } else {
        None
    }
}

/// What the first match of `pattern` in `text` refers to.
pub open spec fn reference_in(pattern: Seq<char>, text: Seq<char>) -> Option<
    (Seq<char>, Seq<char>),
> {
    match regex_captures(pattern, text) {
        Some(matches) => first_reference(matches),
        None => None,
    }
}

/// Whether a link names its scheme.
pub open spec fn has_scheme(url: Seq<char>) -> bool {
    url.len() >= 4 && url[0] == 'h' && url[1] == 't' && url[2] == 't' && url[3] == 'p'
}

/// The link with the default scheme in front where it names none.
pub open spec fn spec_with_scheme(url: Seq<char>) -> Seq<char> {
    if has_scheme(url) {
        url
    } else {
        DEFAULT_SCHEME@ + url
    }
}

/// Where the board data of `text` is to be had: from the data in the
/// text, else from a link in it.
pub open spec fn spec_locate(text: Seq<char>) -> Option<(bool, Seq<char>, Seq<char>)> {
    match reference_in(FUMEN_PATTERN@, text) {
        Some((data, options)) => Some((true, data, options)),
        None => match reference_in(TINYURL_PATTERN@, text) {
            Some((url, options)) => Some((false, spec_with_scheme(url), options)),
            None => None,
        },
    }
}

impl Source {
    /// A source as plain values: whether it is the data itself, the data or
    /// the link, and the options.
    pub open spec fn model(self) -> (bool, Seq<char>, Seq<char>) {
        match self {
            Source::Fumen { data, options } => (true, data@, options@),
            Source::Link { url, options } => (false, url@, options@),
        }
    }
}

/// Picks from pattern matches what the first of them refers to.
pub fn first_of(matches: &Vec<Vec<Option<String>>>) -> (found: Option<(String, String)>)
    ensures
        found.deep_view() == first_reference(matches.deep_view()),
{
    if matches.len() == 0 {
        return None;
    }
    let groups = &matches[0];
    assert(matches.deep_view()[0] == groups.deep_view());
    if groups.len() < 3 {
        return None;
    }
    assert(groups.deep_view()[1] == groups@[1].deep_view());
    assert(groups.deep_view()[2] == groups@[2].deep_view());
    match &groups[1] {
        None => None,
        Some(target) => {
            let options = match &groups[2] {
                Some(options) => options.clone(),
                None => String::new(),
            };
            Some((target.clone(), options))
        },
    }
}

/// The first board data in `text` and the options behind it.
pub fn find_fumen(text: &str) -> (found: Option<(String, String)>)
    ensures
        found.deep_view() == reference_in(FUMEN_PATTERN@, text@),
{
    match captures_iter(FUMEN_PATTERN, text) {
        Some(matches) => first_of(&matches),
        None => None,
    }
}

/// The first short link in `text`, as it stands there, and the options
/// behind it.
pub fn find_tinyurl(text: &str) -> (found: Option<(String, String)>)
    ensures
        found.deep_view() == reference_in(TINYURL_PATTERN@, text@),
{
    match captures_iter(TINYURL_PATTERN, text) {
        Some(matches) => first_of(&matches),
        None => None,
    }
}

/// The link with `https://` in front unless it begins with `http`.
pub fn with_scheme(url: &str) -> (full: String)
    ensures
        full@ == spec_with_scheme(url@),
{
    let chars = chars_of(url);
    if chars.len() >= 4 && chars[0] == 'h' && chars[1] == 't' && chars[2] == 't' && chars[3]
        == 'p' {
        String::from_str(url)
    } else {
        String::from_str(DEFAULT_SCHEME).concat(url)
    }
}

/// Where the board data of `text` is to be had, if anywhere.
pub fn locate(text: &str) -> (source: Option<Source>)
    ensures
        match source {
            Some(source) => spec_locate(text@) == Some(source.model()),
            None => spec_locate(text@) is None,
        },
{
    match find_fumen(text) {
        Some((data, options)) => Some(Source::Fumen { data, options }),
        None => match find_tinyurl(text) {
            Some((url, options)) => Some(Source::Link { url: with_scheme(url.as_str()), options }),
            None => None,
        },
    }
}

} // verus!
