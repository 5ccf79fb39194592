//! The lines and file names of the message log.
//!
//! Every line begins with its kind, padded to nine characters, and ends
//! with a line feed. A message is named by `&` and its number, a user by
//! `@` and their number, and a time stands between `<` and `>`. Names and
//! contents are escaped, so a line never holds a line feed of its own.

use crate::text::{decimal, escape, escaped, spec_decimal};
use vstd::prelude::*;
use vstd::string::StringExecFns;

verus! {

/// The mark of a message that was flagged.
pub const FLAGGED: &'static str = "FLAGGED";

/// The content type of an attachment that names none.
pub const UNKNOWN_TYPE: &'static str = "unknown";

/// The ending of the name of a log file.
pub const LOG_SUFFIX: &'static str = ".log";

/// The line of a message.
pub open spec fn spec_message_line(
    flagged: bool,
    id: u64,
    time: Seq<char>,
    author: u64,
    tag: Seq<char>,
    content: Seq<char>,
) -> Seq<char> {
    "MESSAGE "@ + (if flagged {
        FLAGGED@
    } else {
        Seq::empty()
    }) + " &"@ + spec_decimal(id as nat) + " <"@ + time + "> @"@ + spec_decimal(author as nat)
        + " ("@ + escaped(tag) + "): "@ + escaped(content) + "\n"@
}

/// The line of a message: whether it was flagged, its number, its time,
/// the number and the tag of its author, and its content.
pub fn message_line(
    flagged: bool,
    id: u64,
    time: &str,
    author: u64,
    tag: &str,
    content: &str,
) -> (line: String)
    ensures
        line@ == spec_message_line(flagged, id, time@, author, tag@, content@),
{
    let mut line = String::from_str("MESSAGE ");
    if flagged {
        line.append(FLAGGED);
    } else {
        assert(line@ + Seq::<char>::empty() =~= line@);
    }
    line.append(" &");
    line.append(decimal(id).as_str());
    line.append(" <");
    line.append(time);
    line.append("> @");
    line.append(decimal(author).as_str());
    line.append(" (");
    line.append(escape(tag).as_str());
    line.append("): ");
    line.append(escape(content).as_str());
    line.append("\n");
    line
}

/// The line of an attachment.
pub open spec fn spec_attachment_line(
    content_type: Option<Seq<char>>,
    filename: Seq<char>,
    url: Seq<char>,
) -> Seq<char> {
    "ATTACHED "@ + (match content_type {
        Some(named) => named,
        None => UNKNOWN_TYPE@,
    }) + " ("@ + escaped(filename) + "): "@ + url + "\n"@
}

/// The line of an attachment: its content type, its file name and its
/// address.
pub fn attachment_line(content_type: Option<&str>, filename: &str, url: &str) -> (line: String)
    ensures
        line@ == spec_attachment_line(
            match content_type {
                Some(named) => Some(named@),
                None => None,
            },
            filename@,
            url@,
        ),
{
    let mut line = String::from_str("ATTACHED ");
    match content_type {
        Some(named) => line.append(named),
        None => line.append(UNKNOWN_TYPE),
    }
    line.append(" (");
    line.append(escape(filename).as_str());
    line.append("): ");
    line.append(url);
    line.append("\n");
    line
}

/// The line of a deleted message.
pub open spec fn spec_delete_line(id: u64, time: Seq<char>) -> Seq<char> {
    "DELETE   &"@ + spec_decimal(id as nat) + " <"@ + time + ">\n"@
}

/// The line of a deleted message: its number and the time of the
/// deletion.
pub fn delete_line(id: u64, time: &str) -> (line: String)
    ensures
        line@ == spec_delete_line(id, time@),
{
    let mut line = String::from_str("DELETE   &");
    line.append(decimal(id).as_str());
    line.append(" <");
    line.append(time);
    line.append(">\n");
    line
}

/// The line of an edited message.
pub open spec fn spec_edit_line(id: u64, time: Seq<char>, content: Seq<char>) -> Seq<char> {
    "EDIT     &"@ + spec_decimal(id as nat) + " <"@ + time + ">: "@ + escaped(content) + "\n"@
}

/// The line of an edited message: its number, the time of the edit and
/// the new content.
pub fn edit_line(id: u64, time: &str, content: &str) -> (line: String)
    ensures
        line@ == spec_edit_line(id, time@, content@),
{
    let mut line = String::from_str("EDIT     &");
    line.append(decimal(id).as_str());
    line.append(" <");
    line.append(time);
    line.append(">: ");
    line.append(escape(content).as_str());
    line.append("\n");
    line
}

/// The line of a member who joins or leaves, after the kind of the line.
pub open spec fn spec_member_line(kind: Seq<char>, time: Seq<char>, user: u64, tag: Seq<char>) -> Seq<
    char,
> {
    kind + "<"@ + time + "> @"@ + spec_decimal(user as nat) + " ("@ + escaped(tag) + ")\n"@
}

fn member_line(kind: &str, time: &str, user: u64, tag: &str) -> (line: String)
    ensures
        line@ == spec_member_line(kind@, time@, user, tag@),
{
    let mut line = String::from_str(kind);
    line.append("<");
    line.append(time);
    line.append("> @");
    line.append(decimal(user).as_str());
    line.append(" (");
    line.append(escape(tag).as_str());
    line.append(")\n");
    line
}

/// The line of a member who joins: the time, and the number and the tag of
/// the user.
pub fn join_line(time: &str, user: u64, tag: &str) -> (line: String)
    ensures
        line@ == spec_member_line("JOIN     "@, time@, user, tag@),
{
    member_line("JOIN     ", time, user, tag)
}

/// The line of a member who leaves: the time, and the number and the tag
/// of the user.
pub fn leave_line(time: &str, user: u64, tag: &str) -> (line: String)
    ensures
        line@ == spec_member_line("LEAVE    "@, time@, user, tag@),
{
    member_line("LEAVE    ", time, user, tag)
}

/// The name of the log file of the channel or user with number `id`: the
/// mark of its kind, `#` for a channel and `@` for a user, the number and
/// the ending.
pub open spec fn spec_log_name(mark: Seq<char>, id: u64) -> Seq<char> {
    mark + spec_decimal(id as nat) + LOG_SUFFIX@
}

fn log_name(mark: &str, id: u64) -> (name: String)
    ensures
        name@ == spec_log_name(mark@, id),
{
    let mut name = String::from_str(mark);
    name.append(decimal(id).as_str());
    name.append(LOG_SUFFIX);
    name
}

/// The name of the log file of a channel of a server.
pub fn channel_log_name(id: u64) -> (name: String)
    ensures
        name@ == spec_log_name("#"@, id),
{
    log_name("#", id)
}

/// The name of the log file of a private channel, by the user's number.
pub fn user_log_name(id: u64) -> (name: String)
    ensures
        name@ == spec_log_name("@"@, id),
{
    log_name("@", id)
}

/// The name of the link to a log file: the escaped name of what is logged
/// and the ending.
pub fn link_name(name: &str) -> (link: String)
    ensures
        link@ == escaped(name@) + LOG_SUFFIX@,
{
    let mut link = escape(name);
    link.append(LOG_SUFFIX);
    link
}

} // verus!
