//! What is asked of the user, and what is made of the answer. Reading the
//! terminal is left to the caller.

use vstd::prelude::*;
use crate::params::ParameterMap;
use crate::text::{same_text, texts, trim, trimmed, words, words_of};

verus! {

/// What stands before the cursor when a value is asked for: the message
/// and a colon, or a general request where there is no message.
pub open spec fn label_text(msg: Seq<char>) -> Seq<char> {
    if msg.len() == 0 {
        "Enter a value: "@
    } else {
        msg + ": "@
    }
}

/// What stands before the cursor when a password is asked for.
pub open spec fn password_label_text(msg: Seq<char>) -> Seq<char> {
    if msg.len() == 0 {
        "Password: "@
    } else {
        msg + ": "@
    }
}

/// What stands before the cursor when a value is asked for.
pub fn prompt_label(msg: &str) -> (out: String)
    ensures
        out@ == label_text(msg@),
{
    if msg.is_empty() {
        String::from_str("Enter a value: ")
    } else {
        let mut out = String::from_str(msg);
        out.append(": ");
        out
    }
}

/// What stands before the cursor when a password is asked for.
pub fn password_label(msg: &str) -> (out: String)
    ensures
        out@ == password_label_text(msg@),
{
    if msg.is_empty() {
        String::from_str("Password: ")
    } else {
        let mut out = String::from_str(msg);
        out.append(": ");
        out
    }
}

/// Whether a parameter is there already, and what is shown either way.
#[derive(Debug, PartialEq, Eq)]
pub enum Presence {
    /// The parameter is there: this line is echoed and nothing is read.
    Present(String),
    /// The parameter is missing: it is asked for with this label.
    Missing(String),
}

/// What is shown for a parameter that may be there: its value after the
/// message if it is, the label to ask with if it is not.
pub fn presence(msg: &str, key: &str, map: &ParameterMap) -> (r: Presence)
    ensures
        match r {
            Presence::Present(line) => map@.contains_key(key@) && line@ == msg@ + ": "@
                + map@[key@],
            Presence::Missing(label) => !map@.contains_key(key@) && label@ == label_text(msg@),
        },
{
    match map.get(key) {
        Some(value) => {
            let mut line = String::from_str(msg);
            line.append(": ");
            line.append(value.as_str());
            Presence::Present(line)
        },
        None => Presence::Missing(prompt_label(msg)),
    }
}

/// What is shown for a secret parameter that may be there: the message
/// alone if it is, never its value; the label to ask with if it is not.
pub fn password_presence(msg: &str, key: &str, map: &ParameterMap) -> (r: Presence)
    ensures
        match r {
            Presence::Present(line) => map@.contains_key(key@) && line@ == msg@ + ":"@,
            Presence::Missing(label) => !map@.contains_key(key@) && label@ == password_label_text(
                msg@,
            ),
        },
{
    if map.contains_key(key) {
        let mut line = String::from_str(msg);
        line.append(":");
        Presence::Present(line)
    } else {
        Presence::Missing(password_label(msg))
    }
}

/// Stores a line that the user typed under `key`, without the white space
/// around it.
pub fn store_answer(map: &mut ParameterMap, key: &str, line: &str)
    ensures
        final(map)@ == old(map)@.insert(key@, trimmed(line@)),
{
    map.insert(String::from_str(key), trim(line));
}

/// The tokens of a command line: its words, split at white space.
pub fn command_tokens(line: &str) -> (tokens: Vec<String>)
    ensures
        texts(tokens@) == words_of(line@),
{
    words(line)
}

/// Whether the question is answered in advance by the `yes` flag.
pub fn confirmed(map: &ParameterMap) -> (r: bool)
    ensures
        r == map@.contains_key("yes"@),
{
    map.contains_key("yes")
}

/// Whether a typed line, without the white space around it, is `yes`.
pub fn typed_yes(line: &str) -> (r: bool)
    ensures
        r == (trimmed(line@) == "yes"@),
{
    let text = trim(line);
    same_text(text.as_str(), "yes")
}

} // verus!
