//! What commands work out before they talk to the service: addresses,
//! remote paths, and the options that they read from their parameters.

use vstd::prelude::*;
use crate::error::Error;
use crate::path::{has_root, is_absolute, join_path, joined};
use crate::text::{
    byte_len, bytes_in, chars_of, same_text, slice_chars, split_once, split_once_on, text_of,
};

verus! {

/// The longest status that is accepted, in bytes.
pub const MAX_STATUS: usize = 128;

/// The address that a request goes to: `url` with its scheme in front.
pub open spec fn request_url_text(url: Seq<char>, http: bool) -> Seq<char> {
    if http {
        "http://"@ + url
    } else {
        "https://"@ + url
    }
}

/// The address that a request goes to: `https`, or `http` where the user
/// asked for it.
pub fn request_url(url: &str, http: bool) -> (out: String)
    ensures
        out@ == request_url_text(url@, http),
{
    let mut out = if http {
        String::from_str("http://")
    } else {
        String::from_str("https://")
    };
    out.append(url);
    out
}

/// A route of the service on an instance.
pub fn endpoint(instance: &str, route: &str) -> (out: String)
    ensures
        out@ == instance@ + route@,
{
    let mut out = String::from_str(instance);
    out.append(route);
    out
}

/// The message for a user name that lacks its instance.
pub open spec fn invalid_username(user: Seq<char>) -> Seq<char> {
    "Invalid username string `"@ + user + "`"@
}

/// Splits `name:instance` at the first colon.
pub fn split_username(user: &str) -> (r: Result<(String, String), Error>)
    ensures
        match split_once_on(user@, ':') {
            Some((name, instance)) => r matches Ok((a, b)) && a@ == name && b@ == instance,
            None => r matches Err(e) && e.text() == invalid_username(user@),
        },
{
    match split_once(user, ':') {
        Some(parts) => Ok(parts),
        None => {
            let mut message = String::from_str("Invalid username string `");
            message.append(user);
            message.append("`");
            Err(Error::StringErr(message))
        },
    }
}

/// Accepts a status of at most `MAX_STATUS` bytes.
pub fn check_status(status: &str) -> (r: Result<(), Error>)
    ensures
        byte_len(status@) <= MAX_STATUS ==> r is Ok,
        byte_len(status@) > MAX_STATUS ==> (r matches Err(e) && e.text()
            == "exceeds maximum length"@),
{
    if bytes_in(status) > MAX_STATUS {
        Err(Error::StrErr("exceeds maximum length"))
    } else {
        Ok(())
    }
}

/// The path that a command works on: `path` seen from `prefix`, where a
/// shell gave one.
pub open spec fn remote_path_text(prefix: Option<Seq<char>>, path: Seq<char>) -> Seq<char> {
    match prefix {
        Some(base) => joined(base, path),
        None => path,
    }
}

/// The path that a command works on. It must start at the root.
pub fn remote_path(prefix: Option<&String>, path: &str) -> (r: Result<String, Error>)
    ensures
        match r {
            Ok(full) => full@ == remote_path_text(option_text(prefix), path@) && is_absolute(
                full@,
            ),
            Err(e) => !is_absolute(remote_path_text(option_text(prefix), path@)) && e.text()
                == "invalid file path"@,
        },
{
    let full = match prefix {
        Some(base) => join_path(base.as_str(), path),
        None => String::from_str(path),
    };
    if has_root(full.as_str()) {
        Ok(full)
    } else {
        Err(Error::StrErr("invalid file path"))
    }
}

/// The characters of a string that may be missing.
pub open spec fn option_text(s: Option<&String>) -> Option<Seq<char>> {
    match s {
        Some(text) => Some(text@),
        None => None,
    }
}

/// A path from the root without the slash that it starts with.
pub fn without_root(path: &str) -> (out: String)
    requires
        is_absolute(path@),
    ensures
        out@ == path@.skip(1),
{
    let chars = chars_of(path);
    let rest = slice_chars(&chars, 1, chars.len());
    assert(chars@.subrange(1, chars.len() as int) == chars@.skip(1));
    text_of(&rest)
}

/// Who may see an item.
#[derive(Debug, Clone, Copy, PartialEq, Eq, Structural)]
pub enum ItemVisibility {
    Hidden,
    Public,
    Private,
}

/// What is to become of the visibility of an item.
#[derive(Debug, Clone, Copy, PartialEq, Eq, Structural)]
pub enum VisibilityChange {
    /// The item gets a visibility of its own.
    Own(ItemVisibility),
    /// The item loses its own visibility and takes that of its directory.
    Inherit,
}

/// The visibility change that an option stands for.
pub open spec fn visibility_named(option: Seq<char>) -> Option<VisibilityChange> {
    if option == "private"@ {
        Some(VisibilityChange::Own(ItemVisibility::Private))
    } else if option == "public"@ {
        Some(VisibilityChange::Own(ItemVisibility::Public))
    } else if option == "hidden"@ {
        Some(VisibilityChange::Own(ItemVisibility::Hidden))
    } else if option == "inherit"@ {
        Some(VisibilityChange::Inherit)
    } else {
        None
    }
}

/// The message for an option that names no visibility.
pub open spec fn invalid_visibility(option: Seq<char>) -> Seq<char> {
    "Invalid option `"@ + option + "`"@
}

/// Reads a visibility option: `private`, `public`, `hidden` or `inherit`.
pub fn parse_visibility(option: &str) -> (r: Result<VisibilityChange, Error>)
    ensures
        match visibility_named(option@) {
            Some(change) => r matches Ok(found) && found == change,
            None => r matches Err(e) && e.text() == invalid_visibility(option@),
        },
{
    if same_text(option, "private") {
        Ok(VisibilityChange::Own(ItemVisibility::Private))
    } else if same_text(option, "public") {
        Ok(VisibilityChange::Own(ItemVisibility::Public))
    } else if same_text(option, "hidden") {
        Ok(VisibilityChange::Own(ItemVisibility::Hidden))
    } else if same_text(option, "inherit") {
        Ok(VisibilityChange::Inherit)
    } else {
        let mut message = String::from_str("Invalid option `");
        message.append(option);
        message.append("`");
        Err(Error::StringErr(message))
    }
}

/// The format that a document is compiled from.
#[derive(Debug, Clone, Copy, PartialEq, Eq, Structural)]
pub enum FromFormat {
    Markdown,
    Latex,
}

/// The format that a document is compiled to.
#[derive(Debug, Clone, Copy, PartialEq, Eq, Structural)]
pub enum ToFormat {
    Html,
    Pdf,
}

/// The program that compiles a document.
#[derive(Debug, Clone, Copy, PartialEq, Eq, Structural)]
pub enum Compiler {
    PulldownCmark,
    Pdflatex,
}

/// The source format that a name stands for.
pub open spec fn from_format_named(name: Seq<char>) -> Option<FromFormat> {
    if name == "md"@ || name == "markdown"@ {
        Some(FromFormat::Markdown)
    } else if name == "latex"@ {
        Some(FromFormat::Latex)
    } else {
        None
    }
}

/// The target format that a name stands for.
pub open spec fn to_format_named(name: Seq<char>) -> Option<ToFormat> {
    if name == "html"@ {
        Some(ToFormat::Html)
    } else if name == "pdf"@ {
        Some(ToFormat::Pdf)
    } else {
        None
    }
}

/// The compiler that a name stands for; the empty name stands for the
/// default, which is no compiler in particular.
pub open spec fn compiler_named(name: Seq<char>) -> Option<Option<Compiler>> {
    if name.len() == 0 {
        Some(None)
    } else if name == "pulldown"@ || name == "pulldown-cmark"@ {
        Some(Some(Compiler::PulldownCmark))
    } else if name == "pdflatex"@ {
        Some(Some(Compiler::Pdflatex))
    } else {
        None
    }
}

/// Reads a source format: `md`, `markdown` or `latex`.
pub fn parse_from_format(name: &str) -> (r: Result<FromFormat, Error>)
    ensures
        match from_format_named(name@) {
            Some(format) => r matches Ok(found) && found == format,
            None => r matches Err(e) && e.text() == "invalid from format"@,
        },
{
    if same_text(name, "md") || same_text(name, "markdown") {
        Ok(FromFormat::Markdown)
    } else if same_text(name, "latex") {
        Ok(FromFormat::Latex)
    } else {
        Err(Error::StrErr("invalid from format"))
    }
}

/// Reads a target format: `html` or `pdf`.
pub fn parse_to_format(name: &str) -> (r: Result<ToFormat, Error>)
    ensures
        match to_format_named(name@) {
            Some(format) => r matches Ok(found) && found == format,
            None => r matches Err(e) && e.text() == "invalid to format"@,
        },
{
    if same_text(name, "html") {
        Ok(ToFormat::Html)
    } else if same_text(name, "pdf") {
        Ok(ToFormat::Pdf)
    } else {
        Err(Error::StrErr("invalid to format"))
    }
}

/// Reads a compiler: nothing for the default, `pulldown`,
/// `pulldown-cmark` or `pdflatex`.
pub fn parse_compiler(name: &str) -> (r: Result<Option<Compiler>, Error>)
    ensures
        match compiler_named(name@) {
            Some(compiler) => r matches Ok(found) && found == compiler,
            None => r matches Err(e) && e.text() == "Invalid compiler"@,
        },
{
    if name.is_empty() {
        Ok(None)
    } else if same_text(name, "pulldown") || same_text(name, "pulldown-cmark") {
        Ok(Some(Compiler::PulldownCmark))
    } else if same_text(name, "pdflatex") {
        Ok(Some(Compiler::Pdflatex))
    } else {
        Err(Error::StrErr("Invalid compiler"))
    }
}

} // verus!
