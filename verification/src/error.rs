//! The error that commands and parsers report.

use vstd::prelude::*;

verus! {

/// A failure with the message that is shown to the user.
#[derive(Debug)]
pub enum Error {
    /// A message built at run time.
    StringErr(String),
    /// A fixed message.
    StrErr(&'static str),
    /// A failure without further detail.
    Unspecified,
}

impl Error {
    /// The text that the error stands for.
    pub open spec fn text(&self) -> Seq<char> {
        match self {
            Error::StringErr(s) => s@,
            Error::StrErr(s) => s@,
            Error::Unspecified => "unspecified error"@,
        }
    }

    /// The message of the error, as it is shown to the user.
    pub fn message(&self) -> (r: String)
        ensures
            r@ == self.text(),
    {
        match self {
            Error::StringErr(s) => s.clone(),
            Error::StrErr(s) => String::from_str(s),
            Error::Unspecified => String::from_str("unspecified error"),
        }
    }
}

} // verus!
