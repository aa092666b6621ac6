//! Errors of the `check` command.

use vstd::prelude::*;

use crate::text::{append_str, to_owned_string};

verus! {

/// Why collecting the files to check failed.
#[derive(Debug)]
pub enum EcdError {
    /// Neither a file nor a directory was given.
    NoInput,
    /// A given path does not exist; holds the path.
    NotFound(String),
    /// Reading failed; holds the error message.
    Io(String),
}

/// The message text of an error.
pub open spec fn ecd_error_text(e: EcdError) -> Seq<char> {
    match e {
        EcdError::NoInput => "no input: provide at least one --file (-f) or --directory (-d)"@,
        EcdError::NotFound(path) => "path not found: "@ + path@,
        EcdError::Io(msg) => msg@,
    }
}

impl EcdError {
    /// The human-readable message of this error.
    pub fn message(&self) -> (r: String)
        ensures
            r@ == ecd_error_text(*self),
    {
        match self {
            EcdError::NoInput => to_owned_string(
                "no input: provide at least one --file (-f) or --directory (-d)",
            ),
            EcdError::NotFound(path) => {
                let mut r = to_owned_string("path not found: ");
                append_str(&mut r, path.as_str());
                r
            },
            EcdError::Io(msg) => to_owned_string(msg.as_str()),
        }
    }
}

} // verus!
