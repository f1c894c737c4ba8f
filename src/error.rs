//! The errors that stop an expansion.
use regex::Error as RegexError;
use std::io::Error as IoFailure;
use vstd::prelude::*;

verus! {

#[verifier::external_type_specification]
#[verifier::external_body]
pub struct ExPatternError(glob::PatternError);

#[verifier::external_type_specification]
#[verifier::external_body]
pub struct ExRegexError(RegexError);

#[verifier::external_type_specification]
#[verifier::external_body]
pub struct ExIoError(IoFailure);

/// An error that makes the expanded document meaningless.
#[derive(Debug)]
pub enum Error {
    /// The glob pattern of a directive does not parse.
    InvalidGlobPattern { pattern: String, source: glob::PatternError },
    /// The regular expression of a directive does not compile.
    InvalidRegexPattern { pattern: String, source: RegexError },
    /// Reading the template, a configuration file or the file system failed.
    IoError(IoFailure),
}

impl Error {
    /// The one-line message of the error.
    pub fn message(&self) -> (r: String)
        ensures
            self matches Error::InvalidGlobPattern { pattern, .. } ==> r@
                == "Invalid glob pattern: "@ + pattern@,
            self matches Error::InvalidRegexPattern { pattern, .. } ==> r@
                == "Invalid regex pattern: "@ + pattern@,
    {
        match self {
            Error::InvalidGlobPattern { pattern, .. } => {
                let mut r = String::from_str("Invalid glob pattern: ");
                r.append(pattern.as_str());
                r
            },
            Error::InvalidRegexPattern { pattern, .. } => {
                let mut r = String::from_str("Invalid regex pattern: ");
                r.append(pattern.as_str());
                r
            },
            Error::IoError(_) => String::from_str("I/O error"),
        }
    }
}

} // verus!
