//! Error types of the library.

use vstd::prelude::*;
use crate::text::{concat_str, join, join_strings};

verus! {

/// `std::io::Error` is carried through `JSMeldError::IOError` unread.
#[verifier::external_type_specification]
#[verifier::external_body]
pub struct ExIoError(std::io::Error);

/// Error type for jsmeld operations.
#[derive(Debug)]
pub enum JSMeldError {
    /// SWC rejected the source, or the compiler failed.
    CompilationError(String),
    /// The module graph could not be bundled or emitted.
    BundlingError(String),
    /// Reading or writing a file failed.
    IOError(std::io::Error),
    /// An option holds a value that the library does not accept.
    ConfigError(String),
}

/// Result type for jsmeld operations.
pub type JSMeldResult<T> = Result<T, JSMeldError>;

/// The text of the error that SWC diagnostics become: `"SWC error: "`
/// followed by the diagnostic messages joined with `"; "`.
pub open spec fn diagnostics_message(messages: Seq<Seq<char>>) -> Seq<char> {
    "SWC error: "@ + join(messages, "; "@)
}

/// The text that `message` gives for an error that holds a text.
pub open spec fn message_of_text(e: JSMeldError) -> Option<Seq<char>> {
    match e {
        JSMeldError::CompilationError(m) => Some("Compilation error: "@ + m@),
        JSMeldError::BundlingError(m) => Some("Bundling error: "@ + m@),
        JSMeldError::ConfigError(m) => Some("Invalid configuration: "@ + m@),
        JSMeldError::IOError(_) => None,
    }
}

/// Calls `<std::io::Error as Display>::fmt` through `format!`. The text comes
/// from the operating system and is not stated.
#[verifier::external_body]
fn io_error_text(e: &std::io::Error) -> String {
    format!("{}", e)
}

impl JSMeldError {
    /// The error that a list of SWC diagnostic messages becomes.
    pub fn from_diagnostics(messages: &Vec<String>) -> (e: JSMeldError)
        ensures
            e matches JSMeldError::CompilationError(m)
                && m@ == diagnostics_message(messages@.map_values(|s: String| s@)),
    {
        let joined = join_strings(messages, "; ");
        JSMeldError::CompilationError(concat_str("SWC error: ", joined.as_str()))
    }

    /// The human-readable text of the error: a prefix that names the kind of
    /// error, then its detail.
    pub fn message(&self) -> (r: String)
        ensures
            message_of_text(*self) matches Some(t) ==> r@ == t,
            self matches JSMeldError::IOError(_) ==> "IO error: "@.is_prefix_of(r@),
    {
        match self {
            JSMeldError::CompilationError(m) => concat_str("Compilation error: ", m.as_str()),
            JSMeldError::BundlingError(m) => concat_str("Bundling error: ", m.as_str()),
            JSMeldError::ConfigError(m) => concat_str("Invalid configuration: ", m.as_str()),
            JSMeldError::IOError(e) => {
                let t = io_error_text(e);
                let r = concat_str("IO error: ", t.as_str());
                assert(r@.subrange(0, "IO error: "@.len() as int) =~= "IO error: "@);
                r
            },
        }
    }
}

} // verus!
