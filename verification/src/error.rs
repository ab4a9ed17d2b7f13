//! What can go wrong while a firmware image is scanned.

use vstd::prelude::*;

verus! {

/// The error type of the standard library's input and output. Nothing of
/// its inside is looked at here.
#[verifier::external_type_specification]
#[verifier::external_body]
pub struct ExIoError(std::io::Error);

/// A failure of a scan.
#[derive(Debug)]
pub enum Error {
    /// The debugger process or a file could not be reached. The failure ends
    /// the scan it occurred in.
    IOError(std::io::Error),
    /// A reply of the debugger is not of the expected form. The failure ends
    /// the work on the symbol it occurred for.
    ParseError,
    /// A reply that is of no use and is passed over.
    IgnoredOutput,
}

/// Writes an I/O error out with its `Display` impl. The text comes from the
/// operating system, so nothing is said of it.
#[verifier::external_body]
fn io_error_text(err: &std::io::Error) -> String {
    format!("{}", err)
}

impl Error {
    /// The failure in words.
    pub fn message(&self) -> (r: String)
        ensures
            self is ParseError ==> r@ == "cannot parse response from gdb"@,
            self is IgnoredOutput ==> r@ == "ignored output"@,
    {
        match self {
            Error::IOError(err) => io_error_text(err),
            Error::ParseError => "cannot parse response from gdb".to_string(),
            Error::IgnoredOutput => "ignored output".to_string(),
        }
    }
}

} // verus!
