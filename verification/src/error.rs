//! The failures that the operations of this crate report.

use vstd::prelude::*;

verus! {

/// Errors returned by this crate.
///
/// The three `CannotFind...Theme/Font` kinds say that a settings document
/// binds no value to the key in question; a caller may treat them as "not
/// configured". The other kinds are raised by whoever reads the documents
/// and carry the message of the underlying failure.
#[derive(Debug)]
pub enum Error {
    /// The base configuration directory of this system could not be found.
    CannotFindBaseDir,
    /// A document could not be read; the text describes the I/O failure.
    Io(String),
    /// The settings document binds no current theme.
    CannotFindCurrentTheme,
    /// The settings document binds no editor font.
    CannotFindEditorFont,
    /// The settings document binds no terminal font.
    CannotFindTerminalFont,
    /// The extension cache is not of the expected shape; the text describes
    /// where parsing stopped.
    Json(String),
}

} // verus!
