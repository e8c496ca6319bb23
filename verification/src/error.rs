//! Error taxonomy of the library.

use vstd::prelude::*;

verus! {

/// Every way a page-number check, a class-string parse, or a page parse
/// can fail.
#[derive(Debug)]
pub enum Error {
    /// A requested page lies outside the valid domain.
    InvalidPageNumber(u16),
    /// A page range was requested with its bounds out of order.
    InvalidPageRange { lo: u16, hi: u16 },
    /// A class attribute did not match the 1-3 field grammar.
    MalformedClass(String),
    /// The background field of a class attribute is not in the vocabulary.
    UnknownBackground(String),
    /// The foreground field of a class attribute is not in the vocabulary.
    UnknownForeground(String),
    /// A line's child element carried no class attribute.
    MissingClass,
    /// The fixed line selector failed to compile on the query engine.
    InvalidMarkup,
    /// A submitted manual-entry buffer could not be read as a number.
    MalformedInput,
}

} // verus!
