//! The error of reading an address.

use vstd::prelude::*;

verus! {

/// Says that a text is no DMX address.
///
/// Every cause gives this same value: a text that is no numeral, more than one
/// `.`, a number too large to hold, a universe or a channel out of range. It
/// carries no reason and no part of the text.
#[derive(Debug, Clone, Copy, PartialEq, Eq)]
pub struct DMXParseError;

impl DMXParseError {
    /// What `to_string` returns.
    pub open spec fn message() -> Seq<char> {
        "something went terribly wrong"@
    }

    /// A sentence for people to read. It is the same for every error.
    pub fn to_string(&self) -> (text: String)
        ensures
            text@ == Self::message(),
    {
        "something went terribly wrong".to_owned()
    }
}

} // verus!
