//! The failure conditions that the library's operations report.

use vstd::prelude::*;

verus! {

/// Every failure an operation of this crate can report.
///
/// Each operation's contract says exactly which variant it returns and on
/// which inputs, so callers can match on the variant rather than on text.
#[derive(Clone, Copy, Debug, PartialEq, Eq, Structural)]
pub enum Error {
    /// A token was requested but none remain in the source.
    TokenExhausted,
    /// A token's text could not be read as a value of the requested shape;
    /// this includes a one-based index token that holds zero.
    ParseFailure,
    /// `npop` or `nget` asked for more elements than the sequence holds.
    CountTooLarge,
    /// `get_range` or `pop_range` was given an index beyond the sequence length.
    InvalidRange,
    /// The byte-order selector was none of `native`, `little`, `big`.
    UnknownByteOrder,
}

} // verus!
