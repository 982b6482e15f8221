//! The ways in which reading or evaluating a roll can fail.

use vstd::prelude::*;

verus! {

/// Why a roll could not be read or evaluated.
#[derive(Clone, Copy, Debug, PartialEq, Eq, Structural)]
pub enum Error {
    /// A dice group names a die that is not one of the supported types.
    UnrecognizedDieType,
    /// A numeric field is not a run of decimal digits that fits in an `i32`.
    NumberParseFailure,
    /// The matcher for a pattern could not be built, or it reported a match
    /// that lacks a group the pattern defines.
    MatcherFailure,
    /// The total of a cast does not fit in an `i32`.
    TotalOutOfRange,
}

} // verus!
