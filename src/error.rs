use vstd::prelude::*;

verus! {

/// Why a schema source could not be turned into schema text.
#[derive(Debug, Clone, Copy, PartialEq, Eq, Structural)]
pub enum InputError {
    /// The named file does not exist.
    NotFound,
    /// The named file exists but may not be read.
    PermissionDenied,
    /// Reading the file or the input stream failed part way.
    ReadFailed,
    /// The source was read but held no text.
    Empty,
}

/// Why a user-supplied value was refused.
#[derive(Debug, Clone, Copy, PartialEq, Eq, Structural)]
pub enum ValidationError {
    /// The text is not a number of the expected form.
    MalformedNumber,
    /// A query count below zero.
    NegativeCount,
    /// A query count too large for a signed 64-bit integer.
    CountTooLarge,
    /// A percentage outside `0 ..= 100`.
    PercentageOutOfRange,
    /// A validation window that is not a sequence of `w`, `d`, `h` amounts.
    MalformedPeriod,
    /// A validation window whose hours do not fit in 64 bits.
    PeriodTooLong,
    /// A graph reference without a name, or with an empty variant.
    InvalidGraphRef,
    /// An empty subgraph name.
    EmptySubgraph,
}

/// Every way a check can fail.
#[derive(Debug, PartialEq, Eq)]
pub enum CheckError {
    Input(InputError),
    Validation(ValidationError),
    /// Building an authenticated client failed; the message is passed on as given.
    Auth(String),
    /// The remote check failed or answered out of turn; the message is passed on as given.
    Transport(String),
}

} // verus!
