use vstd::prelude::*;

verus! {

/// The closed set of failure kinds that the flash routine reports to its host.
#[derive(Debug, Clone, Copy, PartialEq, Eq, Structural)]
pub enum Error {
    /// Generic error
    Generic,
    /// Timeout error during write operation
    WriteTimeout,
    /// Error during flash unlock or access
    UnlockError,
    /// Invalid address alignment
    InvalidAddress,
    /// Timeout error during erase operation
    EraseTimeout,
    /// Flash is locked
    FlashLocked,
    /// Programming error
    ProgrammingError,
    /// Verification error
    VerificationError,
    /// Unknown flash state error
    UnknownFlashState,
    /// Busy error with additional timeout
    BusyTimeout,
}

/// The numeric code under which an error kind crosses the host boundary.
pub open spec fn code_of(e: Error) -> u32 {
    match e {
        Error::Generic => 1,
        Error::WriteTimeout => 2,
        Error::UnlockError => 3,
        Error::InvalidAddress => 4,
        Error::EraseTimeout => 5,
        Error::FlashLocked => 6,
        Error::ProgrammingError => 7,
        Error::VerificationError => 8,
        Error::UnknownFlashState => 9,
        Error::BusyTimeout => 10,
    }
}

impl Error {
    /// The non-zero boundary code of this error kind.
    pub fn code(self) -> (r: u32)
        ensures
            r == code_of(self),
            r != 0,
    {
        match self {
            Error::Generic => 1,
            Error::WriteTimeout => 2,
            Error::UnlockError => 3,
            Error::InvalidAddress => 4,
            Error::EraseTimeout => 5,
            Error::FlashLocked => 6,
            Error::ProgrammingError => 7,
            Error::VerificationError => 8,
            Error::UnknownFlashState => 9,
            Error::BusyTimeout => 10,
        }
    }
}

/// Distinct error kinds cross the boundary under distinct non-zero codes.
pub proof fn lemma_codes_distinct(a: Error, b: Error)
    ensures
        code_of(a) != 0,
        code_of(a) == code_of(b) <==> a == b,
{
}

} // verus!
