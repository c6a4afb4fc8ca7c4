//! Exit conditions of the command-line tool.

use vstd::prelude::*;

verus! {

/// Why a command ended without success.
#[derive(Clone, Copy, Debug, PartialEq, Eq, Structural)]
pub enum Error {
    Read,
    Write,
    Open,
    Create,
    Conflict,
    Query,
    Parse,
    Compile,
    Format,
}

impl Error {
    /// The process exit code that stands for this error.
    pub open spec fn spec_code(self) -> int {
        match self {
            Error::Read => -1,
            Error::Write => -2,
            Error::Open => -3,
            Error::Create => -4,
            Error::Conflict => -5,
            Error::Query => -6,
            Error::Parse => -7,
            Error::Compile => -8,
            Error::Format => -9,
        }
    }

    /// The process exit code that stands for this error.
    pub fn code(self) -> (code: i32)
        ensures
            code == self.spec_code(),
    {
        match self {
            Error::Read => -1,
            Error::Write => -2,
            Error::Open => -3,
            Error::Create => -4,
            Error::Conflict => -5,
            Error::Query => -6,
            Error::Parse => -7,
            Error::Compile => -8,
            Error::Format => -9,
        }
    }
}

} // verus!
