//! Errors raised at the host boundary when host values are converted into
//! core types. The layout and component core itself never produces one.

use vstd::prelude::*;

verus! {

#[derive(Clone, Copy, PartialEq, Eq, Structural, Debug)]
pub enum Error {
    Missing,
    OutOfRange,
    InvalidType,
    NotBuffer,
    NotInt,
    InvalidOperation,
}

impl Error {
    /// The name of each error, as the host adapter reports it.
    pub open spec fn spec_message(self) -> Seq<char> {
        match self {
            Error::Missing => "Missing"@,
            Error::OutOfRange => "OutOfRange"@,
            Error::InvalidType => "InvalidType"@,
            Error::NotBuffer => "NotBuffer"@,
            Error::NotInt => "NotInt"@,
            Error::InvalidOperation => "InvalidOperation"@,
        }
    }

    pub fn message(&self) -> (s: &'static str)
        ensures
            s@ == self.spec_message(),
    {
        match self {
            Error::Missing => "Missing",
            Error::OutOfRange => "OutOfRange",
            Error::InvalidType => "InvalidType",
            Error::NotBuffer => "NotBuffer",
            Error::NotInt => "NotInt",
            Error::InvalidOperation => "InvalidOperation",
        }
    }
}

} // verus!
