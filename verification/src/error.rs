//! The error every codec of this crate reports.

use crate::codec::number::TryFromIntError;
use crate::codec::text::TextError;
use core::convert::Infallible;
use vstd::prelude::*;
use vstd::std_specs::convert::FromSpecImpl;

verus! {

/// Why decoding or encoding failed.
///
/// `BytesNeeded` is the one failure that more input cures; the others mean
/// that the input is malformed.
#[derive(Debug)]
pub enum Error {
    /// The cursor held `available` bytes where `full_len` were asked for:
    /// `needed` more are wanted.
    BytesNeeded { needed: usize, full_len: usize, available: usize },
    /// A number did not fit the width it was converted to.
    IntConversion(TryFromIntError),
    /// A text blob was not of the encoding it was declared in.
    Text(TextError),
}

impl From<TryFromIntError> for Error {
    fn from(e: TryFromIntError) -> (r: Error) {
        Error::IntConversion(e)
    }
}

impl FromSpecImpl<TryFromIntError> for Error {
    open spec fn obeys_from_spec() -> bool {
        true
    }

    open spec fn from_spec(e: TryFromIntError) -> Error {
        Error::IntConversion(e)
    }
}

impl From<TextError> for Error {
    fn from(e: TextError) -> (r: Error) {
        Error::Text(e)
    }
}

impl FromSpecImpl<TextError> for Error {
    open spec fn obeys_from_spec() -> bool {
        true
    }

    open spec fn from_spec(e: TextError) -> Error {
        Error::Text(e)
    }
}

/// Lets an encoder that cannot fail stand where an `Error` is expected.
/// There is no value of `Infallible`, so this is never run.
impl From<Infallible> for Error {
    fn from(e: Infallible) -> (r: Error) {
        Error::IntConversion(TryFromIntError(()))
    }
}

impl FromSpecImpl<Infallible> for Error {
    open spec fn obeys_from_spec() -> bool {
        true
    }

    open spec fn from_spec(e: Infallible) -> Error {
        int_conversion()
    }
}

/// The error for a cursor that holds `available` bytes where `wanted` are
/// asked for.
pub open spec fn bytes_needed(wanted: nat, available: nat) -> Error {
    Error::BytesNeeded {
        needed: (wanted - available) as usize,
        full_len: wanted as usize,
        available: available as usize,
    }
}

/// The error for a number that does not fit the width asked for.
pub open spec fn int_conversion() -> Error {
    Error::IntConversion(TryFromIntError(()))
}

} // verus!
