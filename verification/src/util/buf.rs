//! A check that a cursor holds enough bytes.

use crate::cursor::{contents, mut_contents};
use crate::error::{bytes_needed, Error};
use bytes::{Buf, Bytes, BytesMut};
use vstd::prelude::*;

verus! {

/// What asking for `n` bytes gives where `available` are at hand.
pub open spec fn required(available: nat, n: nat) -> Result<(), Error> {
    if available < n {
        Err(bytes_needed(n, available))
    } else {
        Ok(())
    }
}

/// Checks that `available` bytes are enough where `n` are asked for, and
/// says how many are missing where they are not.
pub fn require(available: usize, n: usize) -> (r: Result<(), Error>)
    ensures
        r == required(available as nat, n as nat),
{
    if available < n {
        return Err(Error::BytesNeeded { needed: n - available, full_len: n, available });
    }
    Ok(())
}

/// A buffer that can say whether it holds a number of bytes.
pub trait BufExt {
    /// The number of bytes left in the buffer.
    spec fn available(&self) -> nat;

    /// Checks that the buffer has at least `n` bytes left.
    ///
    /// If there are fewer, the error says how many are left, how many were
    /// asked for and how many more are needed.
    fn require_n(&self, n: usize) -> (r: Result<(), Error>)
        ensures
            r == required(self.available(), n as nat),
    ;
}

impl BufExt for BytesMut {
    open spec fn available(&self) -> nat {
        mut_contents(self).len()
    }

    fn require_n(&self, n: usize) -> (r: Result<(), Error>) {
        assert(self.available() == mut_contents(self).len());
        require(self.remaining(), n)
    }
}

impl BufExt for Bytes {
    open spec fn available(&self) -> nat {
        contents(self).len()
    }

    fn require_n(&self, n: usize) -> (r: Result<(), Error>) {
        require(self.len(), n)
    }
}

} // verus!
