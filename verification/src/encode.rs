//! The encode capability.

use crate::cursor::{max_len, mut_contents};
use bytes::BytesMut;
use vstd::prelude::*;

verus! {

/// A type that encodes values of type `Item` at the back of a cursor.
///
/// An implementation fixes, as functions of the value, which bytes `encode`
/// appends, how it ends, and the size it reports beforehand. The defaults
/// say nothing of any of these.
pub trait Encoder<Item = Self> {
    /// The type of error that can occur if encoding fails.
    type Error;

    /// The bytes that encoding `item` appends to the cursor. Where encoding
    /// fails, these are the bytes written before the failure.
    open spec fn encoded(item: &Item) -> Seq<u8> {
        arbitrary()
    }

    /// How encoding `item` ends.
    open spec fn outcome(item: &Item) -> Result<(), Self::Error> {
        arbitrary()
    }

    /// The number of bytes that `item` takes when encoded.
    open spec fn encoded_size(item: &Item) -> nat {
        arbitrary()
    }

    /// Encodes `item` at the back of `buf`. It never writes more than the
    /// size reported, and writes exactly that much when it succeeds.
    fn encode(item: &Item, buf: &mut BytesMut) -> (r: Result<(), Self::Error>)
        requires
            mut_contents(old(buf)).len() + Self::encoded_size(item) <= max_len(),
        ensures
            r == Self::outcome(item),
            mut_contents(final(buf)) == mut_contents(old(buf)) + Self::encoded(item),
            Self::encoded(item).len() <= Self::encoded_size(item),
            r is Ok ==> Self::encoded(item).len() == Self::encoded_size(item),
    ;

    /// The number of bytes that encoding `item` takes, without encoding it.
    fn size_of(item: &Item) -> (n: usize)
        requires
            Self::encoded_size(item) <= usize::MAX,
        ensures
            n == Self::encoded_size(item),
    ;
}

} // verus!
