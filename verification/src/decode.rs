//! The decode capabilities.

use crate::cursor::mut_contents;
use crate::model::{modeled, raw_modeled, Modeled};
use bytes::BytesMut;
use vstd::prelude::*;

verus! {

/// A type that decodes values of type `Item` from the front of a cursor.
///
/// An implementation fixes, as functions of the bytes in the cursor, what
/// `decode` yields and how many bytes it takes; `decode` does nothing else.
/// The defaults say nothing of what is yielded, take no bytes and find any
/// input long enough.
pub trait Decoder<Item: Modeled = Self> {
    /// The type of error that can occur if decoding fails.
    type Error;

    /// What decoding yields from a cursor that holds `input`.
    open spec fn decoded(input: Seq<u8>) -> Result<Item::Model, Self::Error> {
        arbitrary()
    }

    /// How many bytes decoding takes off a cursor that holds `input`.
    open spec fn consumed(input: Seq<u8>) -> nat {
        0
    }

    /// Whether `input` is long enough for an attempt at decoding.
    open spec fn enough(input: Seq<u8>) -> bool {
        true
    }

    /// Decodes a value from the front of `buf`. It never takes more than
    /// `buf` holds.
    fn decode(buf: &mut BytesMut) -> (r: Result<Item, Self::Error>)
        ensures
            modeled(r) == Self::decoded(mut_contents(old(buf))),
            Self::consumed(mut_contents(old(buf))) <= mut_contents(old(buf)).len(),
            mut_contents(final(buf)) == mut_contents(old(buf)).skip(
                Self::consumed(mut_contents(old(buf))) as int,
            ),
    ;

    /// Whether `buf` holds enough bytes for an attempt at decoding.
    fn has_enough_bytes(buf: &BytesMut) -> (b: bool)
        ensures
            b == Self::enough(mut_contents(buf)),
    ;
}

/// A type that decodes values of type `Item` from a slice, which it leaves
/// as it is.
pub trait RawDecoder<Item: Modeled = Self> {
    /// The type of error that can occur if decoding fails.
    type Error;

    /// What decoding yields from `input`: the value and the number of bytes
    /// it was read from.
    open spec fn raw_decoded(input: Seq<u8>) -> Result<(Item::Model, usize), Self::Error> {
        arbitrary()
    }

    /// Decodes a value from the front of `buf` and says how many bytes it
    /// was read from, which is never more than `buf` holds.
    fn raw_decode(buf: &[u8]) -> (r: Result<(Item, usize), Self::Error>)
        ensures
            raw_modeled(r) == Self::raw_decoded(buf@),
            r matches Ok((_, read)) ==> read <= buf@.len(),
    ;
}

} // verus!
