//! The integer types that are wide enough to count the bytes of a blob.

use crate::codec::number::{int_consumed, len_decoded, value_of, WireInt};
use crate::cursor::mut_contents;
use crate::decode::Decoder;
use crate::error::Error;
use bytes::BytesMut;
use vstd::prelude::*;

verus! {

/// An unsigned integer type that stands before a blob as its length.
pub trait LengthTraits: WireInt {
    /// The number of bytes that a length of this type takes on the wire.
    fn byte_count() -> (n: usize)
        ensures
            n == Self::width(),
    ;

    /// Decodes a value of the type from the front of `buf` and gives it as
    /// a length, or the conversion error where it is beyond `usize`.
    fn decode_usize(buf: &mut BytesMut) -> (r: Result<usize, Error>)
        ensures
            r == value_of(len_decoded::<Self>(mut_contents(old(buf)))),
            mut_contents(final(buf)) == mut_contents(old(buf)).skip(
                int_consumed::<Self>(mut_contents(old(buf))) as int,
            ),
    ;
}

impl LengthTraits for u16 {
    fn byte_count() -> (n: usize) {
        Self::byte_width()
    }

    fn decode_usize(buf: &mut BytesMut) -> (r: Result<usize, Error>) {
        <Self as Decoder<usize>>::decode(buf)
    }
}

impl LengthTraits for u32 {
    fn byte_count() -> (n: usize) {
        Self::byte_width()
    }

    fn decode_usize(buf: &mut BytesMut) -> (r: Result<usize, Error>) {
        <Self as Decoder<usize>>::decode(buf)
    }
}

impl LengthTraits for u64 {
    fn byte_count() -> (n: usize) {
        Self::byte_width()
    }

    fn decode_usize(buf: &mut BytesMut) -> (r: Result<usize, Error>) {
        <Self as Decoder<usize>>::decode(buf)
    }
}

impl LengthTraits for u128 {
    fn byte_count() -> (n: usize) {
        Self::byte_width()
    }

    fn decode_usize(buf: &mut BytesMut) -> (r: Result<usize, Error>) {
        <Self as Decoder<usize>>::decode(buf)
    }
}

} // verus!
