//! The length policy of a blob that has no length before it.

use crate::decode::{Decoder, RawDecoder};
use crate::encode::Encoder;
use crate::error::Error;
use bytes::BytesMut;
use vstd::prelude::*;

verus! {

/// A length that takes no bytes on the wire.
///
/// In the place of a length type it makes a blob that
/// - decodes as all the bytes left in the cursor, and
/// - encodes with nothing before it.
#[derive(Debug, Clone, Copy, Default)]
pub struct Remaining;

impl Decoder<usize> for Remaining {
    type Error = Error;

    open spec fn decoded(input: Seq<u8>) -> Result<usize, Error> {
        Ok(input.len() as usize)
    }

    open spec fn consumed(input: Seq<u8>) -> nat {
        0
    }

    open spec fn enough(input: Seq<u8>) -> bool {
        true
    }

    fn decode(buf: &mut BytesMut) -> (r: Result<usize, Error>) {
        Ok(buf.len())
    }

    fn has_enough_bytes(buf: &BytesMut) -> (b: bool) {
        true
    }
}

impl RawDecoder<usize> for Remaining {
    type Error = Error;

    open spec fn raw_decoded(input: Seq<u8>) -> Result<(usize, usize), Error> {
        Ok((input.len() as usize, 0))
    }

    fn raw_decode(buf: &[u8]) -> (r: Result<(usize, usize), Error>) {
        Ok((buf.len(), 0))
    }
}

impl Encoder<usize> for Remaining {
    type Error = Error;

    open spec fn encoded(item: &usize) -> Seq<u8> {
        Seq::empty()
    }

    open spec fn outcome(item: &usize) -> Result<(), Error> {
        Ok(())
    }

    open spec fn encoded_size(item: &usize) -> nat {
        0
    }

    fn encode(item: &usize, buf: &mut BytesMut) -> (r: Result<(), Error>) {
        Ok(())
    }

    fn size_of(item: &usize) -> (n: usize) {
        0
    }
}

} // verus!
