//! Blobs with their length before them.
//!
//! On the wire a blob is its length, in the length type `L`, and then its
//! bytes. With `Remaining` in the place of `L` there is no length: the blob
//! is whatever the cursor holds.

use crate::codec::endian::{be_bytes, fits, lemma_pow256_values};
use crate::codec::number::{lemma_len_round_trip, WireInt};
use crate::cursor::{contents, max_len, mut_contents};
use crate::decode::{Decoder, RawDecoder};
use crate::encode::Encoder;
use crate::error::{bytes_needed, Error};
use crate::util::buf::require;
use crate::util::remaining::Remaining;
use bytes::{Buf, BufMut, Bytes, BytesMut};
use core::marker::PhantomData;
use vstd::prelude::*;

verus! {

/// A blob that is not prefixed with its length.
pub type Unprefixed = LengthPrefixed<Remaining>;

/// An encoder and decoder for blobs prefixed with their length as an `L`.
#[derive(Debug, Default)]
pub struct LengthPrefixed<L>(PhantomData<L>);

impl<L> Clone for LengthPrefixed<L> {
    fn clone(&self) -> (copy: Self)
        ensures
            copy == *self,
    {
        LengthPrefixed(PhantomData)
    }
}

impl<L> Copy for LengthPrefixed<L> {

}

/// The blob at the front of `input`: the bytes that follow the length, as
/// many as the length says. Where fewer follow, the error counts the bytes
/// that do.
pub open spec fn blob<L: RawDecoder<usize, Error = Error>>(input: Seq<u8>) -> Result<
    Seq<u8>,
    Error,
> {
    match L::raw_decoded(input) {
        Err(e) => Err(e),
        Ok((len, rx)) => if input.len() - rx < len {
            Err(bytes_needed(len as nat, (input.len() - rx) as nat))
        } else {
            Ok(input.subrange(rx as int, rx + len))
        },
    }
}

/// The number of bytes that the blob at the front of `input` takes with its
/// length: all or nothing.
pub open spec fn blob_consumed<L: RawDecoder<usize, Error = Error>>(input: Seq<u8>) -> nat {
    match L::raw_decoded(input) {
        Err(_) => 0,
        Ok((len, rx)) => if input.len() - rx < len {
            0
        } else {
            (rx + len) as nat
        },
    }
}

/// The bytes that encoding a blob of `payload` appends: its length and the
/// payload, or what the length left behind where it failed to encode.
pub open spec fn prefixed<L: Encoder<usize, Error = Error>>(payload: Seq<u8>) -> Seq<u8> {
    let len = payload.len() as usize;
    match L::outcome(&len) {
        Ok(_) => L::encoded(&len) + payload,
        Err(_) => L::encoded(&len),
    }
}

/// The number of bytes that a blob of `len` bytes takes with its length.
pub open spec fn prefixed_size<L: Encoder<usize, Error = Error>>(len: nat) -> nat {
    L::encoded_size(&(len as usize)) + len
}

/// Cuts the blob at the front of `buf` off it. Where the length or the
/// bytes after it are not all there, `buf` stays as it is.
pub fn decode_blob<L: RawDecoder<usize, Error = Error>>(buf: &mut BytesMut) -> (r: Result<
    BytesMut,
    Error,
>)
    ensures
        match r {
            Ok(cut) => blob::<L>(mut_contents(old(buf))) == Ok::<Seq<u8>, Error>(
                mut_contents(&cut),
            ),
            Err(e) => blob::<L>(mut_contents(old(buf))) == Err::<Seq<u8>, Error>(e),
        },
        blob_consumed::<L>(mut_contents(old(buf))) <= mut_contents(old(buf)).len(),
        mut_contents(final(buf)) == mut_contents(old(buf)).skip(
            blob_consumed::<L>(mut_contents(old(buf))) as int,
        ),
{
    let ghost input = mut_contents(buf);
    let (len, rx) = L::raw_decode(<BytesMut as Buf>::chunk(buf))?;
    require(buf.len() - rx, len)?;
    buf.advance(rx);
    let cut = buf.split_to(len);
    assert(mut_contents(&cut) =~= input.subrange(rx as int, rx + len));
    Ok(cut)
}

/// Appends the length of `payload` and then `payload` to `buf`.
pub fn encode_blob<L: Encoder<usize, Error = Error>>(payload: &[u8], buf: &mut BytesMut) -> (r:
    Result<(), Error>)
    requires
        mut_contents(old(buf)).len() + prefixed_size::<L>(payload@.len()) <= max_len(),
    ensures
        r == L::outcome(&(payload@.len() as usize)),
        mut_contents(final(buf)) == mut_contents(old(buf)) + prefixed::<L>(payload@),
        prefixed::<L>(payload@).len() <= prefixed_size::<L>(payload@.len()),
        r is Ok ==> prefixed::<L>(payload@).len() == prefixed_size::<L>(payload@.len()),
{
    let len = payload.len();
    match L::encode(&len, buf) {
        Ok(done) => {
            buf.put_slice(payload);
            Ok(done)
        },
        Err(e) => Err(e),
    }
}

/// The number of bytes that a blob of `len` bytes takes with its length.
pub fn blob_size<L: Encoder<usize, Error = Error>>(len: usize) -> (n: usize)
    requires
        prefixed_size::<L>(len as nat) <= usize::MAX,
    ensures
        n == prefixed_size::<L>(len as nat),
{
    L::size_of(&len) + len
}

/// Length-prefix fidelity: a blob whose length the type `L` has a value for
/// is written as that length, in as many bytes as `L` is wide, and then the
/// payload. Decoding gives the payload back, takes exactly those bytes, and
/// leaves what follows them in the cursor.
pub proof fn lemma_prefix_fidelity<L: WireInt>(payload: Seq<u8>, trailing: Seq<u8>)
    requires
        payload.len() <= usize::MAX,
        fits(payload.len() as int, L::width(), L::signed()),
    ensures
        prefixed::<L>(payload) == be_bytes(payload.len(), L::width()) + payload,
        prefixed::<L>(payload).len() == L::width() + payload.len(),
        prefixed_size::<L>(payload.len()) == L::width() + payload.len(),
        blob::<L>(prefixed::<L>(payload) + trailing) == Ok::<Seq<u8>, Error>(payload),
        blob_consumed::<L>(prefixed::<L>(payload) + trailing) == L::width() + payload.len(),
        (prefixed::<L>(payload) + trailing).skip(
            blob_consumed::<L>(prefixed::<L>(payload) + trailing) as int,
        ) == trailing,
{
    let len = payload.len() as usize;
    let head = be_bytes(payload.len(), L::width());
    let wire = prefixed::<L>(payload) + trailing;
    L::lemma_width();
    lemma_len_round_trip::<L>(len, payload + trailing);
    assert(wire =~= head + (payload + trailing));
    assert(wire.subrange(L::width() as int, L::width() + len) =~= payload);
}

/// Length-prefix fidelity with a length of one byte: a blob of up to 255
/// bytes is written as one byte that holds its length and then the payload,
/// and decoding gives the payload back and leaves what follows untouched.
pub proof fn lemma_u8_prefix(payload: Seq<u8>, trailing: Seq<u8>)
    requires
        payload.len() <= 255,
    ensures
        prefixed::<u8>(payload) == seq![payload.len() as u8] + payload,
        prefixed::<u8>(payload).len() == 1 + payload.len(),
        prefixed::<u8>(payload)[0] == payload.len(),
        blob::<u8>(prefixed::<u8>(payload) + trailing) == Ok::<Seq<u8>, Error>(payload),
        (prefixed::<u8>(payload) + trailing).skip(
            blob_consumed::<u8>(prefixed::<u8>(payload) + trailing) as int,
        ) == trailing,
{
    lemma_pow256_values();
    lemma_prefix_fidelity::<u8>(payload, trailing);
    reveal_with_fuel(be_bytes, 2);
}

impl<L> Decoder<BytesMut> for LengthPrefixed<L> where L: RawDecoder<usize, Error = Error> {
    type Error = Error;

    open spec fn decoded(input: Seq<u8>) -> Result<Seq<u8>, Error> {
        blob::<L>(input)
    }

    open spec fn consumed(input: Seq<u8>) -> nat {
        blob_consumed::<L>(input)
    }

    open spec fn enough(input: Seq<u8>) -> bool {
        true
    }

    fn decode(buf: &mut BytesMut) -> (r: Result<BytesMut, Error>) {
        decode_blob::<L>(buf)
    }

    fn has_enough_bytes(buf: &BytesMut) -> (b: bool) {
        true
    }
}

impl<L> Decoder<Bytes> for LengthPrefixed<L> where L: RawDecoder<usize, Error = Error> {
    type Error = Error;

    open spec fn decoded(input: Seq<u8>) -> Result<Seq<u8>, Error> {
        blob::<L>(input)
    }

    open spec fn consumed(input: Seq<u8>) -> nat {
        blob_consumed::<L>(input)
    }

    open spec fn enough(input: Seq<u8>) -> bool {
        true
    }

    fn decode(buf: &mut BytesMut) -> (r: Result<Bytes, Error>) {
        match decode_blob::<L>(buf) {
            Ok(cut) => Ok(cut.freeze()),
            Err(e) => Err(e),
        }
    }

    fn has_enough_bytes(buf: &BytesMut) -> (b: bool) {
        true
    }
}

impl<L> Encoder<Bytes> for LengthPrefixed<L> where L: Encoder<usize, Error = Error> {
    type Error = Error;

    open spec fn encoded(item: &Bytes) -> Seq<u8> {
        prefixed::<L>(contents(item))
    }

    open spec fn outcome(item: &Bytes) -> Result<(), Error> {
        L::outcome(&(contents(item).len() as usize))
    }

    open spec fn encoded_size(item: &Bytes) -> nat {
        prefixed_size::<L>(contents(item).len())
    }

    fn encode(item: &Bytes, buf: &mut BytesMut) -> (r: Result<(), Error>) {
        encode_blob::<L>(<Bytes as AsRef<[u8]>>::as_ref(item), buf)
    }

    fn size_of(item: &Bytes) -> (n: usize) {
        blob_size::<L>(item.len())
    }
}

impl<L> Encoder<BytesMut> for LengthPrefixed<L> where L: Encoder<usize, Error = Error> {
    type Error = Error;

    open spec fn encoded(item: &BytesMut) -> Seq<u8> {
        prefixed::<L>(mut_contents(item))
    }

    open spec fn outcome(item: &BytesMut) -> Result<(), Error> {
        L::outcome(&(mut_contents(item).len() as usize))
    }

    open spec fn encoded_size(item: &BytesMut) -> nat {
        prefixed_size::<L>(mut_contents(item).len())
    }

    fn encode(item: &BytesMut, buf: &mut BytesMut) -> (r: Result<(), Error>) {
        encode_blob::<L>(<BytesMut as Buf>::chunk(item), buf)
    }

    fn size_of(item: &BytesMut) -> (n: usize) {
        blob_size::<L>(item.len())
    }
}

} // verus!
