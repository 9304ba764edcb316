//! A run of bytes that shares its storage, with a length policy.

use crate::codec::endian::{be_bytes, be_value, fits, lemma_be_bytes_zero, lemma_pow256_positive};
use crate::codec::length_prefixed::{
    blob_size, encode_blob, lemma_prefix_fidelity, prefixed, prefixed_size,
};
use crate::codec::number::WireInt;
use crate::cursor::{contents, mut_contents};
use crate::decode::Decoder;
use crate::encode::Encoder;
use crate::error::{bytes_needed, Error};
use crate::model::Modeled;
use crate::util::buf::BufExt;
use crate::util::remaining::Remaining;
use bytes::{Buf, Bytes, BytesMut};
use core::marker::PhantomData;
use vstd::prelude::*;
use vstd::std_specs::convert::FromSpecImpl;

verus! {

/// A [`Buffer`] without a length before it.
pub type UnprefixedBuffer = Buffer<Remaining>;

/// A run of consecutive bytes, cut from a cursor without copying them.
///
/// `L` says how the length goes over the wire: a numeric type for a length
/// of that type before the bytes, `Remaining` for none. The length is never
/// stored: encoding writes the number of bytes that are there.
#[derive(Debug)]
pub struct Buffer<L> {
    inner: Bytes,
    _marker: PhantomData<L>,
}

impl<L> View for Buffer<L> {
    type V = Seq<u8>;

    closed spec fn view(&self) -> Seq<u8> {
        contents(&self.inner)
    }
}

impl<L> Modeled for Buffer<L> {
    type Model = Seq<u8>;

    open spec fn model(&self) -> Seq<u8> {
        self@
    }
}

/// What follows a length of `len` in `rest`: the next `len` bytes, or the
/// error that counts how many are missing.
pub open spec fn taken(rest: Seq<u8>, len: usize) -> Result<Seq<u8>, Error> {
    if rest.len() < len {
        Err(bytes_needed(len as nat, rest.len()))
    } else {
        Ok(rest.subrange(0, len as int))
    }
}

/// The number of bytes that taking `len` bytes from `rest` removes: all of
/// them or none.
pub open spec fn taken_len(rest: Seq<u8>, len: usize) -> nat {
    if rest.len() < len {
        0
    } else {
        len as nat
    }
}

impl<L> Buffer<L> {
    /// The container over `bytes`.
    pub closed spec fn wrap(bytes: Bytes) -> Self {
        Buffer { inner: bytes, _marker: PhantomData }
    }

    /// The bytes under the container.
    pub closed spec fn inner(self) -> Bytes {
        self.inner
    }

    /// Wraps `bytes`.
    pub fn new(bytes: Bytes) -> (buffer: Self)
        ensures
            buffer == Self::wrap(bytes),
            buffer@ == contents(&bytes),
    {
        Self { inner: bytes, _marker: PhantomData }
    }

    /// Wraps a static slice, which is not copied.
    pub fn from_static(bytes: &'static [u8]) -> (buffer: Self)
        ensures
            buffer@ == bytes@,
    {
        Self::new(Bytes::from_static(bytes))
    }

    /// Gives the bytes back.
    pub fn into_inner(self) -> (bytes: Bytes)
        ensures
            bytes == self.inner(),
            contents(&bytes) == self@,
    {
        self.inner
    }

    /// The bytes, as a slice.
    pub fn as_slice(&self) -> (slice: &[u8])
        ensures
            slice@ == self@,
    {
        <Bytes as AsRef<[u8]>>::as_ref(&self.inner)
    }

    /// The number of bytes.
    pub fn len(&self) -> (n: usize)
        ensures
            n == self@.len(),
    {
        self.inner.len()
    }

    /// Cuts the first `len` bytes off `buf`, which stays as it is where it
    /// holds fewer.
    pub fn take_n_bytes(buf: &mut BytesMut, len: usize) -> (r: Result<Self, Error>)
        ensures
            match r {
                Ok(buffer) => taken(mut_contents(old(buf)), len) == Ok::<Seq<u8>, Error>(buffer@),
                Err(e) => taken(mut_contents(old(buf)), len) == Err::<Seq<u8>, Error>(e),
            },
            mut_contents(final(buf)) == mut_contents(old(buf)).skip(
                taken_len(mut_contents(old(buf)), len) as int,
            ),
    {
        buf.require_n(len)?;
        Ok(Self::new(buf.copy_to_bytes(len)))
    }
}

impl<L> Clone for Buffer<L> {
    fn clone(&self) -> (copy: Self)
        ensures
            copy@ == self@,
    {
        Self { inner: self.inner.clone(), _marker: PhantomData }
    }
}

impl<L> core::ops::Deref for Buffer<L> {
    type Target = Bytes;

    fn deref(&self) -> (bytes: &Bytes)
        ensures
            contents(bytes) == self@,
    {
        &self.inner
    }
}

impl<L> AsRef<[u8]> for Buffer<L> {
    fn as_ref(&self) -> (slice: &[u8])
        ensures
            slice@ == self@,
    {
        self.as_slice()
    }
}

impl<L> From<Bytes> for Buffer<L> {
    fn from(value: Bytes) -> (buffer: Self) {
        Self::new(value)
    }
}

impl<L> FromSpecImpl<Bytes> for Buffer<L> {
    open spec fn obeys_from_spec() -> bool {
        true
    }

    open spec fn from_spec(value: Bytes) -> Self {
        Self::wrap(value)
    }
}

impl<L> From<Buffer<L>> for Bytes {
    fn from(value: Buffer<L>) -> (bytes: Bytes) {
        value.into_inner()
    }
}

impl<L> FromSpecImpl<Buffer<L>> for Bytes {
    open spec fn obeys_from_spec() -> bool {
        true
    }

    open spec fn from_spec(value: Buffer<L>) -> Bytes {
        value.inner()
    }
}

impl<L> Default for Buffer<L> {
    fn default() -> (buffer: Self)
        ensures
            buffer@ == Seq::<u8>::empty(),
    {
        Self::new(Bytes::new())
    }
}

/// Round trip of a container: one whose length the type `L` has a value for
/// is written as its length and its bytes; decoding gives the bytes back
/// and leaves what follows them in the cursor.
pub proof fn lemma_buffer_round_trip<L: WireInt>(payload: Seq<u8>, trailing: Seq<u8>)
    requires
        payload.len() <= usize::MAX,
        fits(payload.len() as int, L::width(), L::signed()),
    ensures
        <Buffer<L> as Decoder>::decoded(prefixed::<L>(payload) + trailing) == Ok::<Seq<u8>, Error>(
            payload,
        ),
        <Buffer<L> as Decoder>::consumed(prefixed::<L>(payload) + trailing) == L::width()
            + payload.len(),
        (prefixed::<L>(payload) + trailing).skip(
            <Buffer<L> as Decoder>::consumed(prefixed::<L>(payload) + trailing) as int,
        ) == trailing,
{
    let len = payload.len() as usize;
    let wire = prefixed::<L>(payload) + trailing;
    lemma_prefix_fidelity::<L>(payload, trailing);
    assert(wire.skip(L::width() as int) =~= payload + trailing);
    assert((payload + trailing).subrange(0, len as int) =~= payload);
}

/// Zero length means absent: bytes that begin with a length of zero decode
/// to no container at all, and only the length leaves the cursor. No
/// container is written as a length of zero, every byte of it zero, with
/// nothing after it.
pub proof fn lemma_zero_is_absent<L: WireInt>(input: Seq<u8>)
    requires
        input.len() >= L::width(),
        be_value(input.subrange(0, L::width() as int)) == 0,
    ensures
        <Option<Buffer<L>> as Decoder>::decoded(input) == Ok::<Option<Seq<u8>>, Error>(None),
        <Option<Buffer<L>> as Decoder>::consumed(input) == L::width(),
        <Option<Buffer<L>> as Encoder>::outcome(&None) is Ok,
        <Option<Buffer<L>> as Encoder>::encoded(&None) == be_bytes(0, L::width()),
        <Option<Buffer<L>> as Encoder>::encoded(&None).len() == L::width(),
        <Option<Buffer<L>> as Encoder>::encoded_size(&None) == L::width(),
        forall|i: int|
            0 <= i < L::width() ==> (#[trigger] <Option<Buffer<L>> as Encoder>::encoded(&None)[i])
                == 0,
{
    lemma_pow256_positive(L::width());
    lemma_be_bytes_zero(L::width());
}

impl<L> Decoder for Buffer<L> where L: Decoder<usize, Error = Error> {
    type Error = Error;

    open spec fn decoded(input: Seq<u8>) -> Result<Seq<u8>, Error> {
        match L::decoded(input) {
            Err(e) => Err(e),
            Ok(len) => taken(input.skip(L::consumed(input) as int), len),
        }
    }

    open spec fn consumed(input: Seq<u8>) -> nat {
        match L::decoded(input) {
            Err(_) => L::consumed(input),
            Ok(len) => L::consumed(input) + taken_len(input.skip(L::consumed(input) as int), len),
        }
    }

    open spec fn enough(input: Seq<u8>) -> bool {
        true
    }

    fn decode(buf: &mut BytesMut) -> (r: Result<Self, Error>) {
        let len = L::decode(buf)?;
        Self::take_n_bytes(buf, len)
    }

    fn has_enough_bytes(buf: &BytesMut) -> (b: bool) {
        true
    }
}

impl<L> Decoder for Option<Buffer<L>> where L: Decoder<usize, Error = Error> {
    type Error = Error;

    open spec fn decoded(input: Seq<u8>) -> Result<Option<Seq<u8>>, Error> {
        match L::decoded(input) {
            Err(e) => Err(e),
            Ok(len) => if len == 0 {
                Ok(None)
            } else {
                match taken(input.skip(L::consumed(input) as int), len) {
                    Ok(bytes) => Ok(Some(bytes)),
                    Err(e) => Err(e),
                }
            },
        }
    }

    open spec fn consumed(input: Seq<u8>) -> nat {
        <Buffer<L> as Decoder>::consumed(input)
    }

    open spec fn enough(input: Seq<u8>) -> bool {
        true
    }

    fn decode(buf: &mut BytesMut) -> (r: Result<Self, Error>) {
        let len = L::decode(buf)?;
        if len == 0 {
            return Ok(None);
        }
        match Buffer::<L>::take_n_bytes(buf, len) {
            Ok(buffer) => Ok(Some(buffer)),
            Err(e) => Err(e),
        }
    }

    fn has_enough_bytes(buf: &BytesMut) -> (b: bool) {
        true
    }
}

impl<L> Encoder for Buffer<L> where L: Encoder<usize, Error = Error> {
    type Error = Error;

    open spec fn encoded(item: &Self) -> Seq<u8> {
        prefixed::<L>(item@)
    }

    open spec fn outcome(item: &Self) -> Result<(), Error> {
        L::outcome(&(item@.len() as usize))
    }

    open spec fn encoded_size(item: &Self) -> nat {
        prefixed_size::<L>(item@.len())
    }

    fn encode(item: &Self, buf: &mut BytesMut) -> (r: Result<(), Error>) {
        encode_blob::<L>(item.as_slice(), buf)
    }

    fn size_of(item: &Self) -> (n: usize) {
        blob_size::<L>(item.len())
    }
}

impl<L> Encoder for Option<Buffer<L>> where L: Encoder<usize, Error = Error> {
    type Error = Error;

    open spec fn encoded(item: &Self) -> Seq<u8> {
        match item {
            Some(buffer) => prefixed::<L>(buffer@),
            None => L::encoded(&0usize),
        }
    }

    open spec fn outcome(item: &Self) -> Result<(), Error> {
        match item {
            Some(buffer) => L::outcome(&(buffer@.len() as usize)),
            None => L::outcome(&0usize),
        }
    }

    open spec fn encoded_size(item: &Self) -> nat {
        match item {
            Some(buffer) => prefixed_size::<L>(buffer@.len()),
            None => L::encoded_size(&0usize),
        }
    }

    fn encode(item: &Self, buf: &mut BytesMut) -> (r: Result<(), Error>) {
        match item {
            Some(buffer) => <Buffer<L> as Encoder>::encode(buffer, buf),
            None => L::encode(&0, buf),
        }
    }

    fn size_of(item: &Self) -> (n: usize) {
        match item {
            Some(buffer) => <Buffer<L> as Encoder>::size_of(buffer),
            None => L::size_of(&0),
        }
    }
}

} // verus!
