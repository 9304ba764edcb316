//! Text over byte containers.
//!
//! A text is a [`Buffer`] whose bytes were checked once, when it was made,
//! to be of the encoding that its type names; reading it as a string rests
//! on that check.

use crate::codec::buffer::{lemma_buffer_round_trip, Buffer};
use crate::codec::endian::fits;
use crate::codec::length_prefixed::{prefixed, prefixed_size};
use crate::codec::number::WireInt;
use crate::decode::Decoder;
use crate::encode::Encoder;
use crate::error::Error;
use crate::model::Modeled;
use crate::util::remaining::Remaining;
use bytes::BytesMut;
use core::str::Utf8Error;
use vstd::prelude::*;
use vstd::string::StringSliceAdditionalSpecFns;
use vstd::utf8::{
    encode_utf8_decode_utf8, encode_utf8_valid_utf8, is_leading_byte_width_1,
    partial_valid_utf8_extend_ascii_block, valid_utf8,
};

verus! {

/// `core::str::Utf8Error`, taken as a whole and carried through as it comes
/// from the validator.
#[verifier::external_type_specification]
#[verifier::external_body]
pub struct ExUtf8Error(core::str::Utf8Error);

/// Why a blob is not the text it was declared to be.
#[derive(Debug)]
pub enum TextError {
    /// The bytes are not well-formed UTF-8; the validator's own account of
    /// where and why is kept.
    Utf8(Utf8Error),
    /// A byte lies outside ASCII.
    Ascii(&'static str),
}

/// The account that the standard library's validator gives of bytes that
/// are not well-formed UTF-8.
pub uninterp spec fn utf8_diagnostic(bytes: Seq<u8>) -> Utf8Error;

/// `core::str::from_utf8`: the bytes as a string slice where they are
/// well-formed UTF-8, and the validator's account of them where they are
/// not.
pub assume_specification<'a>[ core::str::from_utf8 ](v: &'a [u8]) -> (r: Result<&'a str, Utf8Error>)
    ensures
        r is Ok <==> valid_utf8(v@),
        r matches Ok(s) ==> s.spec_bytes() == v@,
        r matches Err(e) ==> e == utf8_diagnostic(v@),
;

/// Whether every byte is an ASCII character.
pub open spec fn is_ascii_bytes(bytes: Seq<u8>) -> bool {
    forall|i: int| 0 <= i < bytes.len() ==> bytes[i] < 0x80
}

/// The error for a byte outside ASCII.
pub open spec fn ascii_error() -> Error {
    Error::Text(TextError::Ascii("invalid ascii data"))
}

/// The error for bytes that are not well-formed UTF-8.
pub open spec fn utf8_error(bytes: Seq<u8>) -> Error {
    Error::Text(TextError::Utf8(utf8_diagnostic(bytes)))
}

/// What checking `bytes` for ASCII gives.
pub open spec fn checked_ascii(bytes: Seq<u8>) -> Result<Seq<u8>, Error> {
    if is_ascii_bytes(bytes) {
        Ok(bytes)
    } else {
        Err(ascii_error())
    }
}

/// What checking `bytes` for UTF-8 gives.
pub open spec fn checked_utf8(bytes: Seq<u8>) -> Result<Seq<u8>, Error> {
    if valid_utf8(bytes) {
        Ok(bytes)
    } else {
        Err(utf8_error(bytes))
    }
}

/// ASCII text is well-formed UTF-8.
pub proof fn lemma_ascii_is_utf8(bytes: Seq<u8>)
    requires
        is_ascii_bytes(bytes),
    ensures
        valid_utf8(bytes),
{
    assert forall|i: int| 0 <= i < bytes.len() implies #[trigger] is_leading_byte_width_1(
        bytes[i],
    ) by {}
    partial_valid_utf8_extend_ascii_block(bytes, 0, bytes.len() as int);
    assert(bytes.subrange(0, bytes.len() as int) =~= bytes);
}

/// Whether every byte of `bytes` is an ASCII character.
pub fn all_ascii(bytes: &[u8]) -> (b: bool)
    ensures
        b == is_ascii_bytes(bytes@),
{
    let mut i: usize = 0;
    while i < bytes.len()
        invariant
            i <= bytes@.len(),
            forall|j: int| 0 <= j < i ==> bytes@[j] < 0x80,
        decreases bytes@.len() - i,
    {
        if bytes[i] >= 0x80 {
            return false;
        }
        i += 1;
    }
    true
}

/// The string that bytes known to be well-formed UTF-8 spell.
fn utf8_str(bytes: &[u8]) -> (s: &str)
    requires
        valid_utf8(bytes@),
    ensures
        s.spec_bytes() == bytes@,
{
    match core::str::from_utf8(bytes) {
        Ok(s) => s,
        Err(_) => "",
    }
}

/// A text encoded as ASCII.
#[derive(Debug)]
pub struct Ascii<L = Remaining>(Buffer<L>);

/// A text encoded as UTF-8.
#[derive(Debug)]
pub struct Utf8<L = Remaining>(Buffer<L>);

impl<L> View for Ascii<L> {
    type V = Seq<u8>;

    closed spec fn view(&self) -> Seq<u8> {
        self.0@
    }
}

impl<L> View for Utf8<L> {
    type V = Seq<u8>;

    closed spec fn view(&self) -> Seq<u8> {
        self.0@
    }
}

impl<L> Modeled for Ascii<L> {
    type Model = Seq<u8>;

    open spec fn model(&self) -> Seq<u8> {
        self@
    }
}

impl<L> Modeled for Utf8<L> {
    type Model = Seq<u8>;

    open spec fn model(&self) -> Seq<u8> {
        self@
    }
}

impl<L> Ascii<L> {
    #[verifier::type_invariant]
    spec fn checked(&self) -> bool {
        is_ascii_bytes(self.0@)
    }

    /// The text over `buffer`, if all its bytes are ASCII.
    pub fn new(buffer: Buffer<L>) -> (r: Result<Self, Error>)
        ensures
            modeled_text(r) == checked_ascii(buffer@),
    {
        if !all_ascii(buffer.as_slice()) {
            return Err(Error::Text(TextError::Ascii("invalid ascii data")));
        }
        Ok(Ascii(buffer))
    }

    /// The text of a static string, if all of it is ASCII.
    pub fn from_static(value: &'static str) -> (r: Result<Self, Error>)
        ensures
            modeled_text(r) == checked_ascii(value.spec_bytes()),
    {
        Self::new(Buffer::from_static(value.as_bytes()))
    }

    /// The bytes of the text.
    pub fn as_bytes(&self) -> (bytes: &[u8])
        ensures
            bytes@ == self@,
            is_ascii_bytes(self@),
    {
        proof {
            use_type_invariant(self);
        }
        self.0.as_slice()
    }

    /// The text as a string.
    pub fn as_str(&self) -> (s: &str)
        ensures
            s.spec_bytes() == self@,
            is_ascii_bytes(self@),
    {
        proof {
            use_type_invariant(self);
            lemma_ascii_is_utf8(self.0@);
        }
        utf8_str(self.0.as_slice())
    }

    /// The container under the text.
    pub fn into_inner(self) -> (buffer: Buffer<L>)
        ensures
            buffer@ == self@,
    {
        self.0
    }
}

impl<L> Utf8<L> {
    #[verifier::type_invariant]
    spec fn checked(&self) -> bool {
        valid_utf8(self.0@)
    }

    /// The text over `buffer`, if its bytes are well-formed UTF-8.
    pub fn new(buffer: Buffer<L>) -> (r: Result<Self, Error>)
        ensures
            modeled_text(r) == checked_utf8(buffer@),
    {
        match core::str::from_utf8(buffer.as_slice()) {
            Ok(_) => Ok(Utf8(buffer)),
            Err(e) => Err(Error::Text(TextError::Utf8(e))),
        }
    }

    /// The text of a static string.
    pub fn from_static(value: &'static str) -> (text: Self)
        ensures
            text@ == value.spec_bytes(),
    {
        proof {
            encode_utf8_valid_utf8(value@);
        }
        Utf8(Buffer::from_static(value.as_bytes()))
    }

    /// The bytes of the text.
    pub fn as_bytes(&self) -> (bytes: &[u8])
        ensures
            bytes@ == self@,
            valid_utf8(self@),
    {
        proof {
            use_type_invariant(self);
        }
        self.0.as_slice()
    }

    /// The text as a string.
    pub fn as_str(&self) -> (s: &str)
        ensures
            s.spec_bytes() == self@,
    {
        proof {
            use_type_invariant(self);
        }
        utf8_str(self.0.as_slice())
    }

    /// The container under the text.
    pub fn into_inner(self) -> (buffer: Buffer<L>)
        ensures
            buffer@ == self@,
    {
        self.0
    }
}

impl<L> Clone for Ascii<L> {
    fn clone(&self) -> (copy: Self)
        ensures
            copy@ == self@,
    {
        proof {
            use_type_invariant(self);
        }
        Ascii(self.0.clone())
    }
}

impl<L> Clone for Utf8<L> {
    fn clone(&self) -> (copy: Self)
        ensures
            copy@ == self@,
    {
        proof {
            use_type_invariant(self);
        }
        Utf8(self.0.clone())
    }
}

impl<L> Default for Ascii<L> {
    fn default() -> (text: Self)
        ensures
            text@ == Seq::<u8>::empty(),
    {
        Ascii(Buffer::default())
    }
}

impl<L> Default for Utf8<L> {
    fn default() -> (text: Self)
        ensures
            text@ == Seq::<u8>::empty(),
    {
        Utf8(Buffer::default())
    }
}

/// The model of the result of making a text: its bytes, or the error.
pub open spec fn modeled_text<T: View<V = Seq<u8>>>(r: Result<T, Error>) -> Result<Seq<u8>, Error> {
    match r {
        Ok(text) => Ok(text@),
        Err(e) => Err(e),
    }
}

impl<L> Decoder for Ascii<L> where L: Decoder<usize, Error = Error> {
    type Error = Error;

    open spec fn decoded(input: Seq<u8>) -> Result<Seq<u8>, Error> {
        match <Buffer<L> as Decoder>::decoded(input) {
            Ok(bytes) => checked_ascii(bytes),
            Err(e) => Err(e),
        }
    }

    open spec fn consumed(input: Seq<u8>) -> nat {
        <Buffer<L> as Decoder>::consumed(input)
    }

    open spec fn enough(input: Seq<u8>) -> bool {
        true
    }

    fn decode(buf: &mut BytesMut) -> (r: Result<Self, Error>) {
        let inner = <Buffer<L> as Decoder>::decode(buf)?;
        Ascii::new(inner)
    }

    fn has_enough_bytes(buf: &BytesMut) -> (b: bool) {
        true
    }
}

impl<L> Decoder for Utf8<L> where L: Decoder<usize, Error = Error> {
    type Error = Error;

    open spec fn decoded(input: Seq<u8>) -> Result<Seq<u8>, Error> {
        match <Buffer<L> as Decoder>::decoded(input) {
            Ok(bytes) => checked_utf8(bytes),
            Err(e) => Err(e),
        }
    }

    open spec fn consumed(input: Seq<u8>) -> nat {
        <Buffer<L> as Decoder>::consumed(input)
    }

    open spec fn enough(input: Seq<u8>) -> bool {
        true
    }

    fn decode(buf: &mut BytesMut) -> (r: Result<Self, Error>) {
        let inner = <Buffer<L> as Decoder>::decode(buf)?;
        Utf8::new(inner)
    }

    fn has_enough_bytes(buf: &BytesMut) -> (b: bool) {
        true
    }
}

/// Text validation: bytes that are not well-formed UTF-8 give the UTF-8
/// error, with the validator's account of them, and no text; bytes that are
/// well-formed give the text that holds exactly them. Either way the
/// container's bytes have left the cursor.
pub proof fn lemma_utf8_validation<L: Decoder<usize, Error = Error>>(input: Seq<u8>)
    ensures
        match <Buffer<L> as Decoder>::decoded(input) {
            Ok(bytes) => if valid_utf8(bytes) {
                <Utf8<L> as Decoder>::decoded(input) == Ok::<Seq<u8>, Error>(bytes)
            } else {
                <Utf8<L> as Decoder>::decoded(input) == Err::<Seq<u8>, Error>(
                    Error::Text(TextError::Utf8(utf8_diagnostic(bytes))),
                )
            },
            Err(e) => <Utf8<L> as Decoder>::decoded(input) == Err::<Seq<u8>, Error>(e),
        },
        <Utf8<L> as Decoder>::consumed(input) == <Buffer<L> as Decoder>::consumed(input),
{
}

/// Text validation without a length: the whole cursor is the text, if it
/// is well-formed UTF-8, and leaves the cursor either way.
pub proof fn lemma_utf8_unprefixed(input: Seq<u8>)
    requires
        input.len() <= usize::MAX,
    ensures
        <Utf8<Remaining> as Decoder>::decoded(input) == checked_utf8(input),
        <Utf8<Remaining> as Decoder>::consumed(input) == input.len(),
{
    assert(input.subrange(0, input.len() as int) =~= input);
}

/// ASCII validation: a container with a byte outside ASCII gives the ASCII
/// error and no text; any other gives the text that holds exactly its
/// bytes.
pub proof fn lemma_ascii_validation<L: Decoder<usize, Error = Error>>(input: Seq<u8>)
    ensures
        match <Buffer<L> as Decoder>::decoded(input) {
            Ok(bytes) => if is_ascii_bytes(bytes) {
                <Ascii<L> as Decoder>::decoded(input) == Ok::<Seq<u8>, Error>(bytes)
            } else {
                <Ascii<L> as Decoder>::decoded(input) == Err::<Seq<u8>, Error>(
                    Error::Text(TextError::Ascii("invalid ascii data")),
                )
            },
            Err(e) => <Ascii<L> as Decoder>::decoded(input) == Err::<Seq<u8>, Error>(e),
        },
        <Ascii<L> as Decoder>::consumed(input) == <Buffer<L> as Decoder>::consumed(input),
{
}

/// Round trip of a text: well-formed UTF-8 whose length the type `L` has a
/// value for is written as its length and its bytes, and decoding gives
/// the text of exactly those bytes and leaves what follows in the cursor.
pub proof fn lemma_utf8_round_trip<L: WireInt>(payload: Seq<u8>, trailing: Seq<u8>)
    requires
        valid_utf8(payload),
        payload.len() <= usize::MAX,
        fits(payload.len() as int, L::width(), L::signed()),
    ensures
        <Utf8<L> as Decoder>::decoded(prefixed::<L>(payload) + trailing) == Ok::<Seq<u8>, Error>(
            payload,
        ),
        (prefixed::<L>(payload) + trailing).skip(
            <Utf8<L> as Decoder>::consumed(prefixed::<L>(payload) + trailing) as int,
        ) == trailing,
{
    lemma_buffer_round_trip::<L>(payload, trailing);
}

/// Two strings with the same bytes are the same string: what is read from
/// a text decoded from the bytes of a string is that string.
pub proof fn lemma_same_bytes_same_string(a: &str, b: &str)
    requires
        a.spec_bytes() == b.spec_bytes(),
    ensures
        a@ == b@,
{
    encode_utf8_decode_utf8(a@);
    encode_utf8_decode_utf8(b@);
}

impl<L> Encoder for Ascii<L> where L: Encoder<usize, Error = Error> {
    type Error = Error;

    open spec fn encoded(item: &Self) -> Seq<u8> {
        prefixed::<L>(item@)
    }

    open spec fn outcome(item: &Self) -> Result<(), Error> {
        L::outcome(&(item@.len() as usize))
    }

    open spec fn encoded_size(item: &Self) -> nat {
        prefixed_size::<L>(item@.len())
    }

    fn encode(item: &Self, buf: &mut BytesMut) -> (r: Result<(), Error>) {
        <Buffer<L> as Encoder>::encode(&item.0, buf)
    }

    fn size_of(item: &Self) -> (n: usize) {
        <Buffer<L> as Encoder>::size_of(&item.0)
    }
}

impl<L> Encoder for Utf8<L> where L: Encoder<usize, Error = Error> {
    type Error = Error;

    open spec fn encoded(item: &Self) -> Seq<u8> {
        prefixed::<L>(item@)
    }

    open spec fn outcome(item: &Self) -> Result<(), Error> {
        L::outcome(&(item@.len() as usize))
    }

    open spec fn encoded_size(item: &Self) -> nat {
        prefixed_size::<L>(item@.len())
    }

    fn encode(item: &Self, buf: &mut BytesMut) -> (r: Result<(), Error>) {
        <Buffer<L> as Encoder>::encode(&item.0, buf)
    }

    fn size_of(item: &Self) -> (n: usize) {
        <Buffer<L> as Encoder>::size_of(&item.0)
    }
}

impl<L> core::ops::Deref for Ascii<L> {
    type Target = str;

    fn deref(&self) -> (s: &str)
        ensures
            s.spec_bytes() == self@,
    {
        self.as_str()
    }
}

impl<L> core::ops::Deref for Utf8<L> {
    type Target = str;

    fn deref(&self) -> (s: &str)
        ensures
            s.spec_bytes() == self@,
    {
        self.as_str()
    }
}

} // verus!
