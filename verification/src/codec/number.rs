//! Integers on the wire, and integers as the length of what follows them.

use crate::codec::endian::{
    be_bytes, be_value, fits, int_of_raw, lemma_be_bytes_len, lemma_be_bytes_of_value,
    lemma_be_value_bound, lemma_be_value_of_bytes, lemma_pow256_values, max_raw, pow256,
    raw_of_int, read_be, write_be,
};
use crate::cursor::mut_contents;
use crate::decode::{Decoder, RawDecoder};
use crate::encode::Encoder;
use crate::error::{bytes_needed, int_conversion, Error};
use crate::model::Modeled;
use bytes::{Buf, BytesMut};
use core::convert::Infallible;
use vstd::prelude::*;
use vstd::std_specs::convert::FromSpecImpl;

verus! {

/// The error of a number that does not fit the width it is converted to.
#[derive(Debug, Copy, Clone, PartialEq, Eq)]
pub struct TryFromIntError(pub ());

impl From<core::num::TryFromIntError> for TryFromIntError {
    fn from(e: core::num::TryFromIntError) -> (r: TryFromIntError) {
        TryFromIntError(())
    }
}

impl FromSpecImpl<core::num::TryFromIntError> for TryFromIntError {
    open spec fn obeys_from_spec() -> bool {
        true
    }

    open spec fn from_spec(e: core::num::TryFromIntError) -> TryFromIntError {
        TryFromIntError(())
    }
}

impl From<Infallible> for TryFromIntError {
    fn from(e: Infallible) -> (r: TryFromIntError) {
        TryFromIntError(())
    }
}

impl FromSpecImpl<Infallible> for TryFromIntError {
    open spec fn obeys_from_spec() -> bool {
        true
    }

    open spec fn from_spec(e: Infallible) -> TryFromIntError {
        TryFromIntError(())
    }
}

impl TryFromIntError {
    /// What went wrong, in words.
    pub fn message(&self) -> (s: &'static str)
        ensures
            s == "integer overflow",
    {
        "integer overflow"
    }
}

/// An integer with a fixed number of bytes on the wire.
///
/// An implementation says how wide the type is, whether it is signed, which
/// number a value stands for, and how a value turns into the bit pattern
/// that goes over the wire and back. The codecs are built on that once, for
/// every such type.
pub trait WireInt: Copy + Sized {
    /// The number of bytes a value takes on the wire.
    spec fn width() -> nat;

    /// Whether the type holds negative numbers.
    spec fn signed() -> bool;

    /// The number that a value stands for.
    spec fn value(self) -> int;

    /// The value that stands for `v`.
    spec fn of_value(v: int) -> Self;

    /// Whether a value is one that the type means to hold.
    spec fn wf(self) -> bool;

    proof fn lemma_width()
        ensures
            1 <= Self::width() <= 16,
    ;

    /// A well-formed value stands for a number that fits the width, and is
    /// the only one that does.
    proof fn lemma_value(x: Self)
        requires
            x.wf(),
        ensures
            fits(x.value(), Self::width(), Self::signed()),
            Self::of_value(x.value()) == x,
    ;

    /// Every number that fits the width has a well-formed value.
    proof fn lemma_of_value(v: int)
        requires
            fits(v, Self::width(), Self::signed()),
        ensures
            Self::of_value(v).wf(),
            Self::of_value(v).value() == v,
    ;

    /// The number of bytes a value takes on the wire.
    fn byte_width() -> (w: usize)
        ensures
            w == Self::width(),
    ;

    /// Whether the type holds negative numbers.
    fn is_signed() -> (s: bool)
        ensures
            s == Self::signed(),
    ;

    /// The bit pattern of a value.
    fn to_raw(&self) -> (raw: u128)
        ensures
            self.wf(),
            raw == raw_of_int(self.value(), Self::width()),
    ;

    /// The value with the given bit pattern.
    fn from_raw(raw: u128) -> (x: Self)
        requires
            raw < pow256(Self::width()),
        ensures
            x == Self::of_value(int_of_raw(raw as nat, Self::width(), Self::signed())),
    ;
}

/// The value that `bytes` spell, where there are as many as the type is
/// wide.
pub open spec fn wire_value<T: WireInt>(bytes: Seq<u8>) -> T {
    T::of_value(int_of_raw(be_value(bytes), T::width(), T::signed()))
}

/// The bytes that spell `x`.
pub open spec fn wire_bytes<T: WireInt>(x: T) -> Seq<u8> {
    be_bytes(raw_of_int(x.value(), T::width()), T::width())
}

/// What reading a `T` from the front of `input` gives: the value that the
/// first bytes spell and the width of the type, or the error that counts
/// the bytes that are missing.
pub open spec fn int_decoded<T: WireInt>(input: Seq<u8>) -> Result<(T, usize), Error> {
    if input.len() < T::width() {
        Err(bytes_needed(T::width(), input.len()))
    } else {
        Ok((wire_value::<T>(input.subrange(0, T::width() as int)), T::width() as usize))
    }
}

/// What reading a length in the type `T` from the front of `input` gives:
/// as `int_decoded`, and the conversion error where the number read is no
/// length.
pub open spec fn len_decoded<T: WireInt>(input: Seq<u8>) -> Result<(usize, usize), Error> {
    if input.len() < T::width() {
        Err(bytes_needed(T::width(), input.len()))
    } else {
        match wire_len::<T>(input.subrange(0, T::width() as int)) {
            Ok(len) => Ok((len, T::width() as usize)),
            Err(e) => Err(e),
        }
    }
}

/// The number of bytes that reading a `T` takes off a cursor that holds
/// `input`: the width of the type, or nothing where there are too few.
pub open spec fn int_consumed<T: WireInt>(input: Seq<u8>) -> nat {
    if input.len() < T::width() {
        0
    } else {
        T::width()
    }
}

/// The bytes that writing the length `n` in the type `T` appends: none
/// where `T` has no value for `n`.
pub open spec fn len_bytes<T: WireInt>(n: usize) -> Seq<u8> {
    if fits(n as int, T::width(), T::signed()) {
        be_bytes(n as nat, T::width())
    } else {
        Seq::empty()
    }
}

/// How writing the length `n` in the type `T` ends.
pub open spec fn len_outcome<T: WireInt>(n: usize) -> Result<(), Error> {
    if fits(n as int, T::width(), T::signed()) {
        Ok(())
    } else {
        Err(int_conversion())
    }
}

/// A result without the count of bytes that came with it.
pub open spec fn value_of<A, E>(r: Result<(A, usize), E>) -> Result<A, E> {
    match r {
        Ok((value, _)) => Ok(value),
        Err(e) => Err(e),
    }
}

/// The length that a decoded number stands for, if it is one.
pub open spec fn as_len(v: int) -> Result<usize, Error> {
    if 0 <= v <= usize::MAX {
        Ok(v as usize)
    } else {
        Err(int_conversion())
    }
}

impl<T: WireInt> Modeled for T {
    type Model = T;

    open spec fn model(&self) -> T {
        *self
    }
}

impl<T: WireInt> RawDecoder for T {
    type Error = Error;

    open spec fn raw_decoded(input: Seq<u8>) -> Result<(T, usize), Error> {
        int_decoded::<T>(input)
    }

    fn raw_decode(buf: &[u8]) -> (r: Result<(T, usize), Error>) {
        let full_len = T::byte_width();
        proof {
            T::lemma_width();
        }
        if buf.len() < full_len {
            return Err(
                Error::BytesNeeded {
                    needed: full_len - buf.len(),
                    full_len,
                    available: buf.len(),
                },
            );
        }
        let raw = read_be(buf, full_len);
        Ok((T::from_raw(raw), full_len))
    }
}

impl<T: WireInt> Decoder for T {
    type Error = Error;

    open spec fn decoded(input: Seq<u8>) -> Result<T, Error> {
        value_of(int_decoded::<T>(input))
    }

    open spec fn consumed(input: Seq<u8>) -> nat {
        int_consumed::<T>(input)
    }

    open spec fn enough(input: Seq<u8>) -> bool {
        input.len() >= T::width()
    }

    fn decode(buf: &mut BytesMut) -> (r: Result<T, Error>) {
        proof {
            T::lemma_width();
        }
        let (num, off) = <T as RawDecoder>::raw_decode(<BytesMut as Buf>::chunk(buf))?;
        buf.advance(off);
        Ok(num)
    }

    fn has_enough_bytes(buf: &BytesMut) -> (b: bool) {
        buf.remaining() >= T::byte_width()
    }
}

impl<T: WireInt> Encoder for T {
    type Error = Infallible;

    open spec fn encoded(item: &T) -> Seq<u8> {
        wire_bytes(*item)
    }

    open spec fn outcome(item: &T) -> Result<(), Infallible> {
        Ok(())
    }

    open spec fn encoded_size(item: &T) -> nat {
        T::width()
    }

    fn encode(item: &T, buf: &mut BytesMut) -> (r: Result<(), Infallible>) {
        proof {
            T::lemma_width();
            lemma_be_bytes_len(raw_of_int(item.value(), T::width()), T::width());
        }
        write_be(item.to_raw(), T::byte_width(), buf);
        Ok(())
    }

    fn size_of(item: &T) -> (n: usize) {
        T::byte_width()
    }
}

/// The length that the bytes of a `T` stand for, if it is one.
pub open spec fn wire_len<T: WireInt>(bytes: Seq<u8>) -> Result<usize, Error> {
    as_len(int_of_raw(be_value(bytes), T::width(), T::signed()))
}

/// The value of `T` that stands for the length `n`, if `T` has one.
pub open spec fn of_len<T: WireInt>(n: usize) -> Result<T, Error> {
    if fits(n as int, T::width(), T::signed()) {
        Ok(T::of_value(n as int))
    } else {
        Err(int_conversion())
    }
}

/// The number that `x` stands for as a length, or the conversion error if
/// it is negative or beyond `usize`.
pub fn to_len<T: WireInt>(x: &T) -> (r: Result<usize, Error>)
    ensures
        r == as_len(x.value()),
{
    let raw = x.to_raw();
    proof {
        T::lemma_width();
        T::lemma_value(*x);
    }
    if T::is_signed() && raw > max_raw(T::byte_width()) / 2 {
        return Err(Error::IntConversion(TryFromIntError(())));
    }
    match usize::try_from(raw) {
        Ok(n) => Ok(n),
        Err(e) => Err(Error::IntConversion(TryFromIntError::from(e))),
    }
}

/// The value of `T` that stands for the length `n`, or the conversion error
/// if `T` is too narrow for it.
pub fn from_len<T: WireInt>(n: usize) -> (r: Result<T, Error>)
    ensures
        r == of_len::<T>(n),
{
    proof {
        T::lemma_width();
    }
    let raw = n as u128;
    let max = max_raw(T::byte_width());
    let top = if T::is_signed() {
        max / 2
    } else {
        max
    };
    if raw > top {
        Err(Error::IntConversion(TryFromIntError(())))
    } else {
        Ok(T::from_raw(raw))
    }
}

impl<T: WireInt> RawDecoder<usize> for T {
    type Error = Error;

    open spec fn raw_decoded(input: Seq<u8>) -> Result<(usize, usize), Error> {
        len_decoded::<T>(input)
    }

    fn raw_decode(buf: &[u8]) -> (r: Result<(usize, usize), Error>) {
        proof {
            if buf@.len() >= T::width() {
                lemma_wire_value::<T>(buf@.subrange(0, T::width() as int));
            }
        }
        let (value, rx) = <T as RawDecoder>::raw_decode(buf)?;
        let len = to_len(&value)?;
        Ok((len, rx))
    }
}

impl<T: WireInt> Decoder<usize> for T {
    type Error = Error;

    open spec fn decoded(input: Seq<u8>) -> Result<usize, Error> {
        value_of(len_decoded::<T>(input))
    }

    open spec fn consumed(input: Seq<u8>) -> nat {
        int_consumed::<T>(input)
    }

    open spec fn enough(input: Seq<u8>) -> bool {
        input.len() >= T::width()
    }

    fn decode(buf: &mut BytesMut) -> (r: Result<usize, Error>) {
        proof {
            if mut_contents(buf).len() >= T::width() {
                lemma_wire_value::<T>(mut_contents(buf).subrange(0, T::width() as int));
            }
        }
        let value = <T as Decoder>::decode(buf)?;
        to_len(&value)
    }

    fn has_enough_bytes(buf: &BytesMut) -> (b: bool) {
        <T as Decoder>::has_enough_bytes(buf)
    }
}

impl<T: WireInt> Encoder<usize> for T {
    type Error = Error;

    open spec fn encoded(item: &usize) -> Seq<u8> {
        len_bytes::<T>(*item)
    }

    open spec fn outcome(item: &usize) -> Result<(), Error> {
        len_outcome::<T>(*item)
    }

    open spec fn encoded_size(item: &usize) -> nat {
        T::width()
    }

    fn encode(item: &usize, buf: &mut BytesMut) -> (r: Result<(), Error>) {
        match from_len::<T>(*item) {
            Ok(value) => {
                proof {
                    T::lemma_of_value(*item as int);
                }
                let _ = <T as Encoder>::encode(&value, buf);
                Ok(())
            },
            Err(e) => Err(e),
        }
    }

    fn size_of(item: &usize) -> (n: usize) {
        T::byte_width()
    }
}

/// As many bytes as `T` is wide spell a well-formed value, which stands for
/// the number that the bytes spell.
pub proof fn lemma_wire_value<T: WireInt>(bytes: Seq<u8>)
    requires
        bytes.len() == T::width(),
    ensures
        wire_value::<T>(bytes).wf(),
        wire_value::<T>(bytes).value() == int_of_raw(be_value(bytes), T::width(), T::signed()),
        fits(wire_value::<T>(bytes).value(), T::width(), T::signed()),
{
    lemma_be_value_bound(bytes);
    T::lemma_of_value(int_of_raw(be_value(bytes), T::width(), T::signed()));
}

/// Round trip: decoding what encoding wrote gives the value back, and
/// encoding, decoding and `size_of` agree on the number of bytes, which is
/// the width of the type. Whatever follows the value in the cursor plays no
/// part.
pub proof fn lemma_round_trip<T: WireInt>(x: T, rest: Seq<u8>)
    requires
        x.wf(),
    ensures
        <T as Encoder>::outcome(&x) is Ok,
        <T as Encoder>::encoded(&x).len() == T::width(),
        <T as Encoder>::encoded_size(&x) == T::width(),
        <T as Decoder>::decoded(<T as Encoder>::encoded(&x) + rest) == Ok::<T, Error>(x),
        <T as Decoder>::consumed(<T as Encoder>::encoded(&x) + rest) == T::width(),
        <T as RawDecoder>::raw_decoded(<T as Encoder>::encoded(&x) + rest) == Ok::<
            (T, usize),
            Error,
        >((x, T::width() as usize)),
{
    let raw = raw_of_int(x.value(), T::width());
    let bytes = wire_bytes(x);
    T::lemma_value(x);
    lemma_be_bytes_len(raw, T::width());
    lemma_be_value_of_bytes(raw, T::width());
    assert((bytes + rest).subrange(0, T::width() as int) =~= bytes);
}

/// One spelling: the bytes that a value was read from are the bytes that
/// writing it gives, so that no two runs of bytes stand for the same value.
pub proof fn lemma_canonical<T: WireInt>(input: Seq<u8>)
    requires
        input.len() >= T::width(),
    ensures
        <T as Decoder>::decoded(input) matches Ok(x) && x.wf() && <T as Encoder>::encoded(&x)
            == input.subrange(0, T::width() as int),
{
    let bytes = input.subrange(0, T::width() as int);
    lemma_wire_value::<T>(bytes);
    lemma_be_value_bound(bytes);
    lemma_be_bytes_of_value(bytes);
}

/// Round trip of a length: a length that the type has a value for is
/// written in as many bytes as the type is wide, and read back as it was.
pub proof fn lemma_len_round_trip<T: WireInt>(len: usize, rest: Seq<u8>)
    requires
        fits(len as int, T::width(), T::signed()),
    ensures
        <T as Encoder<usize>>::outcome(&len) is Ok,
        <T as Encoder<usize>>::encoded(&len) == be_bytes(len as nat, T::width()),
        <T as Encoder<usize>>::encoded(&len).len() == T::width(),
        <T as Decoder<usize>>::decoded(<T as Encoder<usize>>::encoded(&len) + rest) == Ok::<
            usize,
            Error,
        >(len),
        <T as Decoder<usize>>::consumed(<T as Encoder<usize>>::encoded(&len) + rest) == T::width(),
        <T as RawDecoder<usize>>::raw_decoded(<T as Encoder<usize>>::encoded(&len) + rest) == Ok::<
            (usize, usize),
            Error,
        >((len, T::width() as usize)),
{
    let bytes = be_bytes(len as nat, T::width());
    lemma_be_bytes_len(len as nat, T::width());
    lemma_be_value_of_bytes(len as nat, T::width());
    assert((bytes + rest).subrange(0, T::width() as int) =~= bytes);
}

/// Exact width: a value is written in exactly as many bytes as its type is
/// wide, and reading one takes exactly as many, whatever the width of the
/// native integer that holds it in memory.
pub proof fn lemma_exact_width<T: WireInt>(x: T, input: Seq<u8>)
    ensures
        <T as Encoder>::encoded(&x).len() == T::width(),
        <T as Decoder>::decoded(input) is Ok ==> <T as Decoder>::consumed(input) == T::width(),
        <T as Decoder>::decoded(input) is Err ==> <T as Decoder>::consumed(input) == 0,
        <T as RawDecoder>::raw_decoded(input) matches Ok((_, read)) ==> read == T::width(),
{
    T::lemma_width();
    lemma_be_bytes_len(raw_of_int(x.value(), T::width()), T::width());
}

/// Too few bytes: from a cursor that holds fewer bytes than the type is
/// wide, decoding fails, says how many bytes there are, how many it wants
/// and how many are missing, and takes nothing.
pub proof fn lemma_bytes_needed<T: WireInt>(input: Seq<u8>)
    requires
        input.len() < T::width(),
    ensures
        <T as Decoder>::decoded(input) == Err::<T, Error>(
            Error::BytesNeeded {
                needed: (T::width() - input.len()) as usize,
                full_len: T::width() as usize,
                available: input.len() as usize,
            },
        ),
        <T as Decoder>::consumed(input) == 0,
        !<T as Decoder>::enough(input),
        <T as RawDecoder>::raw_decoded(input) == Err::<(T, usize), Error>(
            bytes_needed(T::width(), input.len()),
        ),
        <T as Decoder<usize>>::decoded(input) == Err::<usize, Error>(
            bytes_needed(T::width(), input.len()),
        ),
        <T as Decoder<usize>>::consumed(input) == 0,
{
}

impl WireInt for i8 {
    open spec fn width() -> nat {
        1
    }

    open spec fn signed() -> bool {
        true
    }

    open spec fn value(self) -> int {
        self as int
    }

    open spec fn of_value(v: int) -> Self {
        v as i8
    }

    open spec fn wf(self) -> bool {
        true
    }

    proof fn lemma_width() {
    }

    proof fn lemma_value(x: Self) {
        lemma_pow256_values();
    }

    proof fn lemma_of_value(v: int) {
        lemma_pow256_values();
    }

    fn byte_width() -> (w: usize) {
        1
    }

    fn is_signed() -> (s: bool) {
        true
    }

    fn to_raw(&self) -> (raw: u128) {
        proof {
            lemma_pow256_values();
        }
        if *self < 0 {
            (*self as i128 + 0x100) as u128
        } else {
            *self as u128
        }
    }

    fn from_raw(raw: u128) -> (x: Self) {
        proof {
            lemma_pow256_values();
        }
        if raw >= 0x80 {
            (raw as i128 - 0x100) as i8
        } else {
            raw as i8
        }
    }
}

impl WireInt for u8 {
    open spec fn width() -> nat {
        1
    }

    open spec fn signed() -> bool {
        false
    }

    open spec fn value(self) -> int {
        self as int
    }

    open spec fn of_value(v: int) -> Self {
        v as u8
    }

    open spec fn wf(self) -> bool {
        true
    }

    proof fn lemma_width() {
    }

    proof fn lemma_value(x: Self) {
        lemma_pow256_values();
    }

    proof fn lemma_of_value(v: int) {
        lemma_pow256_values();
    }

    fn byte_width() -> (w: usize) {
        1
    }

    fn is_signed() -> (s: bool) {
        false
    }

    fn to_raw(&self) -> (raw: u128) {
        *self as u128
    }

    fn from_raw(raw: u128) -> (x: Self) {
        raw as u8
    }
}

impl WireInt for i16 {
    open spec fn width() -> nat {
        2
    }

    open spec fn signed() -> bool {
        true
    }

    open spec fn value(self) -> int {
        self as int
    }

    open spec fn of_value(v: int) -> Self {
        v as i16
    }

    open spec fn wf(self) -> bool {
        true
    }

    proof fn lemma_width() {
    }

    proof fn lemma_value(x: Self) {
        lemma_pow256_values();
    }

    proof fn lemma_of_value(v: int) {
        lemma_pow256_values();
    }

    fn byte_width() -> (w: usize) {
        2
    }

    fn is_signed() -> (s: bool) {
        true
    }

    fn to_raw(&self) -> (raw: u128) {
        proof {
            lemma_pow256_values();
        }
        if *self < 0 {
            (*self as i128 + 0x1_0000) as u128
        } else {
            *self as u128
        }
    }

    fn from_raw(raw: u128) -> (x: Self) {
        proof {
            lemma_pow256_values();
        }
        if raw >= 0x8000 {
            (raw as i128 - 0x1_0000) as i16
        } else {
            raw as i16
        }
    }
}

impl WireInt for u16 {
    open spec fn width() -> nat {
        2
    }

    open spec fn signed() -> bool {
        false
    }

    open spec fn value(self) -> int {
        self as int
    }

    open spec fn of_value(v: int) -> Self {
        v as u16
    }

    open spec fn wf(self) -> bool {
        true
    }

    proof fn lemma_width() {
    }

    proof fn lemma_value(x: Self) {
        lemma_pow256_values();
    }

    proof fn lemma_of_value(v: int) {
        lemma_pow256_values();
    }

    fn byte_width() -> (w: usize) {
        2
    }

    fn is_signed() -> (s: bool) {
        false
    }

    fn to_raw(&self) -> (raw: u128) {
        *self as u128
    }

    fn from_raw(raw: u128) -> (x: Self) {
        raw as u16
    }
}

impl WireInt for i32 {
    open spec fn width() -> nat {
        4
    }

    open spec fn signed() -> bool {
        true
    }

    open spec fn value(self) -> int {
        self as int
    }

    open spec fn of_value(v: int) -> Self {
        v as i32
    }

    open spec fn wf(self) -> bool {
        true
    }

    proof fn lemma_width() {
    }

    proof fn lemma_value(x: Self) {
        lemma_pow256_values();
    }

    proof fn lemma_of_value(v: int) {
        lemma_pow256_values();
    }

    fn byte_width() -> (w: usize) {
        4
    }

    fn is_signed() -> (s: bool) {
        true
    }

    fn to_raw(&self) -> (raw: u128) {
        proof {
            lemma_pow256_values();
        }
        if *self < 0 {
            (*self as i128 + 0x1_0000_0000) as u128
        } else {
            *self as u128
        }
    }

    fn from_raw(raw: u128) -> (x: Self) {
        proof {
            lemma_pow256_values();
        }
        if raw >= 0x8000_0000 {
            (raw as i128 - 0x1_0000_0000) as i32
        } else {
            raw as i32
        }
    }
}

impl WireInt for u32 {
    open spec fn width() -> nat {
        4
    }

    open spec fn signed() -> bool {
        false
    }

    open spec fn value(self) -> int {
        self as int
    }

    open spec fn of_value(v: int) -> Self {
        v as u32
    }

    open spec fn wf(self) -> bool {
        true
    }

    proof fn lemma_width() {
    }

    proof fn lemma_value(x: Self) {
        lemma_pow256_values();
    }

    proof fn lemma_of_value(v: int) {
        lemma_pow256_values();
    }

    fn byte_width() -> (w: usize) {
        4
    }

    fn is_signed() -> (s: bool) {
        false
    }

    fn to_raw(&self) -> (raw: u128) {
        *self as u128
    }

    fn from_raw(raw: u128) -> (x: Self) {
        raw as u32
    }
}

impl WireInt for i64 {
    open spec fn width() -> nat {
        8
    }

    open spec fn signed() -> bool {
        true
    }

    open spec fn value(self) -> int {
        self as int
    }

    open spec fn of_value(v: int) -> Self {
        v as i64
    }

    open spec fn wf(self) -> bool {
        true
    }

    proof fn lemma_width() {
    }

    proof fn lemma_value(x: Self) {
        lemma_pow256_values();
    }

    proof fn lemma_of_value(v: int) {
        lemma_pow256_values();
    }

    fn byte_width() -> (w: usize) {
        8
    }

    fn is_signed() -> (s: bool) {
        true
    }

    fn to_raw(&self) -> (raw: u128) {
        proof {
            lemma_pow256_values();
        }
        if *self < 0 {
            (*self as i128 + 0x1_0000_0000_0000_0000) as u128
        } else {
            *self as u128
        }
    }

    fn from_raw(raw: u128) -> (x: Self) {
        proof {
            lemma_pow256_values();
        }
        if raw >= 0x8000_0000_0000_0000 {
            (raw as i128 - 0x1_0000_0000_0000_0000) as i64
        } else {
            raw as i64
        }
    }
}

impl WireInt for u64 {
    open spec fn width() -> nat {
        8
    }

    open spec fn signed() -> bool {
        false
    }

    open spec fn value(self) -> int {
        self as int
    }

    open spec fn of_value(v: int) -> Self {
        v as u64
    }

    open spec fn wf(self) -> bool {
        true
    }

    proof fn lemma_width() {
    }

    proof fn lemma_value(x: Self) {
        lemma_pow256_values();
    }

    proof fn lemma_of_value(v: int) {
        lemma_pow256_values();
    }

    fn byte_width() -> (w: usize) {
        8
    }

    fn is_signed() -> (s: bool) {
        false
    }

    fn to_raw(&self) -> (raw: u128) {
        *self as u128
    }

    fn from_raw(raw: u128) -> (x: Self) {
        raw as u64
    }
}

impl WireInt for i128 {
    open spec fn width() -> nat {
        16
    }

    open spec fn signed() -> bool {
        true
    }

    open spec fn value(self) -> int {
        self as int
    }

    open spec fn of_value(v: int) -> Self {
        v as i128
    }

    open spec fn wf(self) -> bool {
        true
    }

    proof fn lemma_width() {
    }

    proof fn lemma_value(x: Self) {
        lemma_pow256_values();
    }

    proof fn lemma_of_value(v: int) {
        lemma_pow256_values();
    }

    fn byte_width() -> (w: usize) {
        16
    }

    fn is_signed() -> (s: bool) {
        true
    }

    fn to_raw(&self) -> (raw: u128) {
        proof {
            lemma_pow256_values();
        }
        if *self < 0 {
            u128::MAX - (-(*self + 1)) as u128
        } else {
            *self as u128
        }
    }

    fn from_raw(raw: u128) -> (x: Self) {
        proof {
            lemma_pow256_values();
        }
        if raw >= 0x8000_0000_0000_0000_0000_0000_0000_0000 {
            -((u128::MAX - raw) as i128) - 1
        } else {
            raw as i128
        }
    }
}

impl WireInt for u128 {
    open spec fn width() -> nat {
        16
    }

    open spec fn signed() -> bool {
        false
    }

    open spec fn value(self) -> int {
        self as int
    }

    open spec fn of_value(v: int) -> Self {
        v as u128
    }

    open spec fn wf(self) -> bool {
        true
    }

    proof fn lemma_width() {
    }

    proof fn lemma_value(x: Self) {
        lemma_pow256_values();
    }

    proof fn lemma_of_value(v: int) {
        lemma_pow256_values();
    }

    fn byte_width() -> (w: usize) {
        16
    }

    fn is_signed() -> (s: bool) {
        false
    }

    fn to_raw(&self) -> (raw: u128) {
        *self
    }

    fn from_raw(raw: u128) -> (x: Self) {
        raw
    }
}

} // verus!
