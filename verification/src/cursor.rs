//! The byte cursors that every codec reads from and writes to.
//!
//! A cursor is a `bytes::BytesMut`: decoding takes bytes off its front,
//! encoding appends bytes at its back. A decoded blob is a `bytes::Bytes`,
//! which shares the storage it was cut from. Verus cannot look inside either
//! type, so this module gives each a name for the bytes it holds and states,
//! without proof, what the methods used by this crate do to those bytes.

use bytes::{Buf, BufMut, Bytes, BytesMut};
use vstd::prelude::*;

verus! {

/// `bytes::BytesMut`, taken as a whole: nothing of its layout is known here.
#[verifier::external_type_specification]
#[verifier::external_body]
pub struct ExBytesMut(bytes::BytesMut);

/// `bytes::Bytes`, taken as a whole: nothing of its layout is known here.
#[verifier::external_type_specification]
#[verifier::external_body]
pub struct ExBytes(bytes::Bytes);

/// The bytes a `BytesMut` holds, front first.
pub uninterp spec fn mut_contents(buf: &BytesMut) -> Seq<u8>;

/// The bytes a `Bytes` holds, front first.
pub uninterp spec fn contents(bytes: &Bytes) -> Seq<u8>;

/// The most bytes one buffer can hold: `BytesMut` reports
/// `isize::MAX - len` as the room it has left.
pub open spec fn max_len() -> nat {
    isize::MAX as nat
}

/// `BytesMut::len`: the number of bytes held.
pub assume_specification[ BytesMut::len ](buf: &BytesMut) -> (n: usize)
    ensures
        n == mut_contents(buf).len(),
;

/// `BytesMut::is_empty`: whether no byte is held.
pub assume_specification[ BytesMut::is_empty ](buf: &BytesMut) -> (empty: bool)
    ensures
        empty == (mut_contents(buf).len() == 0),
;

/// `Buf::remaining` on `BytesMut`: the number of bytes held, all of which
/// are yet to be read.
pub assume_specification[ <BytesMut as Buf>::remaining ](buf: &BytesMut) -> (n: usize)
    ensures
        n == mut_contents(buf).len(),
;

/// `Buf::chunk` on `BytesMut`: a slice over all the bytes held.
pub assume_specification<'a>[ <BytesMut as Buf>::chunk ](buf: &'a BytesMut) -> (chunk: &'a [u8])
    ensures
        chunk@ == mut_contents(buf),
;

/// `Buf::advance` on `BytesMut`: drops the first `cnt` bytes. It panics when
/// `cnt` exceeds the bytes held, which `requires` leaves out.
pub assume_specification[ <BytesMut as Buf>::advance ](buf: &mut BytesMut, cnt: usize)
    requires
        cnt <= mut_contents(old(buf)).len(),
    ensures
        mut_contents(final(buf)) == mut_contents(old(buf)).skip(cnt as int),
;

/// `BytesMut::split_to`: hands out the first `at` bytes as a buffer of their
/// own and keeps the rest. It panics when `at` exceeds the bytes held, which
/// `requires` leaves out.
pub assume_specification[ BytesMut::split_to ](buf: &mut BytesMut, at: usize) -> (head: BytesMut)
    requires
        at <= mut_contents(old(buf)).len(),
    ensures
        mut_contents(&head) == mut_contents(old(buf)).subrange(0, at as int),
        mut_contents(final(buf)) == mut_contents(old(buf)).skip(at as int),
;

/// `Buf::copy_to_bytes` on `BytesMut`: hands out the first `len` bytes as a
/// `Bytes` that shares the storage, and keeps the rest. It splits the
/// buffer, so `requires` leaves out what `split_to` panics on.
pub assume_specification[ <BytesMut as Buf>::copy_to_bytes ](buf: &mut BytesMut, len: usize) -> (head:
    Bytes)
    requires
        len <= mut_contents(old(buf)).len(),
    ensures
        contents(&head) == mut_contents(old(buf)).subrange(0, len as int),
        mut_contents(final(buf)) == mut_contents(old(buf)).skip(len as int),
;

/// `BytesMut::freeze`: the same bytes, now immutable and shareable.
pub assume_specification[ BytesMut::freeze ](buf: BytesMut) -> (bytes: Bytes)
    ensures
        contents(&bytes) == mut_contents(&buf),
;

/// `BytesMut::reserve`: makes room for `additional` more bytes and leaves the
/// bytes held as they are. It panics when the capacity asked for overflows,
/// which `requires` leaves out.
pub assume_specification[ BytesMut::reserve ](buf: &mut BytesMut, additional: usize)
    requires
        mut_contents(old(buf)).len() + additional <= max_len(),
    ensures
        mut_contents(final(buf)) == mut_contents(old(buf)),
;

/// `BufMut::put_slice` on `BytesMut`: appends `src`, growing the buffer as
/// needed. It reserves room first, so `requires` leaves out what `reserve`
/// panics on.
pub assume_specification[ <BytesMut as BufMut>::put_slice ](buf: &mut BytesMut, src: &[u8])
    requires
        mut_contents(old(buf)).len() + src@.len() <= max_len(),
    ensures
        mut_contents(final(buf)) == mut_contents(old(buf)) + src@,
;

/// `Bytes::new`: a `Bytes` that holds nothing.
pub assume_specification[ Bytes::new ]() -> (bytes: Bytes)
    ensures
        contents(&bytes) == Seq::<u8>::empty(),
;

/// `Clone` on `Bytes`: another handle on the same bytes.
pub assume_specification[ <Bytes as Clone>::clone ](bytes: &Bytes) -> (shared: Bytes)
    ensures
        contents(&shared) == contents(bytes),
;

/// `Bytes::len`: the number of bytes held.
pub assume_specification[ Bytes::len ](bytes: &Bytes) -> (n: usize)
    ensures
        n == contents(bytes).len(),
;

/// `AsRef<[u8]>` on `Bytes`: a slice over all the bytes held.
pub assume_specification<'a>[ <Bytes as AsRef<[u8]>>::as_ref ](bytes: &'a Bytes) -> (slice: &'a [u8])
    ensures
        slice@ == contents(bytes),
;

/// `Bytes::from_static`: a `Bytes` over the given slice, without copying it.
pub assume_specification[ Bytes::from_static ](slice: &'static [u8]) -> (bytes: Bytes)
    ensures
        contents(&bytes) == slice@,
;

} // verus!
