//! Method forms of the encode capability.

use crate::cursor::{max_len, mut_contents};
use crate::encode::Encoder;
use bytes::BytesMut;
use vstd::prelude::*;

verus! {

/// The methods of `Encoder`, on the value itself.
pub trait EncoderExt: Encoder + Sized {
    /// Encodes `self` at the back of `buf`.
    fn encode_to(&self, buf: &mut BytesMut) -> (r: Result<(), Self::Error>)
        requires
            mut_contents(old(buf)).len() + Self::encoded_size(self) <= max_len(),
        ensures
            r == Self::outcome(self),
            mut_contents(final(buf)) == mut_contents(old(buf)) + Self::encoded(self),
    {
        <Self as Encoder>::encode(self, buf)
    }

    /// The number of bytes that encoding `self` takes.
    fn size(&self) -> (n: usize)
        requires
            Self::encoded_size(self) <= usize::MAX,
        ensures
            n == Self::encoded_size(self),
    {
        <Self as Encoder>::size_of(self)
    }
}

impl<T> EncoderExt for T where T: Encoder + Sized {

}

} // verus!
