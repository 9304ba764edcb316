//! What a decoded value stands for in a contract.

use crate::cursor::{contents, mut_contents};
use bytes::{Bytes, BytesMut};
use vstd::prelude::*;

verus! {

/// A value together with the plain mathematical value that contracts speak
/// of in its place. A blob that shares storage with the cursor it was cut
/// from is modelled by the bytes it holds; an integer is its own model.
///
/// A type that no contract looks into may leave `model` as it is: the
/// default says nothing of the value.
pub trait Modeled {
    type Model;

    open spec fn model(&self) -> Self::Model {
        arbitrary()
    }
}

impl Modeled for usize {
    type Model = usize;

    open spec fn model(&self) -> usize {
        *self
    }
}

impl Modeled for Bytes {
    type Model = Seq<u8>;

    open spec fn model(&self) -> Seq<u8> {
        contents(self)
    }
}

impl Modeled for BytesMut {
    type Model = Seq<u8>;

    open spec fn model(&self) -> Seq<u8> {
        mut_contents(self)
    }
}

impl<T: Modeled> Modeled for Option<T> {
    type Model = Option<T::Model>;

    open spec fn model(&self) -> Option<T::Model> {
        match self {
            Some(value) => Some(value.model()),
            None => None,
        }
    }
}

/// The model of a decoding result: the model of the value, or the error.
pub open spec fn modeled<T: Modeled, E>(r: Result<T, E>) -> Result<T::Model, E> {
    match r {
        Ok(value) => Ok(value.model()),
        Err(e) => Err(e),
    }
}

/// The model of the result of decoding from a slice: the model of the value
/// with the number of bytes read, or the error.
pub open spec fn raw_modeled<T: Modeled, E>(r: Result<(T, usize), E>) -> Result<
    (T::Model, usize),
    E,
> {
    match r {
        Ok((value, read)) => Ok((value.model(), read)),
        Err(e) => Err(e),
    }
}

} // verus!
