//! A buffer that carries a context along.

use vstd::prelude::*;

verus! {

/// A buffer together with a value that decoding or encoding may consult.
#[derive(Debug)]
pub struct ContextBuffer<B, C> {
    inner: B,
    context: C,
}

impl<B, C> ContextBuffer<B, C> {
    /// The buffer and the context that are held.
    pub closed spec fn parts(&self) -> (B, C) {
        (self.inner, self.context)
    }

    /// Wraps `inner` and gives it `context` to carry.
    pub fn new(inner: B, context: C) -> (wrapped: Self)
        ensures
            wrapped.parts() == (inner, context),
    {
        Self { inner, context }
    }

    /// The wrapped buffer.
    pub fn inner(&self) -> (inner: &B)
        ensures
            *inner == self.parts().0,
    {
        &self.inner
    }

    /// The context.
    pub fn context(&self) -> (context: &C)
        ensures
            *context == self.parts().1,
    {
        &self.context
    }

    /// The wrapped buffer and the context, taken apart.
    pub fn into_parts(self) -> (parts: (B, C))
        ensures
            parts == self.parts(),
    {
        (self.inner, self.context)
    }
}

} // verus!
