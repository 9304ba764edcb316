//! A bit-exact binary codec toolkit: big-endian integers of every byte width
//! up to sixteen, length-prefixed blobs and validated text over shared byte
//! storage, and a frame codec that cuts a byte stream into messages.
//!
//! Every codec reads from the front of a `bytes::BytesMut` or appends to its
//! back, and says in its contract exactly which bytes it takes or writes and
//! what it hands back:
//!
//! - [`decode`] and [`encode`] hold the capabilities that the codecs
//!   implement, [`model`] what their results stand for in a contract, and
//!   [`cursor`] what is taken on trust of `bytes`;
//! - [`codec`] holds the numbers, the blobs and the text;
//! - [`framed`] holds the frame codec;
//! - [`util`] holds the helpers around them.

pub mod codec;
pub mod cursor;
pub mod decode;
pub mod encode;
pub mod error;
pub mod framed;
pub mod model;
pub mod util;

pub use bytes;
pub use decode::{Decoder, RawDecoder};
pub use encode::Encoder;
pub use error::Error;
pub use model::Modeled;
