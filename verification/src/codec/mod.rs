//! The codecs: numbers, blobs with a length before them, and text.

pub mod buffer;
pub mod endian;
pub mod length;
pub mod length_prefixed;
pub mod number;
pub mod text;
pub mod ux;

pub use buffer::{Buffer, UnprefixedBuffer};
pub use length::LengthTraits;
pub use length_prefixed::{LengthPrefixed, Unprefixed};
pub use number::{TryFromIntError, WireInt};
pub use text::{Ascii, TextError, Utf8};
pub use ux::{i24, i40, i48, i56, u24, u40, u48, u56};
