//! Codecs that cut a byte stream into messages.

pub mod length_delimited;

pub use length_delimited::{
    DecodeState, FrameError, LengthDelimitedCodec, LengthDelimitedCodecError,
};
