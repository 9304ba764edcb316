//! Helpers around the codecs.

pub mod buf;
pub mod context;
pub mod encoder;
pub mod remaining;

pub use buf::BufExt;
pub use context::ContextBuffer;
pub use encoder::EncoderExt;
pub use remaining::Remaining;
