//! A streaming DEFLATE decompressor: given compressed bytes delivered
//! incrementally, it reconstructs the original byte stream exactly, one call
//! at a time, without requiring the whole compressed payload or the whole
//! output to be resident at once. Raw DEFLATE streams and zlib-framed streams
//! (2-byte header, trailing Adler-32) are both accepted.

pub mod adler;
pub mod huffman;
pub mod bits;
pub mod decode;
pub mod errors;
pub mod fixed;
pub mod hexdump;
pub mod stream;
pub mod window;

pub use bits::BitReader;
pub use stream::Stream;
pub use errors::{BuildError, DecodeError, DecodeResult};
pub use window::SlidingWindow;
