//! Reading and writing ttyrec terminal recordings.
//!
//! A recording is a plain concatenation of frames. Each frame is a twelve-byte
//! header (seconds, microseconds and payload length, each a little-endian
//! `u32`) followed by the payload. The time in a header is the time that has
//! passed since the recording began, not since the previous frame.
//!
//! [`Parser`] decodes a recording that arrives in chunks of any size, and
//! [`Creator`] encodes frames relative to the time of the first one.

pub mod creator;
pub mod error;
pub mod frame;
pub mod parser;
pub mod reader;
pub mod stream;
pub mod time;
pub mod wire;

pub use creator::Creator;
pub use error::Error;
pub use frame::Frame;
pub use parser::Parser;
