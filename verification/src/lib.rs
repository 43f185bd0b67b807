//! A minimal length-delimited message framing protocol over a reliable,
//! ordered byte stream.
//!
//! Each frame carries a fixed 13-byte header (magic tag, one-byte opcode,
//! payload length, truncated digest of the payload) followed by the payload
//! bytes. Readers validate the declared length and the digest, so truncation
//! and accidental corruption are detected; payload semantics are left to the
//! caller's codec.

pub mod checksum;
pub mod error;
pub mod header;
pub mod message;
pub mod stream;

pub use error::Error;
pub use header::Header;
pub use message::Message;
pub use stream::{Deserializable, Encodable, MemTransport, Serializable, Stream};
