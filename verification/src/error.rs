//! The closed set of failures the framing layer reports.

use vstd::prelude::*;

verus! {

/// Everything that can go wrong while reading or writing a frame.
///
/// - `InvalidChecksum`: the payload bytes received do not match the checksum
///   declared in the header; the stream should be treated as desynchronized.
/// - `StreamClosed`: the peer closed the connection cleanly at a frame
///   boundary (no bytes were available where a new header was expected).
/// - `IOError`: any other transport failure, including a close in the middle
///   of a frame; `message` describes the underlying fault.
#[derive(Debug, Clone, PartialEq, Eq)]
pub enum Error {
    InvalidChecksum,
    StreamClosed,
    IOError { message: String },
}

} // verus!
