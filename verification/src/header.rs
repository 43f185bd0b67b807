//! The fixed-size frame header and its byte layout.
//!
//! A header is exactly [`LEN`] bytes on the wire, laid out as the magic tag
//! (4 bytes, little endian), the opcode (1 byte), the payload length
//! (4 bytes, little endian) and the payload checksum (4 raw bytes), in that
//! order.

use vstd::prelude::*;
use vstd::bytes::{spec_u32_from_le_bytes, spec_u32_to_le_bytes, u32_from_le_bytes, u32_to_le_bytes};
use vstd::bytes::lemma_auto_spec_u32_to_from_le_bytes;
use vstd::slice::slice_subrange;

verus! {

/// Byte length of an encoded header.
pub const LEN: usize = 13;

/// One frame's header: a transient value, built per outgoing message and
/// parsed per incoming message.
#[derive(Debug, Clone, Copy, PartialEq, Eq)]
pub struct Header {
    /// Protocol/version tag; constant per deployment.
    pub magic: u32,
    /// Message-type tag, interpreted by the caller's codec.
    pub opcode: u8,
    /// Exact byte length of the payload that follows the header.
    pub length: u32,
    /// Truncated digest of the payload.
    pub check_sum: [u8; 4],
}

/// The exact 13 bytes that encoding a header produces.
pub open spec fn spec_encode_header(h: Header) -> Seq<u8> {
    spec_u32_to_le_bytes(h.magic) + seq![h.opcode] + spec_u32_to_le_bytes(h.length)
        + h.check_sum@
}

/// `h` holds exactly the fields that the 13 header bytes `b` declare.
pub open spec fn header_decoded(b: Seq<u8>, h: Header) -> bool
    recommends
        b.len() == LEN,
{
    &&& h.magic == spec_u32_from_le_bytes(b.subrange(0, 4))
    &&& h.opcode == b[4]
    &&& h.length == spec_u32_from_le_bytes(b.subrange(5, 9))
    &&& h.check_sum@ == b.subrange(9, 13)
}

impl Header {
    /// Serializes the header into its fixed 13-byte wire form.
    pub fn encode(&self) -> (r: Vec<u8>)
        ensures
            r@ == spec_encode_header(*self),
            r@.len() == LEN,
    {
        proof {
            lemma_auto_spec_u32_to_from_le_bytes();
        }
        let mut wtr = u32_to_le_bytes(self.magic);
        wtr.push(self.opcode);
        let mut length_bytes = u32_to_le_bytes(self.length);
        wtr.append(&mut length_bytes);
        wtr.push(self.check_sum[0]);
        wtr.push(self.check_sum[1]);
        wtr.push(self.check_sum[2]);
        wtr.push(self.check_sum[3]);
        proof {
            assert(wtr@ =~= spec_encode_header(*self));
        }
        wtr
    }

    /// Parses a header out of exactly 13 bytes, reading the fields in the
    /// same order that [`Header::encode`] writes them.
    pub fn decode(bytes: &[u8]) -> (h: Header)
        requires
            bytes@.len() == LEN,
        ensures
            header_decoded(bytes@, h),
    {
        let magic = u32_from_le_bytes(slice_subrange(bytes, 0, 4));
        let opcode = *vstd::slice::slice_index_get(bytes, 4);
        let length = u32_from_le_bytes(slice_subrange(bytes, 5, 9));
        let check_sum: [u8; 4] = [
            *vstd::slice::slice_index_get(bytes, 9),
            *vstd::slice::slice_index_get(bytes, 10),
            *vstd::slice::slice_index_get(bytes, 11),
            *vstd::slice::slice_index_get(bytes, 12),
        ];
        let h = Header { magic, opcode, length, check_sum };
        proof {
            assert(h.check_sum@ =~= bytes@.subrange(9, 13));
        }
        h
    }
}

/// Law: every encoded header is exactly 13 bytes, and decoding those bytes
/// recovers every field of the header, so `decode(encode(h)) == h`.
pub proof fn lemma_header_round_trip(h: Header, d: Header)
    requires
        header_decoded(spec_encode_header(h), d),
    ensures
        spec_encode_header(h).len() == LEN,
        d == h,
{
    lemma_auto_spec_u32_to_from_le_bytes();
    let b = spec_encode_header(h);
    assert(b.subrange(0, 4) =~= spec_u32_to_le_bytes(h.magic));
    assert(b.subrange(5, 9) =~= spec_u32_to_le_bytes(h.length));
    assert(b.subrange(9, 13) =~= h.check_sum@);
    assert(d.check_sum =~= h.check_sum);
}

} // verus!
