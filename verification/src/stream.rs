//! Reading and writing whole frames over a byte-stream transport.
//!
//! A frame is one encoded [`Header`] followed by the payload bytes the
//! header describes. [`Stream::write_message`] serializes a message,
//! computes its checksum, and pushes header and payload onto the transport;
//! [`Stream::read_message`] mirrors it: it consumes exactly one frame,
//! validates the declared length and the checksum, and hands back the
//! header and payload verbatim. Payload semantics stay with the caller's
//! codec: an opcode this layer does not recognize is not an error here.

use vstd::prelude::*;
use vstd::bytes::{spec_u32_from_le_bytes, spec_u32_to_le_bytes};
use vstd::bytes::lemma_auto_spec_u32_to_from_le_bytes;
use vstd::slice::{slice_subrange, slice_to_vec};
use crate::checksum::{check_sum, spec_check_sum, verify_checksum};
use crate::error::Error;
use crate::header::{header_decoded, Header, LEN};

verus! {

/// The protocol/version tag this deployment stamps into every outgoing
/// header. Readers deliver it verbatim; they do not validate it.
pub const MAGIC: u32 = 0;

/// The codec capability a message type offers the writing side: turning a
/// message into its payload bytes.
pub trait Serializable {
    /// Whether the message can be serialized faithfully.
    spec fn serializable(&self) -> bool;

    /// The payload bytes the message serializes to.
    spec fn serialization(&self) -> Seq<u8>;

    /// Produces the message's payload bytes.
    fn serialize(&self) -> (r: Vec<u8>)
        requires
            self.serializable(),
        ensures
            r@ == self.serialization(),
    ;
}

/// The codec capability a message type offers the reading side: turning
/// payload bytes plus the opcode a frame declared back into a message.
pub trait Deserializable: Sized {
    /// Whether `bytes` under `message_type` form a recognizable message.
    spec fn deserializable(bytes: Seq<u8>, message_type: u8) -> bool;

    /// Whether `self` is what `bytes` under `message_type` deserialize to.
    spec fn deserialized_from(&self, bytes: Seq<u8>, message_type: u8) -> bool;

    /// Rebuilds a message from its payload bytes and declared opcode.
    fn deserialize(bytes: &[u8], message_type: u8) -> (r: Self)
        requires
            Self::deserializable(bytes@, message_type),
        ensures
            r.deserialized_from(bytes@, message_type),
    ;
}

/// The two codec capabilities in one trait: a type that can both produce
/// its payload bytes and be rebuilt from them.
pub trait Encodable: Sized {
    /// Whether the value can be encoded faithfully.
    spec fn encodable(&self) -> bool;

    /// The payload bytes the value encodes to.
    spec fn encoding(&self) -> Seq<u8>;

    /// Whether `bytes` under `message_type` form a recognizable encoding.
    spec fn decodable(bytes: Seq<u8>, message_type: u8) -> bool;

    /// Whether `self` is what `bytes` under `message_type` decode to.
    spec fn decoded_from(&self, bytes: Seq<u8>, message_type: u8) -> bool;

    /// Produces the value's payload bytes.
    fn encode(&self) -> (r: Vec<u8>)
        requires
            self.encodable(),
        ensures
            r@ == self.encoding(),
    ;

    /// Rebuilds a value from its payload bytes and declared opcode.
    fn decode(vec: &[u8], message_type: u8) -> (r: Self)
        requires
            Self::decodable(vec@, message_type),
        ensures
            r.decoded_from(vec@, message_type),
    ;
}

/// Every byte of the frame written for `(opcode, payload)` under `magic`:
/// the 13 header bytes, then the payload.
pub open spec fn spec_frame(magic: u32, opcode: u8, payload: Seq<u8>) -> Seq<u8> {
    spec_u32_to_le_bytes(magic) + seq![opcode] + spec_u32_to_le_bytes(payload.len() as u32)
        + spec_check_sum(payload) + payload
}

/// Exactly what one read of a message yields and consumes, as a function of
/// the bytes `b` that were pending on the transport; `after` is what stays
/// pending and `r` what the read returns.
///
/// - No byte pending: the peer closed cleanly at a frame boundary.
/// - Fewer than 13 bytes pending: the header itself is truncated.
/// - A full header whose declared payload length exceeds what is pending:
///   the payload is truncated.
/// - A full frame: its payload checksum decides between the validated
///   `(header, payload)` pair and `InvalidChecksum`.
///
/// Only a successful read consumes bytes, and it consumes exactly one frame.
pub open spec fn read_message_post(
    b: Seq<u8>,
    after: Seq<u8>,
    r: Result<(Header, Vec<u8>), Error>,
) -> bool {
    &&& (b.len() == 0 ==> r == Err::<(Header, Vec<u8>), Error>(Error::StreamClosed) && after == b)
    &&& (0 < b.len() < LEN ==> (r matches Err(e) && e is IOError) && after == b)
    &&& (b.len() >= LEN ==> {
        let length = spec_u32_from_le_bytes(b.subrange(5, 9)) as int;
        if b.len() - LEN < length {
            (r matches Err(e) && e is IOError) && after == b
        } else {
            let payload = b.subrange(LEN as int, LEN + length);
            if b.subrange(9, 13) == spec_check_sum(payload) {
                (r matches Ok(p) && header_decoded(b.subrange(0, LEN as int), p.0)
                    && p.1@ == payload) && after == b.skip(LEN + length)
            } else {
                r == Err::<(Header, Vec<u8>), Error>(Error::InvalidChecksum) && after == b
            }
        }
    })
}

/// A transport that carries whole frames over an ordered, reliable byte
/// stream that the peer eventually closes.
pub trait Stream: Sized {
    /// Whether the transport's bookkeeping is consistent.
    spec fn wf(&self) -> bool;

    /// The bytes sent and not yet consumed, in order.
    spec fn pending(&self) -> Seq<u8>;

    /// Serializes `message`, then pushes one frame — header first, payload
    /// second, each in full — onto the transport.
    fn write_message<S: Serializable>(&mut self, message: &S, message_type: u8) -> (r: Result<
        (),
        Error,
    >)
        requires
            old(self).wf(),
            message.serializable(),
            message.serialization().len() <= u32::MAX,
        ensures
            final(self).wf(),
            r == Ok::<(), Error>(()),
            final(self).pending() == old(self).pending() + spec_frame(
                MAGIC,
                message_type,
                message.serialization(),
            ),
    ;

    /// Consumes exactly one frame and returns its validated header and
    /// payload, or reports why no frame could be had; see
    /// [`read_message_post`] for the full account.
    fn read_message(&mut self) -> (r: Result<(Header, Vec<u8>), Error>)
        requires
            old(self).wf(),
        ensures
            final(self).wf(),
            read_message_post(old(self).pending(), final(self).pending(), r),
    ;
}

/// An in-memory transport: one direction of an ordered, reliable byte
/// stream, as the reader sees it once the peer has finished sending.
///
/// `sent` holds every byte pushed onto the stream; `consumed` counts how
/// many of them the reader has taken. A reader that finds nothing pending
/// sees a clean close, as on a socket whose peer has shut down.
pub struct MemTransport {
    /// Every byte written onto the stream since it was opened.
    pub sent: Vec<u8>,
    /// How many of the sent bytes the reader has consumed.
    pub consumed: usize,
}

impl MemTransport {
    /// Opens an empty transport: nothing sent, nothing consumed.
    pub fn new() -> (t: MemTransport)
        ensures
            t.wf(),
            t.pending() == Seq::<u8>::empty(),
            t.sent@ == Seq::<u8>::empty(),
    {
        let t = MemTransport { sent: Vec::new(), consumed: 0 };
        proof {
            assert(t.pending() =~= Seq::<u8>::empty());
        }
        t
    }

    /// Pushes the whole buffer onto the stream; a short write does not
    /// exist on this transport.
    pub fn write_all(&mut self, bytes: &[u8]) -> (r: Result<(), Error>)
        requires
            old(self).wf(),
        ensures
            final(self).wf(),
            r == Ok::<(), Error>(()),
            final(self).sent@ == old(self).sent@ + bytes@,
            final(self).consumed == old(self).consumed,
            final(self).pending() == old(self).pending() + bytes@,
    {
        self.sent.extend_from_slice(bytes);
        proof {
            assert(self.sent@ =~= old(self).sent@ + bytes@);
            assert(self.pending() =~= old(self).pending() + bytes@);
        }
        Ok(())
    }

    /// Builds and pushes one frame for an already-serialized payload: the
    /// header carries the opcode, the payload's exact length and its
    /// checksum, and the payload bytes follow in full.
    pub fn write_frame(&mut self, message_type: u8, payload: &[u8]) -> (r: Result<(), Error>)
        requires
            old(self).wf(),
            payload@.len() <= u32::MAX,
        ensures
            final(self).wf(),
            r == Ok::<(), Error>(()),
            final(self).pending() == old(self).pending() + spec_frame(
                MAGIC,
                message_type,
                payload@,
            ),
    {
        let header = Header {
            magic: MAGIC,
            opcode: message_type,
            length: payload.len() as u32,
            check_sum: check_sum(payload),
        };
        let header_bytes = header.encode();
        let r = match self.write_all(header_bytes.as_slice()) {
            Ok(()) => self.write_all(payload),
            Err(e) => Err(e),
        };
        proof {
            assert(self.pending() =~= old(self).pending() + spec_frame(
                MAGIC,
                message_type,
                payload@,
            ));
        }
        r
    }
}

impl Stream for MemTransport {
    open spec fn wf(&self) -> bool {
        self.consumed <= self.sent@.len()
    }

    open spec fn pending(&self) -> Seq<u8> {
        self.sent@.skip(self.consumed as int)
    }

    fn write_message<S: Serializable>(&mut self, message: &S, message_type: u8) -> (r: Result<
        (),
        Error,
    >) {
        let payload_bytes = message.serialize();
        self.write_frame(message_type, payload_bytes.as_slice())
    }

    fn read_message(&mut self) -> (r: Result<(Header, Vec<u8>), Error>) {
        let avail = self.sent.len() - self.consumed;
        if avail == 0 {
            return Err(Error::StreamClosed);
        }
        if avail < LEN {
            proof {
                assert(self.pending().len() == avail);
            }
            return Err(Error::IOError { message: "stream closed inside a frame header".to_owned() });
        }
        let header_bytes = slice_subrange(self.sent.as_slice(), self.consumed, self.consumed + LEN);
        let header = Header::decode(header_bytes);
        proof {
            assert(header_bytes@ =~= self.pending().subrange(0, LEN as int));
            assert(header_bytes@.subrange(5, 9) =~= self.pending().subrange(5, 9));
        }
        let length = header.length as usize;
        if avail - LEN < length {
            return Err(Error::IOError { message: "stream closed inside a frame payload".to_owned() });
        }
        let payload = slice_to_vec(slice_subrange(
            self.sent.as_slice(),
            self.consumed + LEN,
            self.consumed + LEN + length,
        ));
        proof {
            assert(payload@ =~= self.pending().subrange(LEN as int, LEN + length as int));
            assert(header.check_sum@ =~= self.pending().subrange(9, 13));
        }
        match verify_checksum(&header, payload.as_slice()) {
            Err(e) => Err(e),
            Ok(()) => {
                self.consumed = self.consumed + LEN + length;
                proof {
                    assert(self.pending() =~= old(self).pending().skip(LEN + length as int));
                }
                Ok((header, payload))
            },
        }
    }
}

/// Law: a frame whose payload portion was corrupted between writing and
/// reading is rejected with `InvalidChecksum`, and nothing of it is
/// consumed, whenever the corrupted payload's checksum no longer matches
/// the one the header carries — a corruption that collides in the
/// truncated digest is beyond what any reader of this layer can detect.
pub proof fn lemma_corruption_detected(
    magic: u32,
    opcode: u8,
    payload: Seq<u8>,
    corrupted: Seq<u8>,
    rest: Seq<u8>,
    after: Seq<u8>,
    r: Result<(Header, Vec<u8>), Error>,
)
    requires
        payload.len() <= u32::MAX,
        corrupted.len() == payload.len(),
        spec_check_sum(corrupted) != spec_check_sum(payload),
        read_message_post(
            spec_frame(magic, opcode, payload).subrange(0, LEN as int) + corrupted + rest,
            after,
            r,
        ),
    ensures
        r == Err::<(Header, Vec<u8>), Error>(Error::InvalidChecksum),
        after == spec_frame(magic, opcode, payload).subrange(0, LEN as int) + corrupted + rest,
{
    lemma_auto_spec_u32_to_from_le_bytes();
    let f = spec_frame(magic, opcode, payload);
    let h = f.subrange(0, LEN as int);
    let b = h + corrupted + rest;
    assert(spec_check_sum(payload).len() == 4);
    assert(spec_check_sum(corrupted).len() == 4);
    assert(h.len() == LEN);
    assert(b.subrange(5, 9) =~= spec_u32_to_le_bytes(payload.len() as u32));
    assert(spec_u32_from_le_bytes(b.subrange(5, 9)) == payload.len());
    assert(b.subrange(LEN as int, LEN + corrupted.len() as int) =~= corrupted);
    assert(b.subrange(9, 13) =~= spec_check_sum(payload));
}

/// Law: a frame written for `(opcode, payload)` and read back from the
/// front of the pending bytes yields exactly that opcode, the payload's
/// length, the payload itself and the payload's checksum, and consumes
/// nothing beyond the frame.
pub proof fn lemma_frame_round_trip(
    magic: u32,
    opcode: u8,
    payload: Seq<u8>,
    rest: Seq<u8>,
    after: Seq<u8>,
    r: Result<(Header, Vec<u8>), Error>,
)
    requires
        payload.len() <= u32::MAX,
        read_message_post(spec_frame(magic, opcode, payload) + rest, after, r),
    ensures
        spec_frame(magic, opcode, payload).len() == LEN + payload.len(),
        r is Ok,
        r->Ok_0.0.magic == magic,
        r->Ok_0.0.opcode == opcode,
        r->Ok_0.0.length == payload.len(),
        r->Ok_0.0.check_sum@ == spec_check_sum(payload),
        r->Ok_0.1@ == payload,
        after == rest,
{
    lemma_auto_spec_u32_to_from_le_bytes();
    let f = spec_frame(magic, opcode, payload);
    let b = f + rest;
    assert(spec_check_sum(payload).len() == 4);
    assert(b.subrange(0, 4) =~= spec_u32_to_le_bytes(magic));
    assert(b[4] == opcode);
    assert(b.subrange(5, 9) =~= spec_u32_to_le_bytes(payload.len() as u32));
    assert(spec_u32_from_le_bytes(b.subrange(5, 9)) == payload.len());
    assert(b.subrange(9, 13) =~= spec_check_sum(payload));
    assert(b.subrange(LEN as int, LEN + payload.len() as int) =~= payload);
    assert(b.skip(LEN + payload.len() as int) =~= rest);
    assert(b.subrange(0, LEN as int).subrange(0, 4) =~= b.subrange(0, 4));
    assert(b.subrange(0, LEN as int).subrange(5, 9) =~= b.subrange(5, 9));
    assert(b.subrange(0, LEN as int).subrange(9, 13) =~= b.subrange(9, 13));
}

} // verus!
