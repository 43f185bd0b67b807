//! A small tagged message type and its hand-written byte codec.
//!
//! Each variant owns one opcode: `Hello` is opcode 0, `Ack` opcode 1. A
//! `Hello` payload is the name's byte length (4 bytes, little endian), the
//! name's UTF-8 bytes, then the text's UTF-8 bytes to the end of the
//! payload; an `Ack` payload is empty. The mapping is resolved by a single
//! pattern match per direction, with a pair of pure functions per variant.

use vstd::prelude::*;
use vstd::bytes::{spec_u32_from_le_bytes, spec_u32_to_le_bytes, u32_from_le_bytes, u32_to_le_bytes};
use vstd::bytes::lemma_auto_spec_u32_to_from_le_bytes;
use vstd::slice::slice_subrange;
use vstd::utf8::{decode_utf8, encode_utf8, valid_utf8};
use vstd::utf8::{encode_utf8_decode_utf8, encode_utf8_valid_utf8};
use crate::stream::{Deserializable, Encodable, Serializable};

verus! {

/// A greeting that names its sender and carries a line of text, and the
/// empty acknowledgement answering it.
#[derive(Debug, PartialEq, Eq, Clone)]
pub enum Message {
    Hello { name: String, text: String },
    Ack {},
}

impl Message {
    /// The opcode that tags this variant's payload on the wire.
    pub open spec fn opcode(&self) -> u8 {
        match self {
            Message::Hello { .. } => 0,
            Message::Ack {} => 1,
        }
    }
}

/// Whether two messages are the same variant with the same field contents.
pub open spec fn same_message(a: Message, b: Message) -> bool {
    match (a, b) {
        (
            Message::Hello { name: a_name, text: a_text },
            Message::Hello { name: b_name, text: b_text },
        ) => a_name@ == b_name@ && a_text@ == b_text@,
        (Message::Ack {}, Message::Ack {}) => true,
        _ => false,
    }
}

/// Relies on std::str::from_utf8: it succeeds exactly on the byte
/// sequences that are valid UTF-8, and yields the text those bytes encode.
#[verifier::external_body]
fn bytes_to_string(bytes: &[u8]) -> (r: Option<String>)
    ensures
        r is Some <==> valid_utf8(bytes@),
        r matches Some(s) ==> s@ == decode_utf8(bytes@),
{
    match std::str::from_utf8(bytes) {
        Ok(s) => Some(s.to_owned()),
        Err(_) => None,
    }
}

impl Encodable for Message {
    open spec fn encodable(&self) -> bool {
        match self {
            Message::Hello { name, .. } => encode_utf8(name@).len() <= u32::MAX,
            Message::Ack {} => true,
        }
    }

    open spec fn encoding(&self) -> Seq<u8> {
        match self {
            Message::Hello { name, text } => spec_u32_to_le_bytes(
                encode_utf8(name@).len() as u32,
            ) + encode_utf8(name@) + encode_utf8(text@),
            Message::Ack {} => Seq::<u8>::empty(),
        }
    }

    open spec fn decodable(bytes: Seq<u8>, message_type: u8) -> bool {
        if message_type == 0 {
            &&& bytes.len() >= 4
            &&& {
                let n = spec_u32_from_le_bytes(bytes.subrange(0, 4)) as int;
                &&& 4 + n <= bytes.len()
                &&& valid_utf8(bytes.subrange(4, 4 + n))
                &&& valid_utf8(bytes.skip(4 + n))
            }
        } else {
            message_type == 1
        }
    }

    open spec fn decoded_from(&self, bytes: Seq<u8>, message_type: u8) -> bool {
        if message_type == 0 {
            let n = spec_u32_from_le_bytes(bytes.subrange(0, 4)) as int;
            self matches Message::Hello { name, text } && name@ == decode_utf8(
                bytes.subrange(4, 4 + n),
            ) && text@ == decode_utf8(bytes.skip(4 + n))
        } else {
            self matches Message::Ack {}
        }
    }

    fn encode(&self) -> (r: Vec<u8>) {
        match self {
            Message::Hello { name, text } => {
                let name_bytes = name.as_str().as_bytes();
                let text_bytes = text.as_str().as_bytes();
                let mut wtr = u32_to_le_bytes(name_bytes.len() as u32);
                wtr.extend_from_slice(name_bytes);
                wtr.extend_from_slice(text_bytes);
                proof {
                    assert(wtr@ =~= self.encoding());
                }
                wtr
            },
            Message::Ack {} => Vec::new(),
        }
    }

    fn decode(vec: &[u8], message_type: u8) -> (r: Self) {
        if message_type == 0 {
            let total_len = vec.len();
            let name_len = u32_from_le_bytes(slice_subrange(vec, 0, 4)) as usize;
            proof {
                assert(4 + name_len <= total_len);
            }
            let name_bytes = slice_subrange(vec, 4, 4 + name_len);
            let text_bytes = slice_subrange(vec, 4 + name_len, total_len);
            proof {
                assert(text_bytes@ =~= vec@.skip(4 + name_len as int));
            }
            match (bytes_to_string(name_bytes), bytes_to_string(text_bytes)) {
                (Some(name), Some(text)) => Message::Hello { name, text },
                _ => vstd::pervasive::unreached(),
            }
        } else {
            Message::Ack {}
        }
    }
}

impl Message {
    /// Decodes a payload only if its opcode is recognized and the payload
    /// is well formed for that opcode; `None` is the recoverable outcome
    /// for a peer that sent an unrecognized variant or malformed bytes,
    /// where [`Encodable::decode`] instead demands a recognizable input.
    pub fn try_decode(vec: &[u8], message_type: u8) -> (r: Option<Message>)
        ensures
            r is Some <==> <Message as Encodable>::decodable(vec@, message_type),
            r matches Some(m) ==> m.decoded_from(vec@, message_type),
    {
        if message_type == 0 {
            let total_len = vec.len();
            if total_len < 4 {
                return None;
            }
            let name_len = u32_from_le_bytes(slice_subrange(vec, 0, 4)) as usize;
            if name_len > total_len - 4 {
                return None;
            }
            let name_bytes = slice_subrange(vec, 4, 4 + name_len);
            let text_bytes = slice_subrange(vec, 4 + name_len, total_len);
            proof {
                assert(text_bytes@ =~= vec@.skip(4 + name_len as int));
            }
            match (bytes_to_string(name_bytes), bytes_to_string(text_bytes)) {
                (Some(name), Some(text)) => Some(Message::Hello { name, text }),
                _ => None,
            }
        } else if message_type == 1 {
            Some(Message::Ack {})
        } else {
            None
        }
    }
}

impl Serializable for Message {
    open spec fn serializable(&self) -> bool {
        self.encodable()
    }

    open spec fn serialization(&self) -> Seq<u8> {
        self.encoding()
    }

    fn serialize(&self) -> (r: Vec<u8>) {
        Encodable::encode(self)
    }
}

impl Deserializable for Message {
    open spec fn deserializable(bytes: Seq<u8>, message_type: u8) -> bool {
        <Message as Encodable>::decodable(bytes, message_type)
    }

    open spec fn deserialized_from(&self, bytes: Seq<u8>, message_type: u8) -> bool {
        self.decoded_from(bytes, message_type)
    }

    fn deserialize(bytes: &[u8], message_type: u8) -> (r: Self) {
        <Message as Encodable>::decode(bytes, message_type)
    }
}

/// Law: an encodable message's encoding is always recognizable under the
/// message's own opcode, so decoding what was encoded is allowed.
pub proof fn lemma_message_decodable(m: Message)
    requires
        m.encodable(),
    ensures
        <Message as Encodable>::decodable(m.encoding(), m.opcode()),
{
    lemma_auto_spec_u32_to_from_le_bytes();
    match m {
        Message::Hello { name, text } => {
            let nb = encode_utf8(name@);
            let tb = encode_utf8(text@);
            let enc = m.encoding();
            assert(enc.subrange(0, 4) =~= spec_u32_to_le_bytes(nb.len() as u32));
            assert(enc.subrange(4, 4 + nb.len() as int) =~= nb);
            assert(enc.skip(4 + nb.len() as int) =~= tb);
            encode_utf8_valid_utf8(name@);
            encode_utf8_valid_utf8(text@);
        },
        Message::Ack {} => {},
    }
}

/// Law: decoding an encoded message under the message's own opcode yields
/// the same variant with the same field contents back.
pub proof fn lemma_message_round_trip(m: Message, d: Message)
    requires
        m.encodable(),
        d.decoded_from(m.encoding(), m.opcode()),
    ensures
        same_message(m, d),
{
    lemma_auto_spec_u32_to_from_le_bytes();
    match m {
        Message::Hello { name, text } => {
            let nb = encode_utf8(name@);
            let tb = encode_utf8(text@);
            let enc = m.encoding();
            assert(enc.subrange(0, 4) =~= spec_u32_to_le_bytes(nb.len() as u32));
            assert(enc.subrange(4, 4 + nb.len() as int) =~= nb);
            assert(enc.skip(4 + nb.len() as int) =~= tb);
            encode_utf8_decode_utf8(name@);
            encode_utf8_decode_utf8(text@);
        },
        Message::Ack {} => {},
    }
}

} // verus!
