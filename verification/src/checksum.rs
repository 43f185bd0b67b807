//! The truncated-digest integrity check over frame payloads.
//!
//! A payload's checksum is the first [`CHECKSUM_SIZE`] bytes of a 20-byte
//! cryptographic digest of the payload. It detects accidental corruption and
//! truncation only: an adversary who can recompute the digest is out of
//! scope.

use vstd::prelude::*;
use crate::error::Error;
use crate::header::Header;

verus! {

/// Number of digest bytes kept as a frame's checksum.
pub const CHECKSUM_SIZE: usize = 4;

/// The 20-byte digest that the outside hash computes over a byte sequence;
/// a function of those bytes alone.
pub uninterp spec fn sha1_of(bytes: Seq<u8>) -> Seq<u8>;

/// The checksum carried in a frame header: the first [`CHECKSUM_SIZE`] bytes
/// of the payload's digest. The hash in use yields 20 bytes, so this is
/// simply its leading four; the zero padding only keeps the checksum's
/// length fixed for any digest length.
pub open spec fn spec_check_sum(bytes: Seq<u8>) -> Seq<u8> {
    let digest = sha1_of(bytes);
    Seq::new(CHECKSUM_SIZE as nat, |i: int| if i < digest.len() { digest[i] } else { 0u8 })
}

/// Relies on crypto::sha1::Sha1 through crypto::digest::Digest: `input`
/// followed by `result` fills the buffer with the 20-byte digest of the
/// input, a function of the input bytes alone.
#[verifier::external_body]
fn sha1_digest(bytes: &[u8]) -> (r: [u8; 20])
    ensures
        r@ == sha1_of(bytes@),
{
    let mut hasher = crypto::sha1::Sha1::new();
    crypto::digest::Digest::input(&mut hasher, bytes);
    let mut hash = [0u8; 20];
    crypto::digest::Digest::result(&mut hasher, &mut hash);
    hash
}

/// Computes the truncated digest of a payload.
pub fn check_sum(bytes: &[u8]) -> (r: [u8; 4])
    ensures
        r@ == spec_check_sum(bytes@),
{
    let hash = sha1_digest(bytes);
    let r: [u8; 4] = [hash[0], hash[1], hash[2], hash[3]];
    proof {
        assert(r@ =~= spec_check_sum(bytes@));
    }
    r
}

/// Recomputes the digest over a received payload and compares it byte for
/// byte against the checksum the header declares.
pub fn verify_checksum(header: &Header, payload: &[u8]) -> (r: Result<(), Error>)
    ensures
        r == (if header.check_sum@ == spec_check_sum(payload@) {
            Ok::<(), Error>(())
        } else {
            Err::<(), Error>(Error::InvalidChecksum)
        }),
{
    let computed = check_sum(payload);
    let mut i: usize = 0;
    while i < 4
        invariant
            i <= 4,
            computed@ == spec_check_sum(payload@),
            forall|j: int| 0 <= j < i ==> header.check_sum@[j] == computed@[j],
        decreases 4 - i,
    {
        if header.check_sum[i] != computed[i] {
            proof {
                assert(header.check_sum@[i as int] != spec_check_sum(payload@)[i as int]);
            }
            return Err(Error::InvalidChecksum);
        }
        i += 1;
    }
    proof {
        assert(header.check_sum@ =~= spec_check_sum(payload@));
    }
    Ok(())
}

/// Law: the checksum is a pure function of the payload bytes; equal payloads
/// always carry equal checksums.
pub proof fn lemma_check_sum_deterministic(a: Seq<u8>, b: Seq<u8>)
    requires
        a == b,
    ensures
        spec_check_sum(a) == spec_check_sum(b),
{
}

} // verus!
