//! Content digests of payloads.

use commonware_cryptography::Hasher;
use vstd::prelude::*;
use vstd::std_specs::cmp::PartialEqSpecImpl;

verus! {

/// Number of bytes in a digest.
pub const DIGEST_LENGTH: usize = 32;

/// A 32-byte content hash.
#[derive(Clone, Copy, Debug, Eq, Hash)]
pub struct Digest {
    /// The bytes of the hash.
    pub bytes: [u8; 32],
}

impl View for Digest {
    type V = Seq<u8>;

    open spec fn view(&self) -> Seq<u8> {
        self.bytes@
    }
}

impl PartialEq for Digest {
    fn eq(&self, other: &Digest) -> (same: bool) {
        let mut i: usize = 0;
        while i < 32
            invariant
                i <= 32,
                forall|j: int| 0 <= j < i ==> self.bytes[j] == other.bytes[j],
            decreases 32 - i,
        {
            if self.bytes[i] != other.bytes[i] {
                return false;
            }
            i = i + 1;
        }
        proof {
            vstd::array::axiom_array_ext_equal(self.bytes, other.bytes);
            assert(self.bytes =~= other.bytes);
        }
        true
    }
}

impl PartialEqSpecImpl for Digest {
    open spec fn obeys_eq_spec() -> bool {
        true
    }

    open spec fn eq_spec(&self, other: &Digest) -> bool {
        *self == *other
    }
}

impl Digest {
    /// The canonical empty digest: all bytes zero.
    pub fn empty() -> (digest: Digest)
        ensures
            digest@ == Seq::new(32, |i: int| 0u8),
    {
        let digest = Digest { bytes: [0u8; 32] };
        assert(digest@ =~= Seq::new(32, |i: int| 0u8));
        digest
    }

    /// Digest made of the given bytes.
    pub fn from_bytes(bytes: [u8; 32]) -> (digest: Digest)
        ensures
            digest.bytes == bytes,
    {
        Digest { bytes }
    }
}

/// The SHA-256 hash of a message, as the hasher of the cryptography crate
/// computes it.
pub uninterp spec fn sha256_digest(message: Seq<u8>) -> Seq<u8>;

/// Calls `Hasher::hash` of `commonware_cryptography::sha256::Sha256`: one
/// fresh hasher, one update with the whole message, then the final digest.
/// The contract names that digest and claims only that it depends on the
/// message alone.
#[verifier::external_body]
pub(crate) fn sha256_hash(message: &[u8]) -> (digest: Digest)
    ensures
        digest@ == sha256_digest(message@),
{
    Digest { bytes: commonware_cryptography::sha256::Sha256::hash(message).0 }
}

/// The digest of a message: the digest whose bytes are the SHA-256 hash of
/// the message. `hash` returns it, with those bytes.
pub open spec fn digest_of(message: Seq<u8>) -> Digest {
    choose|digest: Digest| digest@ == sha256_digest(message)
}

/// Two digests with the same bytes are the same digest.
pub proof fn lemma_digest_by_bytes(a: Digest, b: Digest)
    requires
        a@ == b@,
    ensures
        a == b,
{
    vstd::array::axiom_array_ext_equal(a.bytes, b.bytes);
    assert(a.bytes =~= b.bytes);
}

/// Hashes a message with SHA-256.
pub fn hash(message: &[u8]) -> (digest: Digest)
    ensures
        digest == digest_of(message@),
        digest@ == sha256_digest(message@),
{
    let digest = sha256_hash(message);
    proof {
        lemma_digest_by_bytes(digest, digest_of(message@));
    }
    digest
}

} // verus!
