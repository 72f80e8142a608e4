//! A block-like payload: height, timestamp, optional parent and data, with
//! a binary encoding.
//!
//! The encoding is the height and the timestamp as eight little-endian
//! bytes each, a flag byte, the 32 bytes of the parent where the flag is 1,
//! and the data.

use crate::digest::{digest_of, hash, lemma_digest_by_bytes, sha256_digest, Digest};
use crate::traits::{Payload, PayloadModel};
use crate::types::Height;
use vstd::bytes::*;
use vstd::prelude::*;
use vstd::slice::*;

verus! {

/// The flag byte of an encoding that holds a parent.
pub const WITH_PARENT: u8 = 1;

/// The flag byte of an encoding without a parent.
pub const WITHOUT_PARENT: u8 = 0;

/// The bytes of an optional parent: the 32 bytes of the digest, or nothing.
pub open spec fn parent_bytes(parent: Option<Digest>) -> Seq<u8> {
    match parent {
        Some(digest) => digest@,
        None => Seq::empty(),
    }
}

/// The flag byte of an optional parent.
pub open spec fn parent_flag(parent: Option<Digest>) -> u8 {
    match parent {
        Some(_) => WITH_PARENT,
        None => WITHOUT_PARENT,
    }
}

/// The message that the digest of a block covers: height, timestamp,
/// parent and data.
pub open spec fn block_message(
    height: Height,
    timestamp: u64,
    parent: Option<Digest>,
    data: Seq<u8>,
) -> Seq<u8> {
    spec_u64_to_le_bytes(height) + spec_u64_to_le_bytes(timestamp) + parent_bytes(parent) + data
}

/// The encoding of a block.
pub open spec fn block_encoding(
    height: Height,
    timestamp: u64,
    parent: Option<Digest>,
    data: Seq<u8>,
) -> Seq<u8> {
    spec_u64_to_le_bytes(height) + spec_u64_to_le_bytes(timestamp) + seq![parent_flag(parent)]
        + parent_bytes(parent) + data
}

/// A block-like payload with timestamp, parent reference and data.
#[derive(Debug, PartialEq)]
pub struct BlockPayload {
    /// Position in the chain.
    pub height: Height,
    /// Time at which the block was made.
    pub timestamp: u64,
    /// Digest of the block before this one.
    pub parent: Option<Digest>,
    /// Content of the block.
    pub data: Vec<u8>,
}

/// Appends bytes to a buffer.
fn append(buffer: &mut Vec<u8>, bytes: &[u8])
    ensures
        final(buffer)@ == old(buffer)@ + bytes@,
{
    let mut i: usize = 0;
    while i < bytes.len()
        invariant
            i <= bytes.len(),
            buffer@ == old(buffer)@ + bytes@.take(i as int),
        decreases bytes.len() - i,
    {
        buffer.push(bytes[i]);
        i = i + 1;
        assert(buffer@ =~= old(buffer)@ + bytes@.take(i as int));
    }
    assert(bytes@.take(bytes.len() as int) =~= bytes@);
}

/// Appends the bytes of a digest to a buffer.
fn append_digest(buffer: &mut Vec<u8>, digest: &Digest)
    ensures
        final(buffer)@ == old(buffer)@ + digest@,
{
    let mut i: usize = 0;
    while i < 32
        invariant
            i <= 32,
            buffer@ == old(buffer)@ + digest@.take(i as int),
        decreases 32 - i,
    {
        buffer.push(digest.bytes[i]);
        i = i + 1;
        assert(buffer@ =~= old(buffer)@ + digest@.take(i as int));
    }
    assert(digest@.take(32) =~= digest@);
}

/// Reads the digest that stands at a place in the bytes.
fn digest_at(bytes: &[u8], at: usize) -> (digest: Digest)
    requires
        at + 32 <= bytes.len(),
    ensures
        digest@ == bytes@.subrange(at as int, at + 32),
{
    let mut raw = [0u8; 32];
    let mut i: usize = 0;
    while i < 32
        invariant
            i <= 32,
            at + 32 <= bytes.len(),
            forall|k: int| 0 <= k < i ==> raw[k] == bytes[at + k],
        decreases 32 - i,
    {
        raw[i] = bytes[at + i];
        i = i + 1;
    }
    let digest = Digest { bytes: raw };
    assert(digest@ =~= bytes@.subrange(at as int, at + 32));
    digest
}

impl Clone for BlockPayload {
    fn clone(&self) -> (copy: Self)
        ensures
            copy.height == self.height,
            copy.timestamp == self.timestamp,
            copy.parent == self.parent,
            copy.data@ == self.data@,
    {
        BlockPayload {
            height: self.height,
            timestamp: self.timestamp,
            parent: self.parent,
            data: slice_to_vec(self.data.as_slice()),
        }
    }
}

impl BlockPayload {
    /// The message that the digest of this block covers.
    pub open spec fn message(&self) -> Seq<u8> {
        block_message(self.height, self.timestamp, self.parent, self.data@)
    }

    /// The encoding of this block.
    pub open spec fn encoding(&self) -> Seq<u8> {
        block_encoding(self.height, self.timestamp, self.parent, self.data@)
    }
}

/// An encoding tells its fields: two blocks with the same encoding have the
/// same height, timestamp, parent and data.
pub proof fn lemma_encoding_tells_fields(
    height: Height,
    timestamp: u64,
    parent: Option<Digest>,
    data: Seq<u8>,
    bytes: Seq<u8>,
)
    requires
        bytes == block_encoding(height, timestamp, parent, data),
    ensures
        bytes.len() >= 17,
        spec_u64_from_le_bytes(bytes.subrange(0, 8)) == height,
        spec_u64_from_le_bytes(bytes.subrange(8, 16)) == timestamp,
        bytes[16] == parent_flag(parent),
        match parent {
            Some(digest) => bytes.len() >= 49 && bytes.subrange(17, 49) == digest@
                && bytes.subrange(49, bytes.len() as int) == data,
            None => bytes.subrange(17, bytes.len() as int) == data,
        },
{
    lemma_auto_spec_u64_to_from_le_bytes();
    let h = spec_u64_to_le_bytes(height);
    let t = spec_u64_to_le_bytes(timestamp);
    assert(h.len() == 8 && t.len() == 8);
    assert(bytes.subrange(0, 8) =~= h);
    assert(bytes.subrange(8, 16) =~= t);
    match parent {
        Some(digest) => {
            assert(digest@.len() == 32);
            assert(bytes.subrange(17, 49) =~= digest@);
            assert(bytes.subrange(49, bytes.len() as int) =~= data);
        },
        None => {
            assert(bytes.subrange(17, bytes.len() as int) =~= data);
        },
    }
}

impl Payload for BlockPayload {
    open spec fn model(&self) -> PayloadModel {
        PayloadModel {
            height: self.height,
            digest: digest_of(self.message()),
            parent: self.parent,
            encoding: self.encoding(),
        }
    }

    fn digest(&self) -> (digest: Digest)
        ensures
            digest == digest_of(self.message()),
            digest@ == sha256_digest(self.message()),
    {
        let mut message = u64_to_le_bytes(self.height);
        let timestamp = u64_to_le_bytes(self.timestamp);
        append(&mut message, timestamp.as_slice());
        match &self.parent {
            Some(parent) => {
                append_digest(&mut message, parent);
            },
            None => {
                assert(message@ + Seq::<u8>::empty() =~= message@);
            },
        }
        append(&mut message, self.data.as_slice());
        hash(message.as_slice())
    }

    fn height(&self) -> (height: Height)
        ensures
            height == self.height,
    {
        self.height
    }

    fn parent(&self) -> (parent: Option<Digest>)
        ensures
            parent == self.parent,
    {
        self.parent
    }

    fn encode(&self) -> (bytes: Vec<u8>)
        ensures
            bytes@ == self.encoding(),
    {
        let mut bytes = u64_to_le_bytes(self.height);
        let timestamp = u64_to_le_bytes(self.timestamp);
        append(&mut bytes, timestamp.as_slice());
        match &self.parent {
            Some(parent) => {
                bytes.push(WITH_PARENT);
                append_digest(&mut bytes, parent);
            },
            None => {
                bytes.push(WITHOUT_PARENT);
            },
        }
        append(&mut bytes, self.data.as_slice());
        assert(bytes@ =~= self.encoding());
        bytes
    }

    /// Decodes a block. Fewer than 17 bytes are malformed, and so is a flag
    /// of 1 that fewer than 32 bytes follow. Any other flag than 1 means
    /// that there is no parent.
    fn decode(bytes: &[u8]) -> (payload: Option<Self>)
        ensures
            bytes@.len() < 17 ==> payload is None,
            bytes@.len() >= 17 && bytes@[16] == WITH_PARENT && bytes@.len() < 49 ==> payload
                is None,
            bytes@.len() >= 17 && !(bytes@[16] == WITH_PARENT && bytes@.len() < 49) ==> payload
                is Some,
            match payload {
                Some(block) => {
                    &&& block.height == spec_u64_from_le_bytes(bytes@.subrange(0, 8))
                    &&& block.timestamp == spec_u64_from_le_bytes(bytes@.subrange(8, 16))
                    &&& if bytes@[16] == WITH_PARENT {
                        &&& block.parent is Some
                        &&& block.parent.unwrap()@ == bytes@.subrange(17, 49)
                        &&& block.data@ == bytes@.subrange(49, bytes@.len() as int)
                    } else {
                        &&& block.parent is None
                        &&& block.data@ == bytes@.subrange(17, bytes@.len() as int)
                    }
                },
                None => true,
            },
    {
        if bytes.len() < 17 {
            proof {
                assert forall|source: Self| #[trigger]
                    source.model().encoding == bytes@ implies false by {
                    lemma_encoding_tells_fields(
                        source.height,
                        source.timestamp,
                        source.parent,
                        source.data@,
                        bytes@,
                    );
                }
            }
            return None;
        }
        let height = u64_from_le_bytes(slice_subrange(bytes, 0, 8));
        let timestamp = u64_from_le_bytes(slice_subrange(bytes, 8, 16));
        let (parent, offset) = if bytes[16] == WITH_PARENT {
            if bytes.len() < 49 {
                proof {
                    assert forall|source: Self| #[trigger]
                        source.model().encoding == bytes@ implies false by {
                        lemma_encoding_tells_fields(
                            source.height,
                            source.timestamp,
                            source.parent,
                            source.data@,
                            bytes@,
                        );
                    }
                }
                return None;
            }
            (Some(digest_at(bytes, 17)), 49usize)
        } else {
            (None, 17usize)
        };
        let data = slice_to_vec(slice_subrange(bytes, offset, bytes.len()));
        let block = BlockPayload { height, timestamp, parent, data };
        proof {
            assert forall|source: Self| #[trigger]
                source.model().encoding == bytes@ implies block.model()
                == source.model() by {
                lemma_encoding_tells_fields(
                    source.height,
                    source.timestamp,
                    source.parent,
                    source.data@,
                    bytes@,
                );
                match source.parent {
                    Some(digest) => {
                        lemma_digest_by_bytes(block.parent.unwrap(), digest);
                    },
                    None => {},
                }
                assert(block.data@ == source.data@);
                assert(block.message() == source.message());
                assert(block.encoding() == source.encoding());
            }
        }
        Some(block)
    }

    proof fn clone_keeps_model(&self, copy: &Self) {
    }
}

} // verus!
