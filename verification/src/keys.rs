//! Public keys that identify participants.

use vstd::prelude::*;
use vstd::std_specs::cmp::PartialEqSpecImpl;

verus! {

/// Number of bytes in a public key.
pub const PUBLIC_KEY_LENGTH: usize = 32;

/// The 32 raw bytes of a participant's public key.
#[derive(Clone, Copy, Debug, Eq, Hash)]
pub struct PublicKey {
    /// The raw bytes of the key.
    pub bytes: [u8; 32],
}

impl View for PublicKey {
    type V = Seq<u8>;

    open spec fn view(&self) -> Seq<u8> {
        self.bytes@
    }
}

impl PartialEq for PublicKey {
    fn eq(&self, other: &PublicKey) -> (same: bool) {
        let mut i: usize = 0;
        while i < 32
            invariant
                i <= 32,
                forall|j: int| 0 <= j < i ==> self.bytes[j] == other.bytes[j],
            decreases 32 - i,
        {
            if self.bytes[i] != other.bytes[i] {
                return false;
            }
            i = i + 1;
        }
        proof {
            vstd::array::axiom_array_ext_equal(self.bytes, other.bytes);
            assert(self.bytes =~= other.bytes);
        }
        true
    }
}

impl PartialEqSpecImpl for PublicKey {
    open spec fn obeys_eq_spec() -> bool {
        true
    }

    open spec fn eq_spec(&self, other: &PublicKey) -> bool {
        *self == *other
    }
}

impl PublicKey {
    /// Key made of the given bytes.
    pub fn from_bytes(bytes: [u8; 32]) -> (key: PublicKey)
        ensures
            key.bytes == bytes,
    {
        PublicKey { bytes }
    }
}

/// Copies a list of keys.
pub fn copy_keys(keys: &Vec<PublicKey>) -> (copy: Vec<PublicKey>)
    ensures
        copy@ == keys@,
{
    let mut copy: Vec<PublicKey> = Vec::new();
    let mut i: usize = 0;
    while i < keys.len()
        invariant
            i <= keys.len(),
            copy@ == keys@.take(i as int),
        decreases keys.len() - i,
    {
        copy.push(keys[i]);
        i = i + 1;
        assert(copy@ =~= keys@.take(i as int));
    }
    assert(keys@.take(keys.len() as int) =~= keys@);
    copy
}

} // verus!
