//! The contracts that users of the conductor implement: payloads, epoch
//! managers and payload stores.

use crate::digest::Digest;
use crate::types::{Epoch, Height, StoreError, TransferError};
use vstd::prelude::*;

verus! {

/// What the conductor knows of a payload: its place in the chain, its
/// content hash, the hash of its parent and its serialized form.
pub ghost struct PayloadModel {
    /// Position in the chain.
    pub height: Height,
    /// Content hash.
    pub digest: Digest,
    /// Content hash of the parent, where chain continuity is tracked.
    pub parent: Option<Digest>,
    /// Serialized form.
    pub encoding: Seq<u8>,
}

/// A payload that can be ordered and certified.
///
/// Every executable method is a function of the payload's model, and a
/// clone has the model of the payload it was made from: the digest of a
/// payload is therefore deterministic, and the chain may hold clones of the
/// payloads it was given.
pub trait Payload: Clone {
    /// The model of this payload.
    spec fn model(&self) -> PayloadModel;

    /// Computes the digest of this payload.
    fn digest(&self) -> (digest: Digest)
        ensures
            digest == self.model().digest,
    ;

    /// Returns the height of this payload.
    fn height(&self) -> (height: Height)
        ensures
            height == self.model().height,
    ;

    /// Returns the parent digest; `None` at genesis or when parent tracking
    /// is not needed.
    fn parent(&self) -> (parent: Option<Digest>)
        ensures
            parent == self.model().parent,
    ;

    /// Serializes the payload.
    fn encode(&self) -> (bytes: Vec<u8>)
        ensures
            bytes@ == self.model().encoding,
    ;

    /// Deserializes a payload; `None` if the bytes are malformed. On the
    /// encoding of a payload it gives that payload back.
    fn decode(bytes: &[u8]) -> (payload: Option<Self>)
        ensures
            forall|source: Self| #[trigger]
                source.model().encoding == bytes@ ==> match payload {
                    Some(p) => p.model() == source.model(),
                    None => false,
                },
    ;

    /// A clone has the model of the payload it was made from.
    proof fn clone_keeps_model(&self, copy: &Self)
        requires
            cloned(*self, *copy),
        ensures
            copy.model() == self.model(),
    ;
}

/// The digest of a payload is deterministic: a payload and its clone have
/// the same digest.
pub proof fn digest_deterministic<P: Payload>(payload: P, copy: P)
    requires
        cloned(payload, copy),
    ensures
        copy.model().digest == payload.model().digest,
{
    payload.clone_keeps_model(&copy);
}

/// Encoding a payload and decoding the bytes gives the payload back:
/// whatever `decode` returns on the encoding of a payload is that payload.
pub proof fn encode_decode_round_trip<P: Payload>(payload: P, bytes: &[u8], decoded: Option<P>)
    requires
        bytes@ == payload.model().encoding,
        call_ensures(P::decode, (bytes,), decoded),
    ensures
        model_of(decoded) == Some(payload.model()),
{
}

/// Clones a payload, keeping its model.
pub fn duplicate<P: Payload>(payload: &P) -> (copy: P)
    ensures
        copy.model() == payload.model(),
{
    let copy = payload.clone();
    proof {
        payload.clone_keeps_model(&copy);
    }
    copy
}

/// The model of an optional payload.
pub open spec fn model_of<P: Payload>(payload: Option<P>) -> Option<PayloadModel> {
    match payload {
        Some(p) => Some(p.model()),
        None => None,
    }
}

/// What an epoch manager answers, as functions of its value.
#[verifier::reject_recursive_types(K)]
pub ghost struct ManagerModel<K> {
    /// The current epoch.
    pub epoch: Epoch,
    /// The sequencer of each epoch, where the epoch is known and has one.
    pub sequencer: spec_fn(Epoch) -> Option<K>,
    /// Whether a key is that of the current sequencer.
    pub leads: spec_fn(K) -> bool,
    /// The whole participant set of each epoch, sequencer included.
    pub validators: spec_fn(Epoch) -> Option<Seq<K>>,
    /// The acknowledgments required for certification in each epoch.
    pub threshold: spec_fn(Epoch) -> Option<usize>,
}

/// Epoch and leader management: who the sequencer of each epoch is, who
/// validates, and how many acknowledgments certify.
///
/// The queries are functions of the manager's value. What a leadership
/// transfer returns is left to the implementation.
pub trait EpochManager {
    /// The public key type used to identify participants.
    type PublicKey;

    /// The model of this manager.
    spec fn model(&self) -> ManagerModel<Self::PublicKey>;

    /// Returns the current epoch number.
    fn current_epoch(&self) -> (epoch: Epoch)
        ensures
            epoch == self.model().epoch,
    ;

    /// Returns the sequencer for a given epoch; `None` if the epoch is
    /// unknown or has no assigned sequencer.
    fn sequencer(&self, epoch: Epoch) -> (sequencer: Option<Self::PublicKey>)
        ensures
            sequencer == (self.model().sequencer)(epoch),
    ;

    /// Checks if a public key is the current sequencer.
    fn is_sequencer(&self, key: &Self::PublicKey) -> (leads: bool)
        ensures
            leads == (self.model().leads)(*key),
    ;

    /// Requests a leadership transfer.
    fn transfer_leader(&self) -> (outcome: Result<(), TransferError>)
    ;

    /// Returns the set of validators for a given epoch.
    fn validators(&self, epoch: Epoch) -> (validators: Option<Vec<Self::PublicKey>>)
        ensures
            match validators {
                Some(keys) => (self.model().validators)(epoch) == Some(keys@),
                None => (self.model().validators)(epoch).is_none(),
            },
    ;

    /// Returns the quorum threshold for a given epoch.
    fn quorum_threshold(&self, epoch: Epoch) -> (threshold: Option<usize>)
        ensures
            threshold == (self.model().threshold)(epoch),
    ;
}

/// What a payload store holds.
pub ghost struct StoreModel {
    /// The stored payloads, by height.
    pub contents: Map<Height, PayloadModel>,
    /// The payload that the store holds as its latest.
    pub newest: Option<PayloadModel>,
}

/// Storage of certified payloads.
pub trait PayloadStore<P: Payload> {
    /// The model of this store.
    spec fn model(&self) -> StoreModel;

    /// Stores a certified payload at its height. When the store refuses,
    /// its contents stay as they were.
    fn store(&mut self, payload: &P) -> (outcome: Result<(), StoreError>)
        ensures
            outcome is Ok ==> final(self).model().contents == old(self).model().contents.insert(
                payload.model().height,
                payload.model(),
            ),
            outcome is Err ==> final(self).model().contents == old(self).model().contents,
    ;

    /// Retrieves a stored payload by its digest.
    fn get(&self, digest: &Digest) -> (payload: Option<P>)
        ensures
            match payload {
                Some(p) => p.model().digest == *digest && self.model().contents.contains_key(
                    p.model().height,
                ) && self.model().contents[p.model().height] == p.model(),
                None => forall|height: Height| #[trigger]
                    self.model().contents.contains_key(height) ==> self.model().contents[height].digest
                        != *digest,
            },
    ;

    /// Retrieves a stored payload by height.
    fn get_by_height(&self, height: Height) -> (payload: Option<P>)
        ensures
            model_of(payload) == self.model().contents.get(height),
    ;

    /// Returns the latest certified payload.
    fn latest(&self) -> (payload: Option<P>)
        ensures
            model_of(payload) == self.model().newest,
    ;
}

} // verus!
