//! The payload automaton: the ordering engine that owns the chain.
//!
//! The automaton keeps the latest certified payload, every certified payload
//! by height, and at most one proposal that awaits certification. Its
//! operations are stated over [`AutomatonModel`], the mathematical state.

use crate::digest::Digest;
use crate::traits::{duplicate, model_of, Payload, PayloadModel, PayloadStore, StoreModel};
use crate::types::{Epoch, Height, PendingPayload, StoreError};
use vstd::string::*;
use core::marker::PhantomData;
use std::collections::BTreeMap;
use vstd::prelude::*;
use vstd::std_specs::iter::IteratorSpec;

verus! {

broadcast use vstd::std_specs::btree::group_btree_axioms;

/// Context handed to the automaton with a proposal or a verification.
#[derive(Debug, Clone)]
pub struct PayloadContext<K> {
    /// The sequencer proposing the payload.
    pub sequencer: K,
    /// The height being proposed.
    pub height: Height,
}

/// The proposal that awaits certification.
pub ghost struct PendingModel {
    /// The proposed payload.
    pub payload: PayloadModel,
    /// Acknowledgments received so far.
    pub acks: nat,
    /// Acknowledgments required.
    pub threshold: nat,
}

/// The state of the chain.
pub ghost struct AutomatonModel {
    /// The newest certified payload.
    pub latest: Option<PayloadModel>,
    /// Every certified payload, by its height.
    pub by_height: Map<Height, PayloadModel>,
    /// The proposal that awaits certification, if any.
    pub pending: Option<PendingModel>,
}

impl AutomatonModel {
    /// The state before anything was certified or proposed.
    pub open spec fn empty() -> AutomatonModel {
        AutomatonModel { latest: None, by_height: Map::empty(), pending: None }
    }

    /// The state that starts from a genesis payload.
    pub open spec fn from_genesis(genesis: PayloadModel) -> AutomatonModel {
        AutomatonModel {
            latest: Some(genesis),
            by_height: Map::empty().insert(genesis.height, genesis),
            pending: None,
        }
    }

    /// The height that the next payload must have: one above the latest
    /// certified payload, or zero where there is none.
    pub open spec fn next_height(self) -> int {
        match self.latest {
            Some(latest) => latest.height + 1,
            None => 0,
        }
    }

    /// The digest of the latest certified payload.
    pub open spec fn latest_digest(self) -> Option<Digest> {
        match self.latest {
            Some(latest) => Some(latest.digest),
            None => None,
        }
    }

    /// Sequential height: the payload stands at the next height.
    pub open spec fn height_follows(self, payload: PayloadModel) -> bool {
        payload.height == self.next_height()
    }

    /// Parent continuity: a payload that names a parent names the latest
    /// certified payload. A payload without a parent passes.
    pub open spec fn parent_follows(self, payload: PayloadModel) -> bool {
        payload.parent is Some ==> payload.parent == self.latest_digest()
    }

    /// Both ordering invariants hold of the payload.
    pub open spec fn accepts(self, payload: PayloadModel) -> bool {
        self.height_follows(payload) && self.parent_follows(payload)
    }

    /// The state after the payload became the pending proposal, with no
    /// acknowledgment yet. An earlier proposal is discarded.
    pub open spec fn submit(self, payload: PayloadModel, threshold: nat) -> AutomatonModel {
        AutomatonModel {
            pending: Some(PendingModel { payload, acks: 0, threshold }),
            ..self
        }
    }

    /// The payload that the next acknowledgment certifies, if it certifies
    /// one.
    pub open spec fn certified_by_next_ack(self) -> Option<PayloadModel> {
        match self.pending {
            Some(pending) => if pending.acks + 1 >= pending.threshold {
                Some(pending.payload)
            } else {
                None
            },
            None => None,
        }
    }

    /// The state after one acknowledgment.
    pub open spec fn acknowledge(self) -> AutomatonModel {
        match self.pending {
            Some(pending) => if pending.acks + 1 >= pending.threshold {
                AutomatonModel {
                    latest: Some(pending.payload),
                    by_height: self.by_height.insert(pending.payload.height, pending.payload),
                    pending: None,
                }
            } else {
                AutomatonModel {
                    pending: Some(PendingModel { acks: pending.acks + 1, ..pending }),
                    ..self
                }
            },
            None => self,
        }
    }

    /// The state after a number of acknowledgments in a row.
    pub open spec fn after_acks(self, count: nat) -> AutomatonModel
        decreases count,
    {
        if count == 0 {
            self
        } else {
            self.after_acks((count - 1) as nat).acknowledge()
        }
    }

    /// Whether a directly certified payload becomes the latest: there is no
    /// latest yet, or the payload stands strictly above it.
    pub open spec fn advances(self, payload: PayloadModel) -> bool {
        match self.latest {
            Some(latest) => payload.height > latest.height,
            None => true,
        }
    }

    /// The state after a payload was certified directly.
    pub open spec fn certify(self, payload: PayloadModel) -> AutomatonModel {
        AutomatonModel {
            latest: if self.advances(payload) {
                Some(payload)
            } else {
                self.latest
            },
            by_height: self.by_height.insert(payload.height, payload),
            pending: self.pending,
        }
    }

    /// The digest of the pending proposal.
    pub open spec fn pending_digest(self) -> Option<Digest> {
        match self.pending {
            Some(pending) => Some(pending.payload.digest),
            None => None,
        }
    }

    /// Whether some certified payload has the digest.
    pub open spec fn certified_digest(self, digest: Digest) -> bool {
        exists|height: Height| #[trigger]
            self.by_height.contains_key(height) && self.by_height[height].digest == digest
    }

    /// Whether the digest is that of the pending proposal or of a certified
    /// payload.
    pub open spec fn knows(self, digest: Digest) -> bool {
        self.pending_digest() == Some(digest) || self.certified_digest(digest)
    }
}

/// The acknowledgments that certify a proposal with the threshold: the
/// threshold, and one where the threshold is zero.
pub open spec fn acks_needed(threshold: nat) -> nat {
    if threshold == 0 {
        1
    } else {
        threshold
    }
}

/// The models of the payloads of a map.
spec fn models<P: Payload>(entries: Map<Height, P>) -> Map<Height, PayloadModel> {
    entries.map_values(|payload: P| payload.model())
}

/// Every payload of the map stands at its own height.
spec fn keyed_by_height<P: Payload>(entries: Map<Height, P>) -> bool {
    forall|height: Height| #[trigger]
        entries.contains_key(height) ==> entries[height].model().height == height
}

/// Puts the payload at its height, in place of the payload that stood
/// there.
fn store<P: Payload>(entries: &mut BTreeMap<Height, P>, payload: P)
    requires
        keyed_by_height(old(entries)@),
    ensures
        keyed_by_height(final(entries)@),
        models(final(entries)@) == models(old(entries)@).insert(
            payload.model().height,
            payload.model(),
        ),
{
    let height = payload.height();
    entries.insert(height, payload);
    assert(models(entries@) =~= models(old(entries)@).insert(height, payload.model()));
}

/// Finds a payload with the digest among the payloads of the map.
fn find_digest<P: Payload>(entries: &BTreeMap<Height, P>, digest: &Digest) -> (found: Option<P>)
    ensures
        match found {
            Some(payload) => {
                &&& payload.model().digest == *digest
                &&& exists|height: Height| #[trigger]
                    entries@.contains_key(height) && entries@[height].model() == payload.model()
            },
            None => forall|height: Height| #[trigger]
                entries@.contains_key(height) ==> entries@[height].model().digest != *digest,
        },
{
    let values = entries.values();
    let ghost all = IteratorSpec::remaining(&values);
    let ghost heights = choose|heights: Seq<Height>|
        #![trigger heights.to_set()]
        heights.to_set() == entries@.dom() && all.len() == heights.len() && forall|i: int|
            0 <= i < heights.len() ==> *(#[trigger] all[i]) == entries@[heights[i]];
    for payload in it: values
        invariant
            it.seq() == all,
            heights.to_set() == entries@.dom(),
            all.len() == heights.len(),
            forall|i: int| 0 <= i < heights.len() ==> *(#[trigger] all[i]) == entries@[heights[i]],
            forall|i: int| 0 <= i < it.index() ==> (#[trigger] all[i]).model().digest != *digest,
    {
        if payload.digest() == *digest {
            proof {
                let height = heights[it.index()];
                assert(heights.to_set().contains(height));
                assert(entries@.contains_key(height));
            }
            return Some(duplicate(payload));
        }
    }
    proof {
        assert forall|height: Height| #[trigger]
            entries@.contains_key(height) implies entries@[height].model().digest
            != *digest by {
            assert(heights.to_set().contains(height));
            let i = choose|i: int| 0 <= i < heights.len() && heights[i] == height;
            assert(*all[i] == entries@[height]);
        }
    }
    None
}

/// The ordering engine over payloads of type `P`; `K` is the type that
/// identifies sequencers.
pub struct PayloadAutomaton<P: Payload, K> {
    latest_certified: Option<P>,
    pending: Option<PendingPayload<P>>,
    by_height: BTreeMap<Height, P>,
    _key: PhantomData<K>,
}

impl<P: Payload, K> View for PayloadAutomaton<P, K> {
    type V = AutomatonModel;

    closed spec fn view(&self) -> AutomatonModel {
        AutomatonModel {
            latest: model_of(self.latest_certified),
            by_height: models(self.by_height@),
            pending: match self.pending {
                Some(pending) => Some(
                    PendingModel {
                        payload: pending.payload.model(),
                        acks: pending.acks as nat,
                        threshold: pending.threshold as nat,
                    },
                ),
                None => None,
            },
        }
    }
}

impl<P: Payload, K> PayloadAutomaton<P, K> {
    #[verifier::type_invariant]
    spec fn well_formed(&self) -> bool {
        &&& keyed_by_height(self.by_height@)
        &&& match self.latest_certified {
            Some(latest) => latest.model().height < u64::MAX,
            None => true,
        }
        &&& match self.pending {
            Some(pending) => {
                &&& pending.payload.model().height < u64::MAX
                &&& (pending.acks == 0 || pending.acks < pending.threshold)
            },
            None => true,
        }
    }

    /// Creates an automaton with an empty chain.
    pub fn new() -> (automaton: Self)
        ensures
            automaton@ == AutomatonModel::empty(),
    {
        let automaton = PayloadAutomaton {
            latest_certified: None,
            pending: None,
            by_height: BTreeMap::new(),
            _key: PhantomData,
        };
        assert(automaton@.by_height =~= Map::empty());
        automaton
    }

    /// Creates an automaton whose chain holds the genesis payload.
    pub fn with_genesis(genesis: P) -> (automaton: Self)
        requires
            genesis.model().height < u64::MAX,
        ensures
            automaton@ == AutomatonModel::from_genesis(genesis.model()),
    {
        let mut by_height: BTreeMap<Height, P> = BTreeMap::new();
        assert(models(by_height@) =~= Map::empty());
        store(&mut by_height, duplicate(&genesis));
        PayloadAutomaton {
            latest_certified: Some(genesis),
            pending: None,
            by_height,
            _key: PhantomData,
        }
    }

    /// Returns the latest certified payload.
    pub fn latest(&self) -> (latest: Option<P>)
        ensures
            model_of(latest) == self@.latest,
    {
        match &self.latest_certified {
            Some(latest) => Some(duplicate(latest)),
            None => None,
        }
    }

    /// Returns the expected next height.
    pub fn next_height(&self) -> (height: Height)
        ensures
            height == self@.next_height(),
    {
        proof {
            use_type_invariant(self);
        }
        match &self.latest_certified {
            Some(latest) => latest.height() + 1,
            None => 0,
        }
    }

    /// Returns the certified payload at a height.
    pub fn get_by_height(&self, height: Height) -> (payload: Option<P>)
        ensures
            model_of(payload) == self@.by_height.get(height),
    {
        proof {
            use_type_invariant(self);
        }
        match self.by_height.get(&height) {
            Some(payload) => Some(duplicate(payload)),
            None => None,
        }
    }

    /// Makes the payload the pending proposal, in place of an earlier one
    /// and of the acknowledgments it had, and returns the digest to
    /// broadcast. The payload is not validated here.
    pub fn submit_proposal(&mut self, payload: P, threshold: usize) -> (digest: Digest)
        requires
            payload.model().height < u64::MAX,
        ensures
            final(self)@ == old(self)@.submit(payload.model(), threshold as nat),
            digest == payload.model().digest,
    {
        proof {
            use_type_invariant(&*self);
        }
        let digest = payload.digest();
        self.pending = Some(PendingPayload::new(payload, threshold));
        digest
    }

    /// Records an acknowledgment for the pending proposal. Returns the
    /// payload if this acknowledgment certified it; the payload is then the
    /// latest, stands at its height, and nothing is pending.
    pub fn acknowledge(&mut self) -> (certified: Option<P>)
        ensures
            final(self)@ == old(self)@.acknowledge(),
            model_of(certified) == old(self)@.certified_by_next_ack(),
    {
        let mut state = PayloadAutomaton::new();
        core::mem::swap(self, &mut state);
        proof {
            use_type_invariant(&state);
        }
        let PayloadAutomaton { latest_certified, pending, mut by_height, _key } = state;
        match pending {
            Some(mut pending) => {
                pending.acknowledge();
                if pending.is_certified() {
                    let payload = pending.payload;
                    store(&mut by_height, duplicate(&payload));
                    *self = PayloadAutomaton {
                        latest_certified: Some(duplicate(&payload)),
                        pending: None,
                        by_height,
                        _key,
                    };
                    Some(payload)
                } else {
                    *self = PayloadAutomaton {
                        latest_certified,
                        pending: Some(pending),
                        by_height,
                        _key,
                    };
                    None
                }
            },
            None => {
                *self = PayloadAutomaton { latest_certified, pending: None, by_height, _key };
                None
            },
        }
    }

    /// Certifies a payload directly, as a validator does with a payload that
    /// was certified elsewhere. The pending proposal is left as it is.
    pub fn certify(&mut self, payload: P)
        requires
            payload.model().height < u64::MAX,
        ensures
            final(self)@ == old(self)@.certify(payload.model()),
    {
        let mut state = PayloadAutomaton::new();
        core::mem::swap(self, &mut state);
        proof {
            use_type_invariant(&state);
        }
        let PayloadAutomaton { latest_certified, pending, mut by_height, _key } = state;
        store(&mut by_height, duplicate(&payload));
        let advances = match &latest_certified {
            Some(latest) => payload.height() > latest.height(),
            None => true,
        };
        *self = PayloadAutomaton {
            latest_certified: if advances {
                Some(payload)
            } else {
                latest_certified
            },
            pending,
            by_height,
            _key,
        };
    }

    /// Checks the two ordering invariants: sequential height and parent
    /// continuity.
    pub fn validate(&self, payload: &P) -> (valid: bool)
        ensures
            valid == self@.accepts(payload.model()),
    {
        proof {
            use_type_invariant(self);
        }
        if payload.height() != self.next_height() {
            return false;
        }
        match payload.parent() {
            Some(parent) => match &self.latest_certified {
                Some(latest) => latest.digest() == parent,
                None => false,
            },
            None => true,
        }
    }

    /// The digest that the chain starts from: that of the latest certified
    /// payload, or the empty digest where there is none.
    pub fn genesis(&self, epoch: Epoch) -> (digest: Digest)
        ensures
            match self@.latest {
                Some(latest) => digest == latest.digest,
                None => digest@ == Seq::new(32, |i: int| 0u8),
            },
    {
        match &self.latest_certified {
            Some(latest) => latest.digest(),
            None => Digest::empty(),
        }
    }

    /// The digest to propose in this round: that of the pending proposal,
    /// or `None` where nothing is pending.
    pub fn propose(&self, context: PayloadContext<K>) -> (digest: Option<Digest>)
        ensures
            digest == self@.pending_digest(),
    {
        match &self.pending {
            Some(pending) => Some(pending.payload.digest()),
            None => None,
        }
    }

    /// Whether the digest is that of the pending proposal or of a certified
    /// payload.
    pub fn verify(&self, context: PayloadContext<K>, digest: Digest) -> (known: bool)
        ensures
            known == self@.knows(digest),
    {
        proof {
            use_type_invariant(self);
        }
        let pending_matches = match &self.pending {
            Some(pending) => pending.payload.digest() == digest,
            None => false,
        };
        if pending_matches {
            return true;
        }
        match find_digest(&self.by_height, &digest) {
            Some(found) => {
                proof {
                    let height = choose|height: Height| #[trigger]
                        self.by_height@.contains_key(height) && self.by_height@[height].model()
                            == found.model();
                    assert(self@.by_height.contains_key(height));
                }
                true
            },
            None => {
                proof {
                    assert forall|height: Height| #[trigger]
                        self@.by_height.contains_key(height) implies self@.by_height[height].digest
                        != digest by {
                        assert(self.by_height@.contains_key(height));
                    }
                }
                false
            },
        }
    }
}

/// The reason with which the automaton refuses to store a payload at the
/// greatest height, above which no height is left for the next payload.
pub open spec fn height_exhausted_reason() -> Seq<char> {
    "height out of range"@
}

/// The automaton as a store of certified payloads: its contents are the
/// certified payloads by height, and storing certifies directly.
impl<P: Payload, K> PayloadStore<P> for PayloadAutomaton<P, K> {
    open spec fn model(&self) -> StoreModel {
        StoreModel { contents: self@.by_height, newest: self@.latest }
    }

    fn store(&mut self, payload: &P) -> (outcome: Result<(), StoreError>)
        ensures
            payload.model().height < u64::MAX ==> outcome is Ok && final(self)@ == old(
                self,
            )@.certify(payload.model()),
            payload.model().height == u64::MAX ==> final(self)@ == old(self)@,
            payload.model().height == u64::MAX ==> (match outcome {
                Err(StoreError::Backend(reason)) => reason@ == height_exhausted_reason(),
                _ => false,
            }),
    {
        if payload.height() == u64::MAX {
            return Err(StoreError::Backend(String::from_str("height out of range")));
        }
        self.certify(duplicate(payload));
        Ok(())
    }

    fn get(&self, digest: &Digest) -> (payload: Option<P>) {
        proof {
            use_type_invariant(self);
        }
        match find_digest(&self.by_height, digest) {
            Some(found) => {
                proof {
                    let height = choose|height: Height| #[trigger]
                        self.by_height@.contains_key(height) && self.by_height@[height].model()
                            == found.model();
                    assert(self@.by_height.contains_key(height));
                    assert(found.model().height == height);
                }
                Some(found)
            },
            None => {
                proof {
                    assert forall|height: Height| #[trigger]
                        self@.by_height.contains_key(height) implies self@.by_height[height].digest
                        != *digest by {
                        assert(self.by_height@.contains_key(height));
                    }
                }
                None
            },
        }
    }

    fn get_by_height(&self, height: Height) -> (payload: Option<P>) {
        PayloadAutomaton::get_by_height(self, height)
    }

    fn latest(&self) -> (payload: Option<P>) {
        PayloadAutomaton::latest(self)
    }
}

} // verus!
