//! Providers that project an epoch manager into the sets that an ordered
//! broadcast consumes: the sequencers of each epoch, the validators and the
//! quorum.

use crate::keys::PublicKey;
use crate::ordering::{bytes_before, lemma_before_irreflexive};
use crate::traits::EpochManager;
use crate::types::Epoch;
use std::collections::HashMap;
use std::sync::Arc;
use vstd::prelude::*;

verus! {

broadcast use vstd::std_specs::hash::group_hash_axioms;

/// The ordered, deduplicated collection of `commonware_utils`.
#[verifier::external_type_specification]
#[verifier::external_body]
#[verifier::reject_recursive_types(T)]
pub struct ExOrderedSet<T>(commonware_utils::ordered::Set<T>);

/// The items of an ordered set of raw keys, in the order in which the set
/// holds them.
pub uninterp spec fn set_items(set: commonware_utils::ordered::Set<[u8; 32]>) -> Seq<Seq<u8>>;

/// The raw bytes of each key.
pub open spec fn key_bytes(keys: Seq<PublicKey>) -> Seq<Seq<u8>> {
    keys.map_values(|key: PublicKey| key@)
}

/// Each item comes strictly before the next ones: the items are sorted and
/// none occurs twice.
pub open spec fn strictly_ascending(items: Seq<Seq<u8>>) -> bool {
    forall|i: int, j: int| 0 <= i < j < items.len() ==> bytes_before(items[i], items[j])
}

/// Whether `items` are the members, sorted and without duplicates.
pub open spec fn is_set_of(items: Seq<Seq<u8>>, members: Seq<Seq<u8>>) -> bool {
    &&& strictly_ascending(items)
    &&& items.to_set() == members.to_set()
}

/// Calls `Set::from_iter_dedup` of `commonware_utils::ordered`, which
/// collects the items, sorts them and drops the duplicates. Arrays of bytes
/// are ordered lexicographically, so the set holds the given keys in
/// strictly ascending order.
#[verifier::external_body]
fn ordered_set(keys: Vec<[u8; 32]>) -> (set: commonware_utils::ordered::Set<[u8; 32]>)
    ensures
        is_set_of(set_items(set), keys@.map_values(|key: [u8; 32]| key@)),
{
    commonware_utils::ordered::Set::from_iter_dedup(keys)
}

/// Makes another pointer to the same set with `Arc::clone` of std.
#[verifier::external_body]
fn share(set: &Arc<commonware_utils::ordered::Set<[u8; 32]>>) -> (shared: Arc<
    commonware_utils::ordered::Set<[u8; 32]>,
>)
    ensures
        shared == *set,
{
    Arc::clone(set)
}

/// Builds the ordered set of the keys.
pub fn set_of_keys(keys: &Vec<PublicKey>) -> (set: commonware_utils::ordered::Set<[u8; 32]>)
    ensures
        is_set_of(set_items(set), key_bytes(keys@)),
{
    let mut raw: Vec<[u8; 32]> = Vec::new();
    let mut i: usize = 0;
    while i < keys.len()
        invariant
            i <= keys.len(),
            raw.len() == i,
            forall|k: int| 0 <= k < i ==> raw[k] == keys[k].bytes,
        decreases keys.len() - i,
    {
        raw.push(keys[i].bytes);
        i = i + 1;
    }
    assert(raw@.map_values(|key: [u8; 32]| key@) =~= key_bytes(keys@));
    ordered_set(raw)
}

/// The set of a single key holds that key and nothing else.
pub proof fn lemma_set_of_one(items: Seq<Seq<u8>>, key: Seq<u8>)
    requires
        is_set_of(items, seq![key]),
    ensures
        items == seq![key],
{
    let members = seq![key];
    assert(members[0] == key);
    assert(members.contains(key));
    assert(members.to_set().contains(key));
    assert(items.to_set().contains(key));
    assert(items.contains(key));
    assert(items.len() > 0);
    assert forall|i: int| 0 <= i < items.len() implies items[i] == key by {
        assert(items.contains(items[i]));
        assert(items.to_set().contains(items[i]));
        assert(members.to_set().contains(items[i]));
        assert(members.contains(items[i]));
    }
    if items.len() >= 2 {
        assert(bytes_before(items[0], items[1]));
        lemma_before_irreflexive(key);
    }
    assert(items =~= seq![key]);
}

/// A sequencers provider backed by an epoch manager: the sequencers of an
/// epoch are the one sequencer that the manager gives for it.
pub struct EpochSequencersProvider<E: EpochManager<PublicKey = PublicKey>> {
    epoch_manager: E,
}

impl<E: EpochManager<PublicKey = PublicKey>> EpochSequencersProvider<E> {
    /// The epoch manager behind the provider.
    pub closed spec fn manager(&self) -> E {
        self.epoch_manager
    }

    /// Creates a new sequencers provider from an epoch manager.
    pub fn new(epoch_manager: E) -> (provider: Self)
        ensures
            provider.manager() == epoch_manager,
    {
        EpochSequencersProvider { epoch_manager }
    }

    /// The sequencers of an epoch: the set of the one sequencer that the
    /// manager gives, or `None` where it gives none.
    pub fn sequencers(&self, epoch: Epoch) -> (sequencers: Option<
        Arc<commonware_utils::ordered::Set<[u8; 32]>>,
    >)
        ensures
            match (self.manager().model().sequencer)(epoch) {
                Some(sequencer) => sequencers is Some && set_items(*sequencers.unwrap())
                    == seq![sequencer@],
                None => sequencers is None,
            },
    {
        match self.epoch_manager.sequencer(epoch) {
            Some(sequencer) => {
                let mut keys: Vec<PublicKey> = Vec::new();
                keys.push(sequencer);
                let set = set_of_keys(&keys);
                proof {
                    assert(key_bytes(keys@) =~= seq![sequencer@]);
                    lemma_set_of_one(set_items(set), sequencer@);
                }
                Some(Arc::new(set))
            },
            None => None,
        }
    }
}

/// The sequencers that the last entry for the epoch lists, if there is an
/// entry for it.
pub open spec fn last_entry(entries: Seq<(Epoch, Seq<PublicKey>)>, epoch: Epoch) -> Option<
    Seq<PublicKey>,
>
    decreases entries.len(),
{
    if entries.len() == 0 {
        None
    } else if entries.last().0 == epoch {
        Some(entries.last().1)
    } else {
        last_entry(entries.drop_last(), epoch)
    }
}

/// The entries with each list of keys as a sequence.
pub open spec fn entries_of(entries: Seq<(Epoch, Vec<PublicKey>)>) -> Seq<(Epoch, Seq<PublicKey>)> {
    entries.map_values(|entry: (Epoch, Vec<PublicKey>)| (entry.0, entry.1@))
}

/// The first epoch for which a provider of a single sequencer has no set.
pub const SINGLE_EPOCHS: u64 = 1000;

/// A sequencers provider with a fixed set of sequencers per epoch.
pub struct StaticSequencersProvider {
    epochs: HashMap<Epoch, Arc<commonware_utils::ordered::Set<[u8; 32]>>>,
}

impl StaticSequencersProvider {
    /// The sequencers of each epoch that the provider knows, sorted and
    /// without duplicates.
    pub closed spec fn table(&self) -> Map<Epoch, Seq<Seq<u8>>> {
        self.epochs@.map_values(
            |set: Arc<commonware_utils::ordered::Set<[u8; 32]>>| set_items(*set),
        )
    }

    /// Creates a provider from entries of an epoch and its sequencers. Of
    /// two entries for one epoch the later one counts.
    pub fn new(epochs: Vec<(Epoch, Vec<PublicKey>)>) -> (provider: Self)
        ensures
            forall|epoch: Epoch|
                match #[trigger] last_entry(entries_of(epochs@), epoch) {
                    Some(keys) => provider.table().contains_key(epoch) && is_set_of(
                        provider.table()[epoch],
                        key_bytes(keys),
                    ),
                    None => !provider.table().contains_key(epoch),
                },
    {
        let mut table: HashMap<Epoch, Arc<commonware_utils::ordered::Set<[u8; 32]>>> =
            HashMap::new();
        let ghost all = entries_of(epochs@);
        let mut i: usize = 0;
        while i < epochs.len()
            invariant
                i <= epochs.len(),
                all == entries_of(epochs@),
                forall|epoch: Epoch|
                    match #[trigger] last_entry(all.take(i as int), epoch) {
                        Some(keys) => table@.contains_key(epoch) && is_set_of(
                            set_items(*table@[epoch]),
                            key_bytes(keys),
                        ),
                        None => !table@.contains_key(epoch),
                    },
            decreases epochs.len() - i,
        {
            let epoch = epochs[i].0;
            let set = set_of_keys(&epochs[i].1);
            let ghost before = table@;
            table.insert(epoch, Arc::new(set));
            proof {
                let shorter = all.take(i as int);
                let longer = all.take(i + 1);
                assert(longer.drop_last() =~= shorter);
                assert(longer.last() == all[i as int]);
                assert(all[i as int] == (epochs[i as int].0, epochs[i as int].1@));
                assert forall|other: Epoch|
                    match #[trigger] last_entry(longer, other) {
                        Some(keys) => table@.contains_key(other) && is_set_of(
                            set_items(*table@[other]),
                            key_bytes(keys),
                        ),
                        None => !table@.contains_key(other),
                    } by {
                    if other != epoch {
                        assert(last_entry(longer, other) == last_entry(shorter, other));
                    }
                }
            }
            i = i + 1;
        }
        proof {
            assert(all.take(epochs.len() as int) =~= all);
        }
        StaticSequencersProvider { epochs: table }
    }

    /// Creates a provider with the same single sequencer for every epoch
    /// below `SINGLE_EPOCHS`, and no sequencers from there on.
    pub fn single(sequencer: PublicKey) -> (provider: Self)
        ensures
            forall|epoch: Epoch|
                provider.table().contains_key(epoch) <==> epoch < SINGLE_EPOCHS,
            forall|epoch: Epoch|
                epoch < SINGLE_EPOCHS ==> #[trigger] provider.table()[epoch] == seq![sequencer@],
    {
        let mut table: HashMap<Epoch, Arc<commonware_utils::ordered::Set<[u8; 32]>>> =
            HashMap::new();
        let mut epoch: u64 = 0;
        while epoch < SINGLE_EPOCHS
            invariant
                epoch <= SINGLE_EPOCHS,
                forall|e: Epoch| table@.contains_key(e) <==> e < epoch,
                forall|e: Epoch| e < epoch ==> set_items(*#[trigger] table@[e]) == seq![sequencer@],
            decreases SINGLE_EPOCHS - epoch,
        {
            let mut keys: Vec<PublicKey> = Vec::new();
            keys.push(sequencer);
            let set = set_of_keys(&keys);
            proof {
                assert(key_bytes(keys@) =~= seq![sequencer@]);
                lemma_set_of_one(set_items(set), sequencer@);
            }
            table.insert(epoch, Arc::new(set));
            epoch = epoch + 1;
        }
        StaticSequencersProvider { epochs: table }
    }

    /// The sequencers of an epoch, or `None` where the provider knows none
    /// for it.
    pub fn sequencers(&self, epoch: Epoch) -> (sequencers: Option<
        Arc<commonware_utils::ordered::Set<[u8; 32]>>,
    >)
        ensures
            match sequencers {
                Some(set) => self.table().contains_key(epoch) && set_items(*set)
                    == self.table()[epoch],
                None => !self.table().contains_key(epoch),
            },
    {
        match self.epochs.get(&epoch) {
            Some(set) => Some(share(set)),
            None => None,
        }
    }
}

/// A validators provider backed by an epoch manager.
pub struct ValidatorsProvider<E: EpochManager<PublicKey = PublicKey>> {
    epoch_manager: E,
}

impl<E: EpochManager<PublicKey = PublicKey>> ValidatorsProvider<E> {
    /// The epoch manager behind the provider.
    pub closed spec fn manager(&self) -> E {
        self.epoch_manager
    }

    /// Creates a new validators provider from an epoch manager.
    pub fn new(epoch_manager: E) -> (provider: Self)
        ensures
            provider.manager() == epoch_manager,
    {
        ValidatorsProvider { epoch_manager }
    }

    /// Returns the validator set for an epoch, as the manager gives it.
    pub fn validators(&self, epoch: Epoch) -> (validators: Option<Vec<PublicKey>>)
        ensures
            match validators {
                Some(keys) => (self.manager().model().validators)(epoch) == Some(keys@),
                None => (self.manager().model().validators)(epoch).is_none(),
            },
    {
        self.epoch_manager.validators(epoch)
    }

    /// Returns the quorum threshold for an epoch, as the manager gives it.
    pub fn quorum_threshold(&self, epoch: Epoch) -> (threshold: Option<usize>)
        ensures
            threshold == (self.manager().model().threshold)(epoch),
    {
        self.epoch_manager.quorum_threshold(epoch)
    }
}

} // verus!
