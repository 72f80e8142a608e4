//! Round-robin rotation: the sequencer of an epoch is the participant whose
//! place in the list is the epoch modulo the number of participants.

use crate::keys::{copy_keys, PublicKey};
use crate::traits::{EpochManager, ManagerModel};
use crate::types::{step_emits, Epoch, EpochChange, TransferError};
use vstd::prelude::*;

verus! {

/// The place in a list of `count` participants whose turn it is in `epoch`.
pub open spec fn turn(epoch: Epoch, count: nat) -> int
    recommends
        count > 0,
{
    epoch as int % count as int
}

/// The sequencer of an epoch under rotation: `participants[epoch mod n]`,
/// or none where there are no participants.
pub open spec fn rotating_sequencer(participants: Seq<PublicKey>, epoch: Epoch) -> Option<
    PublicKey,
> {
    if participants.len() == 0 {
        None
    } else {
        Some(participants[turn(epoch, participants.len())])
    }
}

/// The place of the first participant with the key, or zero where there is
/// none.
pub open spec fn place_of(participants: Seq<PublicKey>, key: PublicKey) -> int {
    if participants.contains(key) {
        participants.index_of_first(key).unwrap()
    } else {
        0
    }
}

/// The simple majority of `count` participants: `count / 2 + 1`.
pub open spec fn majority(count: nat) -> nat {
    count / 2 + 1
}

/// Finds the place of the first participant with the key.
fn first_place(participants: &Vec<PublicKey>, key: &PublicKey) -> (place: Option<usize>)
    ensures
        match place {
            Some(index) => participants@.contains(*key) && index == place_of(participants@, *key),
            None => !participants@.contains(*key),
        },
{
    let mut place: Option<usize> = None;
    let mut i: usize = participants.len();
    while i > 0
        invariant
            i <= participants.len(),
            match place {
                Some(index) => {
                    &&& i <= index < participants.len()
                    &&& participants[index as int] == *key
                    &&& forall|k: int| i <= k < index ==> participants[k] != *key
                },
                None => forall|k: int| i <= k < participants.len() ==> participants[k] != *key,
            },
        decreases i,
    {
        i = i - 1;
        if participants[i] == *key {
            place = Some(i);
        }
    }
    proof {
        participants@.index_of_first_ensures(*key);
        match place {
            Some(index) => {
                assert(participants@.contains(*key));
                let first = participants@.index_of_first(*key).unwrap();
                if first < index {
                    assert(participants[first] != *key);
                } else if first > index {
                    assert(participants[index as int] != *key);
                }
            },
            None => {
                assert(!participants@.contains(*key));
            },
        }
    }
    place
}

/// The epoch and whose turn it is.
#[derive(Clone, Copy, Debug)]
struct Rotation {
    epoch: Epoch,
    sequencer_idx: usize,
}

/// Epoch manager that rotates the sequencer role among the participants.
#[derive(Debug)]
pub struct RoundRobinEpochManager {
    participants: Vec<PublicKey>,
    self_key: PublicKey,
    self_idx: usize,
    state: Rotation,
}

impl RoundRobinEpochManager {
    #[verifier::type_invariant]
    spec fn well_formed(&self) -> bool {
        &&& self.self_idx == place_of(self.participants@, self.self_key)
        &&& self.participants.len() > 0 ==> self.state.sequencer_idx == turn(
            self.state.epoch,
            self.participants@.len(),
        )
        &&& self.participants.len() == 0 ==> self.state.sequencer_idx == 0
    }

    /// The participants, in their order.
    pub closed spec fn participants(&self) -> Seq<PublicKey> {
        self.participants@
    }

    /// The key of the local node.
    pub closed spec fn own_key(&self) -> PublicKey {
        self.self_key
    }

    /// The current epoch.
    pub closed spec fn epoch(&self) -> Epoch {
        self.state.epoch
    }

    /// The place of the local node among the participants.
    pub open spec fn own_place(&self) -> int {
        place_of(self.participants(), self.own_key())
    }

    /// The place of the current sequencer among the participants.
    pub open spec fn sequencer_place(&self) -> int {
        if self.participants().len() == 0 {
            0
        } else {
            turn(self.epoch(), self.participants().len())
        }
    }

    /// Creates a manager in epoch zero. The local node's place is that of
    /// the first participant with its key, or zero where it is not listed.
    pub fn new(participants: Vec<PublicKey>, self_key: PublicKey) -> (manager: Self)
        ensures
            manager.participants() == participants@,
            manager.own_key() == self_key,
            manager.epoch() == 0,
    {
        let self_idx = match first_place(&participants, &self_key) {
            Some(place) => place,
            None => 0,
        };
        RoundRobinEpochManager {
            participants,
            self_key,
            self_idx,
            state: Rotation { epoch: 0, sequencer_idx: 0 },
        }
    }

    /// Advances to the next epoch and returns the change to announce: the
    /// new epoch, the participant whose turn it is, and whether that is the
    /// local node.
    pub fn advance_epoch(&mut self) -> (change: EpochChange<PublicKey>)
        requires
            old(self).participants().len() > 0,
            old(self).epoch() < u64::MAX,
        ensures
            final(self).participants() == old(self).participants(),
            final(self).own_key() == old(self).own_key(),
            step_emits(old(self).epoch(), final(self).epoch(), Some(change.epoch)),
            Some(change.sequencer) == rotating_sequencer(final(self).participants(), change.epoch),
            change.is_self == (final(self).sequencer_place() == final(self).own_place()),
    {
        proof {
            use_type_invariant(&*self);
        }
        let epoch = self.state.epoch + 1;
        let count = self.participants.len();
        let sequencer_idx = (epoch % (count as u64)) as usize;
        self.state = Rotation { epoch, sequencer_idx };
        EpochChange {
            epoch,
            sequencer: self.participants[sequencer_idx],
            is_self: sequencer_idx == self.self_idx,
        }
    }

    /// Returns the current sequencer index.
    pub fn current_sequencer_idx(&self) -> (index: usize)
        ensures
            index == self.sequencer_place(),
    {
        proof {
            use_type_invariant(self);
        }
        self.state.sequencer_idx
    }

    /// Returns the number of participants.
    pub fn participant_count(&self) -> (count: usize)
        ensures
            count == self.participants().len(),
    {
        self.participants.len()
    }

    /// Returns this node's index.
    pub fn self_index(&self) -> (index: usize)
        ensures
            index == self.own_place(),
    {
        proof {
            use_type_invariant(self);
        }
        self.self_idx
    }
}

impl Clone for RoundRobinEpochManager {
    fn clone(&self) -> (copy: Self)
        ensures
            copy.participants() == self.participants(),
            copy.own_key() == self.own_key(),
            copy.epoch() == self.epoch(),
    {
        proof {
            use_type_invariant(self);
        }
        RoundRobinEpochManager {
            participants: copy_keys(&self.participants),
            self_key: self.self_key,
            self_idx: self.self_idx,
            state: self.state,
        }
    }
}

impl EpochManager for RoundRobinEpochManager {
    type PublicKey = PublicKey;

    open spec fn model(&self) -> ManagerModel<PublicKey> {
        ManagerModel {
            epoch: self.epoch(),
            sequencer: |epoch: Epoch| rotating_sequencer(self.participants(), epoch),
            leads: |key: PublicKey|
                rotating_sequencer(self.participants(), self.epoch()) == Some(key),
            validators: |epoch: Epoch| Some(self.participants()),
            threshold: |epoch: Epoch| Some(majority(self.participants().len()) as usize),
        }
    }

    fn current_epoch(&self) -> (epoch: Epoch)
        ensures
            epoch == self.epoch(),
    {
        self.state.epoch
    }

    fn sequencer(&self, epoch: Epoch) -> (sequencer: Option<PublicKey>)
        ensures
            sequencer == rotating_sequencer(self.participants(), epoch),
    {
        let count = self.participants.len();
        if count == 0 {
            None
        } else {
            Some(self.participants[(epoch % (count as u64)) as usize])
        }
    }

    fn is_sequencer(&self, key: &PublicKey) -> (leads: bool)
        ensures
            leads == (rotating_sequencer(self.participants(), self.epoch()) == Some(*key)),
    {
        proof {
            use_type_invariant(self);
        }
        if self.state.sequencer_idx < self.participants.len() {
            self.participants[self.state.sequencer_idx] == *key
        } else {
            false
        }
    }

    fn transfer_leader(&self) -> (outcome: Result<(), TransferError>)
        ensures
            outcome == Err::<(), TransferError>(TransferError::NotSupported),
    {
        Err(TransferError::NotSupported)
    }

    fn validators(&self, epoch: Epoch) -> (validators: Option<Vec<PublicKey>>)
        ensures
            validators is Some,
            validators.unwrap()@ == self.participants(),
    {
        Some(copy_keys(&self.participants))
    }

    fn quorum_threshold(&self, epoch: Epoch) -> (threshold: Option<usize>)
        ensures
            threshold == Some(majority(self.participants().len()) as usize),
    {
        Some(self.participants.len() / 2 + 1)
    }
}

} // verus!
