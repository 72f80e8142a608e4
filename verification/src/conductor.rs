//! The conductor: the single entry point that ties the automaton to an
//! epoch manager and a signer, and gates writes on the sequencer role.

use crate::automaton::{AutomatonModel, PayloadAutomaton};
use crate::traits::{model_of, EpochManager, Payload, PayloadModel};
use crate::types::{ConductorError, Epoch, EpochChange, Height, TransferError};
use vstd::prelude::*;
use vstd::string::*;

verus! {

/// Configuration for the conductor.
#[derive(Debug, Clone)]
pub struct ConductorConfig {
    /// Number of acknowledgments required for certification, used where the
    /// epoch manager gives none.
    pub quorum_threshold: usize,
}

impl Default for ConductorConfig {
    fn default() -> (config: Self)
        ensures
            config.quorum_threshold == 1,
    {
        ConductorConfig { quorum_threshold: 1 }
    }
}

/// The state of a conductor: its own record and the chain it owns.
pub ghost struct ConductorModel {
    /// Whether the conductor is running.
    pub running: bool,
    /// The epoch the conductor is in.
    pub current_epoch: Epoch,
    /// Whether the local node is the sequencer.
    pub is_sequencer: bool,
    /// The chain.
    pub chain: AutomatonModel,
}

impl ConductorModel {
    /// The state of a conductor that was just made over a chain: not
    /// running, in epoch zero, not the sequencer.
    pub open spec fn initial(chain: AutomatonModel) -> ConductorModel {
        ConductorModel { running: false, current_epoch: 0, is_sequencer: false, chain }
    }

    /// The state after an epoch change was handled.
    pub open spec fn after_epoch_change(self, epoch: Epoch, is_self: bool) -> ConductorModel {
        ConductorModel { current_epoch: epoch, is_sequencer: is_self, ..self }
    }

    /// The state after the conductor stopped: the chain is kept.
    pub open spec fn stopped(self) -> ConductorModel {
        ConductorModel { running: false, ..self }
    }

    /// Whether a commit of the payload is accepted: the node is the
    /// sequencer and the chain accepts the payload.
    pub open spec fn accepts_commit(self, payload: PayloadModel) -> bool {
        self.is_sequencer && self.chain.accepts(payload)
    }

    /// The state after an accepted commit that needs `threshold`
    /// acknowledgments.
    pub open spec fn committed(self, payload: PayloadModel, threshold: nat) -> ConductorModel {
        ConductorModel { chain: self.chain.submit(payload, threshold), ..self }
    }
}

/// The reason given when a payload names a parent that is not the latest
/// certified payload.
pub open spec fn parent_mismatch_reason() -> Seq<char> {
    "parent digest mismatch"@
}

/// The orchestrator over a payload type `P`, an epoch manager `E` and a
/// signer `S`.
pub struct Conductor<P: Payload, E: EpochManager, S> {
    config: ConductorConfig,
    automaton: PayloadAutomaton<P, E::PublicKey>,
    epoch_manager: E,
    signer: S,
    running: bool,
    current_epoch: Epoch,
    is_sequencer: bool,
}

impl<P: Payload, E: EpochManager, S> View for Conductor<P, E, S> {
    type V = ConductorModel;

    closed spec fn view(&self) -> ConductorModel {
        ConductorModel {
            running: self.running,
            current_epoch: self.current_epoch,
            is_sequencer: self.is_sequencer,
            chain: self.automaton@,
        }
    }
}

impl<P: Payload, E: EpochManager, S> Conductor<P, E, S> {
    /// The epoch manager of the conductor.
    pub closed spec fn manager(&self) -> E {
        self.epoch_manager
    }

    /// The signer of the conductor.
    pub closed spec fn signing_key(&self) -> S {
        self.signer
    }

    /// The threshold that the configuration gives.
    pub closed spec fn configured_threshold(&self) -> usize {
        self.config.quorum_threshold
    }

    /// The automaton of the conductor.
    pub closed spec fn engine(&self) -> PayloadAutomaton<P, E::PublicKey> {
        self.automaton
    }

    /// The acknowledgments that a commit asks for: what the epoch manager
    /// gives for the current epoch, else what the configuration gives.
    pub open spec fn commit_threshold(&self) -> usize {
        match (self.manager().model().threshold)(self@.current_epoch) {
            Some(threshold) => threshold,
            None => self.configured_threshold(),
        }
    }

    /// The manager, the signer and the configuration are those of `other`.
    pub open spec fn same_parts(&self, other: &Self) -> bool {
        &&& self.manager() == other.manager()
        &&& self.signing_key() == other.signing_key()
        &&& self.configured_threshold() == other.configured_threshold()
    }

    /// Creates a conductor with an empty chain.
    pub fn new(config: ConductorConfig, epoch_manager: E, signer: S) -> (conductor: Self)
        ensures
            conductor@ == ConductorModel::initial(AutomatonModel::empty()),
            conductor.manager() == epoch_manager,
            conductor.signing_key() == signer,
            conductor.configured_threshold() == config.quorum_threshold,
    {
        Conductor {
            config,
            automaton: PayloadAutomaton::new(),
            epoch_manager,
            signer,
            running: false,
            current_epoch: 0,
            is_sequencer: false,
        }
    }

    /// Creates a conductor whose chain holds a genesis payload.
    pub fn with_genesis(config: ConductorConfig, epoch_manager: E, signer: S, genesis: P) -> (conductor:
        Self)
        requires
            genesis.model().height < u64::MAX,
        ensures
            conductor@ == ConductorModel::initial(AutomatonModel::from_genesis(genesis.model())),
            conductor.manager() == epoch_manager,
            conductor.signing_key() == signer,
            conductor.configured_threshold() == config.quorum_threshold,
    {
        Conductor {
            config,
            automaton: PayloadAutomaton::with_genesis(genesis),
            epoch_manager,
            signer,
            running: false,
            current_epoch: 0,
            is_sequencer: false,
        }
    }

    /// Returns whether the local node is currently the sequencer.
    pub fn leader(&self) -> (leader: bool)
        ensures
            leader == self@.is_sequencer,
    {
        self.is_sequencer
    }

    /// Commits a payload: checks the role, validates the payload against
    /// the chain, and makes it the pending proposal.
    ///
    /// The commit is accepted exactly when the node is the sequencer and the
    /// chain accepts the payload. Otherwise the conductor stays as it was
    /// and the error says which check failed first: the role, the height,
    /// the parent. A payload that would be accepted must leave a height for
    /// its successor.
    pub fn commit(&mut self, payload: P) -> (outcome: Result<(), ConductorError>)
        requires
            old(self)@.accepts_commit(payload.model()) ==> payload.model().height < u64::MAX,
        ensures
            final(self).same_parts(old(self)),
            match outcome {
                Ok(()) => {
                    &&& old(self)@.accepts_commit(payload.model())
                    &&& final(self)@ == old(self)@.committed(
                        payload.model(),
                        old(self).commit_threshold() as nat,
                    )
                },
                Err(ConductorError::NotSequencer) => {
                    &&& !old(self)@.is_sequencer
                    &&& final(self)@ == old(self)@
                },
                Err(ConductorError::InvalidHeight { expected, got }) => {
                    &&& old(self)@.is_sequencer
                    &&& !old(self)@.chain.height_follows(payload.model())
                    &&& expected == old(self)@.chain.next_height()
                    &&& got == payload.model().height
                    &&& final(self)@ == old(self)@
                },
                Err(ConductorError::ValidationFailed(reason)) => {
                    &&& old(self)@.is_sequencer
                    &&& old(self)@.chain.height_follows(payload.model())
                    &&& !old(self)@.chain.parent_follows(payload.model())
                    &&& reason@ == parent_mismatch_reason()
                    &&& final(self)@ == old(self)@
                },
                Err(_) => false,
            },
    {
        if !self.is_sequencer {
            return Err(ConductorError::NotSequencer);
        }
        if !self.automaton.validate(&payload) {
            let expected = self.automaton.next_height();
            let got = payload.height();
            if expected != got {
                return Err(ConductorError::InvalidHeight { expected, got });
            }
            return Err(ConductorError::ValidationFailed(String::from_str("parent digest mismatch")));
        }
        let threshold = match self.epoch_manager.quorum_threshold(self.current_epoch) {
            Some(threshold) => threshold,
            None => self.config.quorum_threshold,
        };
        let _digest = self.automaton.submit_proposal(payload, threshold);
        Ok(())
    }

    /// Returns the latest certified payload.
    pub fn latest(&self) -> (latest: Option<P>)
        ensures
            model_of(latest) == self@.chain.latest,
    {
        self.automaton.latest()
    }

    /// Returns a certified payload by height.
    pub fn get_by_height(&self, height: Height) -> (payload: Option<P>)
        ensures
            model_of(payload) == self@.chain.by_height.get(height),
    {
        self.automaton.get_by_height(height)
    }

    /// Returns the expected next height.
    pub fn next_height(&self) -> (height: Height)
        ensures
            height == self@.chain.next_height(),
    {
        self.automaton.next_height()
    }

    /// Requests a leadership transfer from the epoch manager and returns
    /// what the manager returned.
    pub fn transfer_leader(&self) -> (outcome: Result<(), TransferError>)
        ensures
            call_ensures(E::transfer_leader, (&self.manager(),), outcome),
    {
        self.epoch_manager.transfer_leader()
    }

    /// Starts the conductor: takes the current epoch from the epoch manager
    /// and, where that epoch has a sequencer, asks the manager whether that
    /// sequencer leads.
    pub fn start(&mut self)
        ensures
            final(self).same_parts(old(self)),
            final(self)@.running,
            final(self)@.current_epoch == old(self).manager().model().epoch,
            final(self)@.is_sequencer == match (old(self).manager().model().sequencer)(
                old(self).manager().model().epoch,
            ) {
                Some(sequencer) => (old(self).manager().model().leads)(sequencer),
                None => old(self)@.is_sequencer,
            },
            final(self)@.chain == old(self)@.chain,
    {
        self.running = true;
        self.current_epoch = self.epoch_manager.current_epoch();
        match self.epoch_manager.sequencer(self.current_epoch) {
            Some(sequencer) => {
                self.is_sequencer = self.epoch_manager.is_sequencer(&sequencer);
            },
            None => {},
        }
    }

    /// Stops the conductor. The chain is kept.
    pub fn stop(&mut self)
        ensures
            final(self).same_parts(old(self)),
            final(self)@ == old(self)@.stopped(),
    {
        self.running = false;
    }

    /// Returns whether the conductor is running.
    pub fn is_running(&self) -> (running: bool)
        ensures
            running == self@.running,
    {
        self.running
    }

    /// Returns the current epoch.
    pub fn current_epoch(&self) -> (epoch: Epoch)
        ensures
            epoch == self@.current_epoch,
    {
        self.current_epoch
    }

    /// Handles an epoch change: takes over its epoch and whether the local
    /// node is the sequencer.
    pub fn handle_epoch_change(&mut self, change: EpochChange<E::PublicKey>)
        ensures
            final(self).same_parts(old(self)),
            final(self)@ == old(self)@.after_epoch_change(change.epoch, change.is_self),
    {
        self.current_epoch = change.epoch;
        self.is_sequencer = change.is_self;
    }

    /// Records an acknowledgment for the pending proposal and returns the
    /// payload if this acknowledgment certified it.
    pub fn acknowledge(&mut self) -> (certified: Option<P>)
        ensures
            final(self).same_parts(old(self)),
            final(self)@ == (ConductorModel { chain: old(self)@.chain.acknowledge(), ..old(self)@ }),
            model_of(certified) == old(self)@.chain.certified_by_next_ack(),
    {
        self.automaton.acknowledge()
    }

    /// Certifies a payload directly.
    pub fn certify(&mut self, payload: P)
        requires
            payload.model().height < u64::MAX,
        ensures
            final(self).same_parts(old(self)),
            final(self)@ == (ConductorModel {
                chain: old(self)@.chain.certify(payload.model()),
                ..old(self)@
            }),
    {
        self.automaton.certify(payload);
    }

    /// Returns a reference to the automaton.
    pub fn automaton(&self) -> (automaton: &PayloadAutomaton<P, E::PublicKey>)
        ensures
            *automaton == self.engine(),
            automaton@ == self@.chain,
    {
        &self.automaton
    }

    /// Returns a reference to the epoch manager.
    pub fn epoch_manager(&self) -> (manager: &E)
        ensures
            *manager == self.manager(),
    {
        &self.epoch_manager
    }

    /// Returns a reference to the signer.
    pub fn signer(&self) -> (signer: &S)
        ensures
            *signer == self.signing_key(),
    {
        &self.signer
    }
}

} // verus!
