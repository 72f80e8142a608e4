//! Sequencer-consensus conductor: orders payloads into a chain and certifies
//! each one through acknowledgments from a known validator set.
//!
//! At any time one node is the sequencer of the current epoch. It commits
//! payloads through the [`Conductor`], which validates them against the
//! chain of the [`PayloadAutomaton`] and keeps one of them pending until
//! enough acknowledgments certify it. Who the sequencer is, who validates
//! and how many acknowledgments are needed is the business of an
//! [`EpochManager`]: [`RoundRobinEpochManager`] rotates the role with each
//! epoch, [`HealthBasedEpochManager`] elects the first healthy node in
//! sorted order.
//!
//! Every operation is stated over a mathematical model of the state it
//! works on ([`AutomatonModel`], [`ConductorModel`], [`ManagerModel`]), and
//! the module [`laws`] proves what follows for every chain and every run
//! of a policy. The library does no input or output and never blocks:
//! locks, timers, channels and sockets belong to the program around it.

pub mod automaton;
pub mod block;
pub mod conductor;
pub mod config;
pub mod demo;
pub mod digest;
pub mod election;
pub mod health;
pub mod json;
pub mod keys;
pub mod laws;
pub mod ordering;
pub mod providers;
pub mod rotation;
pub mod rpc;
pub mod text;
pub mod traits;
pub mod types;

pub use automaton::{AutomatonModel, PayloadAutomaton, PayloadContext, PendingModel};
pub use block::BlockPayload;
pub use conductor::{Conductor, ConductorConfig, ConductorModel};
pub use digest::Digest;
pub use election::HealthBasedEpochManager;
pub use health::{HealthStatus, HealthTracker, PeerHealth};
pub use keys::PublicKey;
pub use providers::{EpochSequencersProvider, StaticSequencersProvider, ValidatorsProvider};
pub use rotation::RoundRobinEpochManager;
pub use traits::{EpochManager, ManagerModel, Payload, PayloadModel, PayloadStore, StoreModel};
pub use types::{
    ConductorError, Epoch, EpochChange, Height, PendingPayload, StoreError, TransferError,
};
