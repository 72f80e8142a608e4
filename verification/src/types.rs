//! Shared value types: epochs, heights, pending proposals.

use crate::text::{bool_string, bool_text, decimal, decimal_string};
use vstd::prelude::*;
use vstd::string::*;

verus! {

/// Epoch identifier: a period during which one sequencer may propose.
pub type Epoch = u64;

/// Position of a payload in the certified chain.
pub type Height = u64;

/// Notification that the epoch or its sequencer changed.
#[derive(Debug, Clone, PartialEq, Eq)]
pub struct EpochChange<K> {
    /// The new epoch number.
    pub epoch: Epoch,
    /// The public key of the sequencer for this epoch.
    pub sequencer: K,
    /// Whether the local node is the new sequencer.
    pub is_self: bool,
}

/// One step of an epoch policy: either it announces a change, whose epoch
/// is the new epoch and one above the old, or it announces nothing and the
/// epoch stays.
pub open spec fn step_emits(before: Epoch, after: Epoch, emitted: Option<Epoch>) -> bool {
    match emitted {
        Some(epoch) => epoch == after && after == before + 1,
        None => after == before,
    }
}

/// The text of an epoch change whose sequencer renders as `sequencer`.
pub open spec fn epoch_change_text(epoch: Epoch, sequencer: Seq<char>, is_self: bool) -> Seq<char> {
    "EpochChange { epoch: "@ + decimal(epoch as nat) + ", sequencer: "@ + sequencer
        + ", is_self: "@ + bool_text(is_self) + " }"@
}

impl<K: core::fmt::Display> EpochChange<K> {
    /// Renders the change as `EpochChange { epoch: .., sequencer: ..,
    /// is_self: .. }`, the sequencer as its own `Display` gives it.
    pub fn to_string(&self) -> (text: String)
        ensures
            exists|key: String|
                to_string_from_display_ensures::<K>(&self.sequencer, key) && text@
                    == epoch_change_text(self.epoch, key@, self.is_self),
    {
        let key = self.sequencer.to_string();
        let mut text = String::from_str("EpochChange { epoch: ");
        text.append(decimal_string(self.epoch).as_str());
        text.append(", sequencer: ");
        text.append(key.as_str());
        text.append(", is_self: ");
        text.append(bool_string(self.is_self).as_str());
        text.append(" }");
        text
    }
}

/// Errors of conductor operations.
#[derive(Debug, Clone, PartialEq, Eq)]
#[allow(inconsistent_fields)]
pub enum ConductorError {
    /// Attempted to commit a payload when not the current sequencer.
    NotSequencer,
    /// The payload failed validation.
    ValidationFailed(String),
    /// The payload height does not follow the expected sequence.
    InvalidHeight {
        /// The expected height.
        expected: Height,
        /// The actual height received.
        got: Height,
    },
    /// The payload's parent digest does not match.
    ParentMismatch {
        /// The expected parent digest.
        expected: String,
        /// The actual parent digest received.
        got: String,
    },
    /// The conductor is not yet initialized.
    NotInitialized,
    /// Internal channel was closed unexpectedly.
    ChannelClosed,
}

impl ConductorError {
    /// The message of the error.
    pub open spec fn message(&self) -> Seq<char> {
        match self {
            ConductorError::NotSequencer => "not the current sequencer"@,
            ConductorError::ValidationFailed(reason) => "payload validation failed: "@ + reason@,
            ConductorError::InvalidHeight { expected, got } => "invalid height: expected "@
                + decimal(*expected as nat) + ", got "@ + decimal(*got as nat),
            ConductorError::ParentMismatch { expected, got } => "parent mismatch: expected "@
                + expected@ + ", got "@ + got@,
            ConductorError::NotInitialized => "conductor not initialized"@,
            ConductorError::ChannelClosed => "internal channel closed"@,
        }
    }

    /// Renders the message of the error.
    pub fn to_string(&self) -> (text: String)
        ensures
            text@ == self.message(),
    {
        match self {
            ConductorError::NotSequencer => String::from_str("not the current sequencer"),
            ConductorError::ValidationFailed(reason) => {
                let mut text = String::from_str("payload validation failed: ");
                text.append(reason.as_str());
                text
            },
            ConductorError::InvalidHeight { expected, got } => {
                let mut text = String::from_str("invalid height: expected ");
                text.append(decimal_string(*expected).as_str());
                text.append(", got ");
                text.append(decimal_string(*got).as_str());
                text
            },
            ConductorError::ParentMismatch { expected, got } => {
                let mut text = String::from_str("parent mismatch: expected ");
                text.append(expected.as_str());
                text.append(", got ");
                text.append(got.as_str());
                text
            },
            ConductorError::NotInitialized => String::from_str("conductor not initialized"),
            ConductorError::ChannelClosed => String::from_str("internal channel closed"),
        }
    }
}

/// Errors of a leadership transfer.
#[derive(Debug, Clone, PartialEq, Eq)]
pub enum TransferError {
    /// Transfer is not supported by the epoch manager.
    NotSupported,
    /// No suitable successor is available.
    NoSuccessor,
    /// Transfer is already in progress.
    InProgress,
    /// Transfer failed for an implementation-specific reason.
    Failed(String),
    /// Timeout waiting for transfer to complete.
    Timeout,
}

impl TransferError {
    /// The message of the error.
    pub open spec fn message(&self) -> Seq<char> {
        match self {
            TransferError::NotSupported => "transfer not supported"@,
            TransferError::NoSuccessor => "no successor available"@,
            TransferError::InProgress => "transfer in progress"@,
            TransferError::Failed(reason) => "transfer failed: "@ + reason@,
            TransferError::Timeout => "transfer timeout"@,
        }
    }

    /// Renders the message of the error.
    pub fn to_string(&self) -> (text: String)
        ensures
            text@ == self.message(),
    {
        match self {
            TransferError::NotSupported => String::from_str("transfer not supported"),
            TransferError::NoSuccessor => String::from_str("no successor available"),
            TransferError::InProgress => String::from_str("transfer in progress"),
            TransferError::Failed(reason) => {
                let mut text = String::from_str("transfer failed: ");
                text.append(reason.as_str());
                text
            },
            TransferError::Timeout => String::from_str("transfer timeout"),
        }
    }
}

/// Errors of a payload store.
#[derive(Debug, Clone, PartialEq, Eq)]
pub enum StoreError {
    /// The payload already exists.
    AlreadyExists,
    /// Storage backend error.
    Backend(String),
}

impl StoreError {
    /// The message of the error.
    pub open spec fn message(&self) -> Seq<char> {
        match self {
            StoreError::AlreadyExists => "payload already exists"@,
            StoreError::Backend(reason) => "storage error: "@ + reason@,
        }
    }

    /// Renders the message of the error.
    pub fn to_string(&self) -> (text: String)
        ensures
            text@ == self.message(),
    {
        match self {
            StoreError::AlreadyExists => String::from_str("payload already exists"),
            StoreError::Backend(reason) => {
                let mut text = String::from_str("storage error: ");
                text.append(reason.as_str());
                text
            },
        }
    }
}

/// A proposal awaiting certification, with the acknowledgments received so
/// far and the number required.
#[derive(Debug, Clone)]
pub struct PendingPayload<P> {
    /// The payload awaiting certification.
    pub payload: P,
    /// Number of acknowledgments received.
    pub acks: usize,
    /// Required acknowledgments for certification.
    pub threshold: usize,
}

impl<P> PendingPayload<P> {
    /// Whether the acknowledgments received meet the threshold.
    pub open spec fn certified(&self) -> bool {
        self.acks >= self.threshold
    }

    /// Creates a pending payload with no acknowledgments.
    pub fn new(payload: P, threshold: usize) -> (pending: Self)
        ensures
            pending.payload == payload,
            pending.acks == 0,
            pending.threshold == threshold,
    {
        PendingPayload { payload, acks: 0, threshold }
    }

    /// Returns true if the payload has reached quorum.
    pub fn is_certified(&self) -> (certified: bool)
        ensures
            certified == self.certified(),
    {
        self.acks >= self.threshold
    }

    /// Records an acknowledgment.
    pub fn acknowledge(&mut self)
        requires
            old(self).acks < usize::MAX,
        ensures
            final(self).acks == old(self).acks + 1,
            final(self).threshold == old(self).threshold,
            final(self).payload == old(self).payload,
    {
        self.acks = self.acks + 1;
    }
}

} // verus!
