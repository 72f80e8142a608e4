//! What the conductor answers to requests from outside: the bodies and the
//! status codes of the replies.

use crate::conductor::Conductor;
use crate::text::{decimal, decimal_string};
use crate::traits::{EpochManager, Payload};
use crate::types::{ConductorError, Height};
use vstd::prelude::*;
use vstd::string::*;

verus! {

/// Status code of a reply that succeeded.
pub const STATUS_OK: u16 = 200;

/// Status code of a reply to a request that was refused.
pub const STATUS_BAD_REQUEST: u16 = 400;

/// Status code of a reply to a request for what is not there.
pub const STATUS_NOT_FOUND: u16 = 404;

/// Leader status.
#[derive(Debug, Clone)]
pub struct LeaderStatus {
    /// Whether this node is the current leader.
    pub is_leader: bool,
    /// Current epoch.
    pub epoch: u64,
    /// Next expected payload height.
    pub next_height: u64,
}

/// Reply to a commit.
#[derive(Debug, Clone)]
pub struct CommitResponse {
    /// Whether the commit was accepted.
    pub success: bool,
    /// The message of the error, if the commit was refused.
    pub error: Option<String>,
}

/// Reply to an acknowledgment.
#[derive(Debug, Clone)]
pub struct AcknowledgeResponse {
    /// Whether the acknowledgment certified the pending payload.
    pub certified: bool,
    /// Height of the certified payload, if one was certified.
    pub height: Option<u64>,
}

/// Reply that carries an error.
#[derive(Debug, Clone)]
pub struct ErrorResponse {
    /// The message of the error.
    pub error: String,
}

/// The message of the reply when nothing was certified yet.
pub open spec fn no_certified_payloads_text() -> Seq<char> {
    "no certified payloads"@
}

/// The message of the reply when no payload stands at the height.
pub open spec fn height_not_found_text(height: Height) -> Seq<char> {
    "payload at height "@ + decimal(height as nat) + " not found"@
}

/// The leader status of a conductor.
pub fn leader_status<P: Payload, E: EpochManager, S>(conductor: &Conductor<P, E, S>) -> (status:
    LeaderStatus)
    ensures
        status.is_leader == conductor@.is_sequencer,
        status.epoch == conductor@.current_epoch,
        status.next_height == conductor@.chain.next_height(),
{
    LeaderStatus {
        is_leader: conductor.leader(),
        epoch: conductor.current_epoch(),
        next_height: conductor.next_height(),
    }
}

/// The reply to a commit: success with status 200, or the message of the
/// error with status 400.
pub fn commit_response(outcome: &Result<(), ConductorError>) -> (reply: (u16, CommitResponse))
    ensures
        match outcome {
            Ok(()) => {
                &&& reply.0 == STATUS_OK
                &&& reply.1.success
                &&& reply.1.error is None
            },
            Err(error) => {
                &&& reply.0 == STATUS_BAD_REQUEST
                &&& !reply.1.success
                &&& reply.1.error is Some
                &&& reply.1.error.unwrap()@ == error.message()
            },
        },
{
    match outcome {
        Ok(()) => (STATUS_OK, CommitResponse { success: true, error: None }),
        Err(error) => (
            STATUS_BAD_REQUEST,
            CommitResponse { success: false, error: Some(error.to_string()) },
        ),
    }
}

/// The reply to an acknowledgment: whether it certified a payload, and the
/// height of that payload.
pub fn acknowledge_response<P: Payload>(certified: &Option<P>) -> (reply: AcknowledgeResponse)
    ensures
        match certified {
            Some(payload) => reply.certified && reply.height == Some(payload.model().height),
            None => !reply.certified && reply.height is None,
        },
{
    match certified {
        Some(payload) => AcknowledgeResponse { certified: true, height: Some(payload.height()) },
        None => AcknowledgeResponse { certified: false, height: None },
    }
}

/// The reply to a request for the latest payload when nothing was
/// certified yet: status 404.
pub fn no_certified_payloads() -> (reply: (u16, ErrorResponse))
    ensures
        reply.0 == STATUS_NOT_FOUND,
        reply.1.error@ == no_certified_payloads_text(),
{
    (STATUS_NOT_FOUND, ErrorResponse { error: String::from_str("no certified payloads") })
}

/// The reply to a request for the payload at a height when none stands
/// there: status 404.
pub fn height_not_found(height: Height) -> (reply: (u16, ErrorResponse))
    ensures
        reply.0 == STATUS_NOT_FOUND,
        reply.1.error@ == height_not_found_text(height),
{
    let mut error = String::from_str("payload at height ");
    error.append(decimal_string(height).as_str());
    error.append(" not found");
    (STATUS_NOT_FOUND, ErrorResponse { error })
}

} // verus!
