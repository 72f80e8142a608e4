//! The demonstration: its payload, its configuration, and the decisions of
//! the sidecar that drives a group of participants.

use crate::conductor::Conductor;
use crate::digest::{digest_of, hash, sha256_digest, Digest};
use crate::text::{decimal, decimal_string};
use crate::json::{decode_demo, demo_json, encode_demo, lemma_parse_encoded, parse_demo_json};
use crate::traits::{EpochManager, Payload, PayloadModel};
use crate::types::Height;
use std::time::Duration;
use vstd::bytes::*;
use vstd::prelude::*;
use vstd::string::*;

verus! {

/// The duration of a number of milliseconds.
pub uninterp spec fn duration_of_millis(millis: u64) -> Duration;

/// Calls `Duration::from_millis` of std. The contract names the duration
/// and claims only that it depends on the number of milliseconds alone.
#[verifier::external_body]
fn duration_from_millis(millis: u64) -> (duration: Duration)
    ensures
        duration == duration_of_millis(millis),
{
    Duration::from_millis(millis)
}

/// Asks std's `SystemTime::elapsed` for the time since the Unix epoch.
/// Nothing is claimed of what comes back; it is `None` where the clock
/// stands before the epoch.
#[verifier::external_body]
fn since_unix_epoch() -> (elapsed: Option<Duration>) {
    std::time::UNIX_EPOCH.elapsed().ok()
}

/// Asks std's `Duration::as_secs` for the whole seconds of a duration.
/// Nothing is claimed of the number.
#[verifier::external_body]
fn whole_seconds(duration: Duration) -> (seconds: u64) {
    duration.as_secs()
}

/// The message that the digest of a demo payload covers: height, then
/// timestamp, each as eight little-endian bytes, then the data.
pub open spec fn demo_message(height: Height, timestamp: u64, data: Seq<u8>) -> Seq<u8> {
    spec_u64_to_le_bytes(height) + spec_u64_to_le_bytes(timestamp) + data
}

/// A simple payload for the demo: a height, a timestamp and arbitrary data.
/// Its encoding is its JSON text.
#[derive(Debug, PartialEq, Eq)]
pub struct DemoPayload {
    /// The height of this payload.
    pub height: Height,
    /// Unix timestamp when the payload was created.
    pub timestamp: u64,
    /// Arbitrary data bytes.
    pub data: Vec<u8>,
}

impl DemoPayload {
    /// Creates a payload that was made at the given time.
    pub fn at(height: Height, timestamp: u64, data: Vec<u8>) -> (payload: Self)
        ensures
            payload.height == height,
            payload.timestamp == timestamp,
            payload.data == data,
    {
        DemoPayload { height, timestamp, data }
    }

    /// Creates a payload that is made now: its timestamp is the whole
    /// seconds since the Unix epoch, or zero where the clock stands before
    /// the epoch.
    pub fn new(height: Height, data: Vec<u8>) -> (payload: Self)
        ensures
            payload.height == height,
            payload.data == data,
    {
        let timestamp = match since_unix_epoch() {
            Some(elapsed) => whole_seconds(elapsed),
            None => 0,
        };
        DemoPayload::at(height, timestamp, data)
    }
}

impl Clone for DemoPayload {
    fn clone(&self) -> (copy: Self)
        ensures
            copy.height == self.height,
            copy.timestamp == self.timestamp,
            copy.data@ == self.data@,
    {
        DemoPayload {
            height: self.height,
            timestamp: self.timestamp,
            data: vstd::slice::slice_to_vec(self.data.as_slice()),
        }
    }
}

impl Payload for DemoPayload {
    open spec fn model(&self) -> PayloadModel {
        PayloadModel {
            height: self.height,
            digest: digest_of(demo_message(self.height, self.timestamp, self.data@)),
            parent: None,
            encoding: demo_json(self.height, self.timestamp, self.data@),
        }
    }

    fn digest(&self) -> (digest: Digest)
        ensures
            digest == digest_of(demo_message(self.height, self.timestamp, self.data@)),
            digest@ == sha256_digest(demo_message(self.height, self.timestamp, self.data@)),
    {
        let mut message = u64_to_le_bytes(self.height);
        let mut timestamp = u64_to_le_bytes(self.timestamp);
        message.append(&mut timestamp);
        let mut i: usize = 0;
        let ghost head = message@;
        while i < self.data.len()
            invariant
                i <= self.data.len(),
                message@ == head + self.data@.take(i as int),
            decreases self.data.len() - i,
        {
            message.push(self.data[i]);
            i = i + 1;
            assert(message@ =~= head + self.data@.take(i as int));
        }
        assert(self.data@.take(self.data.len() as int) =~= self.data@);
        hash(message.as_slice())
    }

    fn height(&self) -> (height: Height)
        ensures
            height == self.height,
    {
        self.height
    }

    fn parent(&self) -> (parent: Option<Digest>)
        ensures
            parent is None,
    {
        None
    }

    fn encode(&self) -> (bytes: Vec<u8>)
        ensures
            bytes@ == demo_json(self.height, self.timestamp, self.data@),
    {
        encode_demo(self.height, self.timestamp, &self.data)
    }

    /// Decodes the JSON text of a payload. Bytes that are not the text of
    /// a payload, as `encode` writes it, are malformed.
    fn decode(bytes: &[u8]) -> (payload: Option<Self>)
        ensures
            match parse_demo_json(bytes@) {
                Some((height, timestamp, data)) => {
                    &&& payload is Some
                    &&& payload.unwrap().height == height
                    &&& payload.unwrap().timestamp == timestamp
                    &&& payload.unwrap().data@ == data
                },
                None => payload is None,
            },
    {
        proof {
            assert forall|source: Self| #[trigger]
                source.model().encoding == bytes@ implies parse_demo_json(bytes@) == Some(
                (source.height, source.timestamp, source.data@),
            ) by {
                lemma_parse_encoded(source.height, source.timestamp, source.data@);
            }
        }
        match decode_demo(bytes) {
            Some((height, timestamp, data)) => Some(DemoPayload { height, timestamp, data }),
            None => None,
        }
    }

    proof fn clone_keeps_model(&self, copy: &Self) {
    }
}

/// Options of the demo.
#[derive(Debug, Clone)]
pub struct DemoConfig {
    /// Number of participants in the demo.
    pub participants: usize,
    /// Interval between payload commits in milliseconds.
    pub interval_ms: u64,
    /// Number of commits before advancing epoch.
    pub commits_per_epoch: u64,
}

impl DemoConfig {
    /// Returns the commit interval as a duration.
    pub fn commit_interval(&self) -> (interval: Duration)
        ensures
            interval == duration_of_millis(self.interval_ms),
    {
        duration_from_millis(self.interval_ms)
    }
}

impl Default for DemoConfig {
    fn default() -> (config: Self)
        ensures
            config.participants == 8,
            config.interval_ms == 245,
            config.commits_per_epoch == 3,
    {
        DemoConfig { participants: 8, interval_ms: 245, commits_per_epoch: 3 }
    }
}

/// Configuration for the sidecar.
#[derive(Debug)]
pub struct SidecarConfig {
    /// Interval between payload commits.
    pub commit_interval: Duration,
    /// Number of commits before advancing epoch.
    pub commits_per_epoch: u64,
}

impl Clone for SidecarConfig {
    fn clone(&self) -> (copy: Self)
        ensures
            copy.commit_interval == self.commit_interval,
            copy.commits_per_epoch == self.commits_per_epoch,
    {
        SidecarConfig {
            commit_interval: self.commit_interval,
            commits_per_epoch: self.commits_per_epoch,
        }
    }
}

impl Default for SidecarConfig {
    fn default() -> (config: Self)
        ensures
            config.commit_interval == duration_of_millis(245),
            config.commits_per_epoch == 3,
    {
        SidecarConfig { commit_interval: duration_from_millis(245), commits_per_epoch: 3 }
    }
}

/// Status message from the sidecar.
#[derive(Debug, Clone)]
pub struct SidecarStatus {
    /// Current action description.
    pub action: String,
    /// Current epoch.
    pub epoch: u64,
    /// Total number of certified blocks.
    pub certified_blocks: u64,
}

impl Default for SidecarStatus {
    fn default() -> (status: Self)
        ensures
            status.action@.len() == 0,
            status.epoch == 0,
            status.certified_blocks == 0,
    {
        SidecarStatus { action: String::new(), epoch: 0, certified_blocks: 0 }
    }
}

/// View of a participant's state.
#[derive(Debug, Clone)]
pub struct ParticipantView {
    /// Participant ID, counted from one.
    pub id: usize,
    /// Current epoch.
    pub epoch: u64,
    /// Whether this participant is the current leader.
    pub is_leader: bool,
    /// Next expected payload height.
    pub next_height: u64,
    /// Number of certified payloads.
    pub certified_count: u64,
}

/// The view of a participant with the given ID: what its conductor says of
/// epoch, role and next height. The certified payloads are counted by the
/// next height.
pub fn get_view<P: Payload, E: EpochManager, S>(id: usize, conductor: &Conductor<P, E, S>) -> (view:
    ParticipantView)
    ensures
        view.id == id,
        view.epoch == conductor@.current_epoch,
        view.is_leader == conductor@.is_sequencer,
        view.next_height == conductor@.chain.next_height(),
        view.certified_count == view.next_height,
{
    let next_height = conductor.next_height();
    ParticipantView {
        id,
        epoch: conductor.current_epoch(),
        is_leader: conductor.leader(),
        next_height,
        certified_count: next_height,
    }
}

/// Text of the status before the first tick.
pub open spec fn initializing_text() -> Seq<char> {
    "Initializing..."@
}

/// Text of the status when no participant leads.
pub open spec fn waiting_text() -> Seq<char> {
    "Waiting for leader..."@
}

/// Text of the status when the leader's commit was refused.
pub open spec fn commit_failed_text() -> Seq<char> {
    "Commit failed, retrying..."@
}

/// Text of the status when a participant proposes a block.
pub open spec fn proposing_text(leader: usize, block: u64) -> Seq<char> {
    "P"@ + decimal(leader as nat) + " proposing block "@ + decimal(block as nat)
}

/// Text of the status while acknowledgments are collected.
pub open spec fn collecting_text(block: u64) -> Seq<char> {
    "Collecting acks for block "@ + decimal(block as nat)
}

/// Text of the status when a block was certified.
pub open spec fn certified_text(block: u64) -> Seq<char> {
    "Block "@ + decimal(block as nat) + " certified!"@
}

/// Text of the status when the leader rotates.
pub open spec fn rotating_text(epoch: u64) -> Seq<char> {
    "Rotating leader to epoch "@ + decimal(epoch as nat)
}

/// Text of the data of a block.
pub open spec fn block_data_text(block: u64) -> Seq<char> {
    "block-"@ + decimal(block as nat)
}

/// What the sidecar counts while it drives the participants.
#[derive(Debug, Clone, Copy, PartialEq, Eq, Structural)]
pub struct SidecarProgress {
    /// Commits since the last rotation.
    pub commit_count: u64,
    /// The epoch that the sidecar is in.
    pub current_epoch: u64,
    /// Blocks certified so far.
    pub certified_blocks: u64,
}

impl SidecarProgress {
    /// The progress before the first tick.
    pub fn new() -> (progress: Self)
        ensures
            progress == (SidecarProgress { commit_count: 0, current_epoch: 0, certified_blocks: 0 }),
    {
        SidecarProgress { commit_count: 0, current_epoch: 0, certified_blocks: 0 }
    }

    /// The number of the block to propose next: one above the certified
    /// blocks.
    pub fn block_number(&self) -> (block: u64)
        requires
            self.certified_blocks < u64::MAX,
        ensures
            block == self.certified_blocks + 1,
    {
        self.certified_blocks + 1
    }

    /// A status with the given action, at this progress.
    pub fn status(&self, action: String) -> (status: SidecarStatus)
        ensures
            status.action == action,
            status.epoch == self.current_epoch,
            status.certified_blocks == self.certified_blocks,
    {
        SidecarStatus {
            action,
            epoch: self.current_epoch,
            certified_blocks: self.certified_blocks,
        }
    }

    /// The status before the first tick.
    pub fn initializing(&self) -> (status: SidecarStatus)
        ensures
            status.action@ == initializing_text(),
            status.epoch == self.current_epoch,
            status.certified_blocks == self.certified_blocks,
    {
        self.status(String::from_str("Initializing..."))
    }

    /// The status when no participant leads.
    pub fn waiting(&self) -> (status: SidecarStatus)
        ensures
            status.action@ == waiting_text(),
            status.epoch == self.current_epoch,
            status.certified_blocks == self.certified_blocks,
    {
        self.status(String::from_str("Waiting for leader..."))
    }

    /// The status when the leader's commit was refused.
    pub fn commit_failed(&self) -> (status: SidecarStatus)
        ensures
            status.action@ == commit_failed_text(),
            status.epoch == self.current_epoch,
            status.certified_blocks == self.certified_blocks,
    {
        self.status(String::from_str("Commit failed, retrying..."))
    }

    /// The status when the participant with the ID proposes the next block.
    pub fn proposing(&self, leader: usize) -> (status: SidecarStatus)
        requires
            self.certified_blocks < u64::MAX,
        ensures
            status.action@ == proposing_text(leader, (self.certified_blocks + 1) as u64),
            status.epoch == self.current_epoch,
            status.certified_blocks == self.certified_blocks,
    {
        let mut action = String::from_str("P");
        action.append(decimal_string(leader as u64).as_str());
        action.append(" proposing block ");
        action.append(decimal_string(self.block_number()).as_str());
        self.status(action)
    }

    /// The status while the acknowledgments for the next block are
    /// collected.
    pub fn collecting(&self) -> (status: SidecarStatus)
        requires
            self.certified_blocks < u64::MAX,
        ensures
            status.action@ == collecting_text((self.certified_blocks + 1) as u64),
            status.epoch == self.current_epoch,
            status.certified_blocks == self.certified_blocks,
    {
        let mut action = String::from_str("Collecting acks for block ");
        action.append(decimal_string(self.block_number()).as_str());
        self.status(action)
    }

    /// The data of the next block: the text `block-` and its number.
    pub fn block_data(&self) -> (data: String)
        requires
            self.certified_blocks < u64::MAX,
        ensures
            data@ == block_data_text((self.certified_blocks + 1) as u64),
    {
        let mut data = String::from_str("block-");
        data.append(decimal_string(self.block_number()).as_str());
        data
    }

    /// Counts a certified block and a commit, and gives the status to show.
    pub fn block_certified(&mut self) -> (status: SidecarStatus)
        requires
            old(self).certified_blocks < u64::MAX,
            old(self).commit_count < u64::MAX,
        ensures
            final(self).certified_blocks == old(self).certified_blocks + 1,
            final(self).commit_count == old(self).commit_count + 1,
            final(self).current_epoch == old(self).current_epoch,
            status.action@ == certified_text(final(self).certified_blocks),
            status.epoch == final(self).current_epoch,
            status.certified_blocks == final(self).certified_blocks,
    {
        self.certified_blocks = self.certified_blocks + 1;
        self.commit_count = self.commit_count + 1;
        let mut action = String::from_str("Block ");
        action.append(decimal_string(self.certified_blocks).as_str());
        action.append(" certified!");
        self.status(action)
    }

    /// Decides whether the leader rotates now: when the commits since the
    /// last rotation reach the number of commits of an epoch. If so, the
    /// count starts over, the next epoch begins, and the status to show is
    /// returned.
    pub fn rotate_if_due(&mut self, commits_per_epoch: u64) -> (status: Option<SidecarStatus>)
        requires
            old(self).current_epoch < u64::MAX,
        ensures
            final(self).certified_blocks == old(self).certified_blocks,
            match status {
                Some(status) => {
                    &&& old(self).commit_count >= commits_per_epoch
                    &&& final(self).commit_count == 0
                    &&& final(self).current_epoch == old(self).current_epoch + 1
                    &&& status.action@ == rotating_text(final(self).current_epoch)
                    &&& status.epoch == final(self).current_epoch
                    &&& status.certified_blocks == final(self).certified_blocks
                },
                None => old(self).commit_count < commits_per_epoch && *final(self) == *old(self),
            },
    {
        if self.commit_count >= commits_per_epoch {
            self.commit_count = 0;
            self.current_epoch = self.current_epoch + 1;
            let mut action = String::from_str("Rotating leader to epoch ");
            action.append(decimal_string(self.current_epoch).as_str());
            Some(self.status(action))
        } else {
            None
        }
    }
}

/// Whether the participant at a place leads in an epoch, under rotation
/// among `count` participants.
pub fn leads_in_epoch(self_index: usize, epoch: u64, count: usize) -> (leads: bool)
    requires
        count > 0,
    ensures
        leads == (self_index == epoch as int % count as int),
{
    (epoch % (count as u64)) as usize == self_index
}

} // verus!
