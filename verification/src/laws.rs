//! What holds of the chain and of the epoch policies, over every state and
//! every input.

use crate::automaton::{acks_needed, AutomatonModel, PendingModel};
use crate::conductor::ConductorModel;
use crate::digest::Digest;
use crate::ordering::{is_least, lemma_at_most_antisymmetric, url_bytes};
use crate::rotation::{rotating_sequencer, RoundRobinEpochManager};
use crate::traits::{EpochManager, PayloadModel};
use crate::types::{step_emits, Epoch};
use vstd::prelude::*;

verus! {

/// After a proposal was submitted, the acknowledgments are counted until
/// they certify it: before that, the payload is pending with the count so
/// far and the chain is as it was; from then on, the payload is the latest,
/// stands at its height, and nothing is pending.
pub proof fn acknowledgments_count_up(
    chain: AutomatonModel,
    payload: PayloadModel,
    threshold: nat,
    count: nat,
)
    ensures
        count < acks_needed(threshold) ==> chain.submit(payload, threshold).after_acks(count) == (
        AutomatonModel {
            pending: Some(PendingModel { payload, acks: count, threshold }),
            ..chain
        }),
        count >= acks_needed(threshold) ==> chain.submit(payload, threshold).after_acks(count) == (
        AutomatonModel {
            latest: Some(payload),
            by_height: chain.by_height.insert(payload.height, payload),
            pending: None,
        }),
    decreases count,
{
    if count > 0 {
        acknowledgments_count_up(chain, payload, threshold, (count - 1) as nat);
    }
}

/// A payload that was committed and then certified is the latest payload
/// and the payload at its height.
pub proof fn certified_payload_is_latest(
    chain: AutomatonModel,
    payload: PayloadModel,
    threshold: nat,
)
    ensures
        ({
            let certified = chain.submit(payload, threshold).after_acks(acks_needed(threshold));
            &&& certified.latest == Some(payload)
            &&& certified.by_height.contains_key(payload.height)
            &&& certified.by_height[payload.height] == payload
            &&& certified.pending is None
        }),
{
    acknowledgments_count_up(chain, payload, threshold, acks_needed(threshold));
}

/// Of the acknowledgments that follow a proposal, exactly one returns the
/// payload: the one that reaches the threshold. Every other one returns
/// nothing, as long as no new proposal is submitted.
pub proof fn acknowledge_certifies_exactly_once(
    chain: AutomatonModel,
    payload: PayloadModel,
    threshold: nat,
    earlier: nat,
)
    ensures
        chain.submit(payload, threshold).after_acks(earlier).certified_by_next_ack() == if earlier
            + 1 == acks_needed(threshold) {
            Some(payload)
        } else {
            None
        },
{
    acknowledgments_count_up(chain, payload, threshold, earlier);
}

/// Without a pending proposal an acknowledgment returns nothing and changes
/// nothing.
pub proof fn acknowledge_without_pending(chain: AutomatonModel)
    requires
        chain.pending is None,
    ensures
        chain.certified_by_next_ack() is None,
        chain.acknowledge() == chain,
{
}

/// Of two commits that were accepted one after the other, the first one
/// certified in between, the second stands one height above the first.
pub proof fn successive_commits_climb(
    chain: AutomatonModel,
    first: PayloadModel,
    threshold: nat,
    second: PayloadModel,
)
    requires
        chain.accepts(first),
        chain.submit(first, threshold).after_acks(acks_needed(threshold)).accepts(second),
    ensures
        second.height == first.height + 1,
{
    certified_payload_is_latest(chain, first, threshold);
}

/// A payload that the chain accepts and that names a parent names the
/// payload that was certified before it.
pub proof fn accepted_parent_is_previous(
    chain: AutomatonModel,
    payload: PayloadModel,
    parent: Digest,
)
    requires
        chain.accepts(payload),
        payload.parent == Some(parent),
    ensures
        chain.latest is Some,
        chain.latest.unwrap().digest == parent,
        payload.height == chain.latest.unwrap().height + 1,
{
}

/// A rejected commit leaves the conductor as it was, and an accepted one
/// changes nothing but the pending proposal.
pub proof fn commit_touches_only_pending(
    conductor: ConductorModel,
    payload: PayloadModel,
    threshold: nat,
)
    ensures
        conductor.committed(payload, threshold).chain.latest == conductor.chain.latest,
        conductor.committed(payload, threshold).chain.by_height == conductor.chain.by_height,
        conductor.committed(payload, threshold).current_epoch == conductor.current_epoch,
        conductor.committed(payload, threshold).is_sequencer == conductor.is_sequencer,
{
}

/// Handling the same epoch change twice is handling it once.
pub proof fn epoch_change_idempotent(conductor: ConductorModel, epoch: Epoch, is_self: bool)
    ensures
        conductor.after_epoch_change(epoch, is_self).after_epoch_change(epoch, is_self)
            == conductor.after_epoch_change(epoch, is_self),
{
}

/// Under rotation the sequencer of every epoch is the participant at the
/// epoch modulo the number of participants.
pub proof fn round_robin_rotates(manager: RoundRobinEpochManager, epoch: Epoch)
    requires
        manager.participants().len() > 0,
    ensures
        (manager.model().sequencer)(epoch) == Some(
            manager.participants()[epoch as int % manager.participants().len() as int],
        ),
        rotating_sequencer(manager.participants(), epoch) == Some(
            manager.participants()[epoch as int % manager.participants().len() as int],
        ),
{
}

/// The elected leader is the one least URL: two URLs that are each least
/// among the candidates have the same bytes.
pub proof fn least_url_is_unique(urls: Seq<Seq<char>>, a: Seq<char>, b: Seq<char>)
    requires
        is_least(urls, a),
        is_least(urls, b),
    ensures
        url_bytes(a) == url_bytes(b),
{
    let i = choose|i: int| 0 <= i < urls.len() && urls[i] == a;
    let j = choose|j: int| 0 <= j < urls.len() && urls[j] == b;
    assert(crate::ordering::url_at_most(b, urls[i]));
    assert(crate::ordering::url_at_most(a, urls[j]));
    lemma_at_most_antisymmetric(url_bytes(a), url_bytes(b));
}

/// A run of an epoch policy: the epoch before each step and after the last
/// one, and what each step announced.
pub open spec fn valid_run(epochs: Seq<Epoch>, emitted: Seq<Option<Epoch>>) -> bool {
    &&& epochs.len() == emitted.len() + 1
    &&& forall|i: int|
        0 <= i < emitted.len() ==> step_emits(epochs[i], epochs[i + 1], #[trigger] emitted[i])
}

/// Along a run the epoch never decreases.
pub proof fn epochs_never_decrease(epochs: Seq<Epoch>, emitted: Seq<Option<Epoch>>, i: int, j: int)
    requires
        valid_run(epochs, emitted),
        0 <= i <= j < epochs.len(),
    ensures
        epochs[i] <= epochs[j],
    decreases j - i,
{
    if i < j {
        epochs_never_decrease(epochs, emitted, i, j - 1);
        assert(step_emits(epochs[j - 1], epochs[j], emitted[j - 1]));
    }
}

/// The announced epoch changes are monotonic: of two changes that a run
/// announced, the later one has the greater epoch.
pub proof fn announced_epochs_increase(
    epochs: Seq<Epoch>,
    emitted: Seq<Option<Epoch>>,
    i: int,
    j: int,
)
    requires
        valid_run(epochs, emitted),
        0 <= i < j < emitted.len(),
        emitted[i] is Some,
        emitted[j] is Some,
    ensures
        emitted[i].unwrap() < emitted[j].unwrap(),
{
    assert(step_emits(epochs[i], epochs[i + 1], emitted[i]));
    assert(step_emits(epochs[j], epochs[j + 1], emitted[j]));
    epochs_never_decrease(epochs, emitted, i + 1, j);
}

} // verus!
