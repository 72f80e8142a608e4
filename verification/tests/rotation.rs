use arturo::keys::PublicKey;
use arturo::rotation::RoundRobinEpochManager;
use arturo::traits::EpochManager;
use arturo::types::TransferError;
use commonware_cryptography::{ed25519, Signer};

fn key(seed: u64) -> PublicKey {
    let public = ed25519::PrivateKey::from_seed(seed).public_key();
    let mut bytes = [0u8; 32];
    bytes.copy_from_slice(public.as_ref());
    PublicKey::from_bytes(bytes)
}

fn three() -> Vec<PublicKey> {
    vec![key(0), key(1), key(2)]
}

#[test]
fn round_robin_three_participants() {
    let mut manager = RoundRobinEpochManager::new(three(), key(1));
    assert_eq!(manager.current_epoch(), 0);
    assert_eq!(manager.current_sequencer_idx(), 0);
    for _ in 0..4 {
        manager.advance_epoch();
    }
    assert_eq!(manager.current_epoch(), 4);
    assert_eq!(manager.current_sequencer_idx(), 4 % 3);
    assert_eq!(manager.current_sequencer_idx(), 1);
    assert!(manager.is_sequencer(&key(1)));
    assert!(!manager.is_sequencer(&key(0)));
}

#[test]
fn sequencer_is_participant_at_epoch_mod_count() {
    let participants = three();
    let manager = RoundRobinEpochManager::new(participants.clone(), key(0));
    for epoch in [0u64, 1, 2, 3, 4, 5, 100, 1_000_003, u64::MAX] {
        assert_eq!(manager.sequencer(epoch), Some(participants[(epoch % 3) as usize]));
    }
}

#[test]
fn advance_epoch_announces_the_turn() {
    let participants = three();
    let mut manager = RoundRobinEpochManager::new(participants.clone(), key(2));
    let first = manager.advance_epoch();
    assert_eq!(first.epoch, 1);
    assert_eq!(first.sequencer, participants[1]);
    assert!(!first.is_self);
    let second = manager.advance_epoch();
    assert_eq!(second.epoch, 2);
    assert_eq!(second.sequencer, participants[2]);
    assert!(second.is_self);
    let third = manager.advance_epoch();
    assert_eq!(third.epoch, 3);
    assert_eq!(third.sequencer, participants[0]);
    assert!(!third.is_self);
    assert!(first.epoch <= second.epoch && second.epoch <= third.epoch);
}

#[test]
fn self_index_is_first_place_or_zero() {
    assert_eq!(RoundRobinEpochManager::new(three(), key(2)).self_index(), 2);
    assert_eq!(RoundRobinEpochManager::new(three(), key(9)).self_index(), 0);
    let doubled = vec![key(5), key(7), key(7)];
    assert_eq!(RoundRobinEpochManager::new(doubled, key(7)).self_index(), 1);
    assert_eq!(RoundRobinEpochManager::new(three(), key(2)).participant_count(), 3);
}

#[test]
fn majority_threshold_and_validators() {
    let manager = RoundRobinEpochManager::new(three(), key(0));
    assert_eq!(manager.quorum_threshold(0), Some(2));
    assert_eq!(manager.quorum_threshold(77), Some(2));
    assert_eq!(manager.validators(5), Some(three()));
    let eight: Vec<PublicKey> = (0..8).map(key).collect();
    assert_eq!(RoundRobinEpochManager::new(eight, key(0)).quorum_threshold(0), Some(5));
    let one = RoundRobinEpochManager::new(vec![key(0)], key(0));
    assert_eq!(one.quorum_threshold(0), Some(1));
}

#[test]
fn no_participants_means_no_sequencer() {
    let manager = RoundRobinEpochManager::new(Vec::new(), key(0));
    assert_eq!(manager.sequencer(0), None);
    assert_eq!(manager.sequencer(12), None);
    assert!(!manager.is_sequencer(&key(0)));
    assert_eq!(manager.participant_count(), 0);
    assert_eq!(manager.quorum_threshold(0), Some(1));
}

#[test]
fn rotation_does_not_transfer() {
    let manager = RoundRobinEpochManager::new(three(), key(0));
    assert_eq!(manager.transfer_leader(), Err(TransferError::NotSupported));
}

#[test]
fn clone_keeps_the_rotation() {
    let mut manager = RoundRobinEpochManager::new(three(), key(1));
    manager.advance_epoch();
    let copy = manager.clone();
    assert_eq!(copy.current_epoch(), 1);
    assert_eq!(copy.current_sequencer_idx(), 1);
    assert_eq!(copy.self_index(), 1);
    assert_eq!(copy.validators(0), Some(three()));
}
