use arturo::conductor::{Conductor, ConductorConfig};
use arturo::block::BlockPayload;
use arturo::demo::{
    get_view, leads_in_epoch, DemoConfig, DemoPayload, SidecarConfig, SidecarProgress,
    SidecarStatus,
};
use arturo::keys::PublicKey;
use arturo::rotation::RoundRobinEpochManager;
use arturo::traits::Payload;
use commonware_cryptography::Hasher;
use std::time::{Duration, SystemTime, UNIX_EPOCH};

#[test]
fn demo_config_defaults_and_interval() {
    let config = DemoConfig::default();
    assert_eq!(config.participants, 8);
    assert_eq!(config.interval_ms, 245);
    assert_eq!(config.commits_per_epoch, 3);
    assert_eq!(config.commit_interval(), Duration::from_millis(245));
    let slow = DemoConfig { participants: 3, interval_ms: 1500, commits_per_epoch: 1 };
    assert_eq!(slow.commit_interval(), Duration::from_millis(1500));
    assert_eq!(slow.commit_interval().as_millis(), 1500);
}

#[test]
fn sidecar_config_defaults() {
    let config = SidecarConfig::default();
    assert_eq!(config.commit_interval, Duration::from_millis(245));
    assert_eq!(config.commits_per_epoch, 3);
    let copy = config.clone();
    assert_eq!(copy.commit_interval, config.commit_interval);
    let status = SidecarStatus::default();
    assert_eq!(status.action, "");
    assert_eq!((status.epoch, status.certified_blocks), (0, 0));
}

#[test]
fn demo_payload_is_stamped_with_the_clock() {
    let before = SystemTime::now().duration_since(UNIX_EPOCH).unwrap().as_secs();
    let payload = DemoPayload::new(3, vec![1, 2]);
    let after = SystemTime::now().duration_since(UNIX_EPOCH).unwrap().as_secs();
    assert_eq!(payload.height, 3);
    assert_eq!(payload.height(), 3);
    assert_eq!(payload.data, vec![1, 2]);
    assert!(before <= payload.timestamp && payload.timestamp <= after);
    assert_eq!(DemoPayload::at(4, 7, vec![9]), DemoPayload { height: 4, timestamp: 7, data: vec![9] });
}

#[test]
fn demo_payload_digest_covers_height_timestamp_and_data() {
    let payload = DemoPayload::at(5, 1700000000, b"block-1".to_vec());
    let mut hasher = commonware_cryptography::sha256::Sha256::new();
    hasher.update(&5u64.to_le_bytes());
    hasher.update(&1700000000u64.to_le_bytes());
    hasher.update(b"block-1");
    assert_eq!(payload.digest().bytes, hasher.finalize().0);
    assert_eq!(payload.digest(), payload.clone().digest());
    assert_ne!(payload.digest(), DemoPayload::at(5, 1700000001, b"block-1".to_vec()).digest());
}

#[test]
fn sidecar_counts_blocks_and_rotates_every_third_commit() {
    let mut progress = SidecarProgress::new();
    assert_eq!(progress.initializing().action, "Initializing...");
    assert_eq!(progress.waiting().action, "Waiting for leader...");
    assert_eq!(progress.commit_failed().action, "Commit failed, retrying...");
    let mut rotations = Vec::new();
    for block in 1..=7u64 {
        assert_eq!(progress.block_number(), block);
        assert_eq!(progress.proposing(12).action, format!("P12 proposing block {}", block));
        assert_eq!(progress.block_data(), format!("block-{}", block));
        assert_eq!(progress.collecting().action, format!("Collecting acks for block {}", block));
        let status = progress.block_certified();
        assert_eq!(status.action, format!("Block {} certified!", block));
        assert_eq!(status.certified_blocks, block);
        match progress.rotate_if_due(3) {
            Some(status) => {
                assert_eq!(
                    status.action,
                    format!("Rotating leader to epoch {}", progress.current_epoch)
                );
                assert_eq!(status.epoch, progress.current_epoch);
                rotations.push(block);
            }
            None => {}
        }
    }
    assert_eq!(rotations, vec![3, 6]);
    assert_eq!(progress.current_epoch, 2);
    assert_eq!(progress.commit_count, 1);
    assert_eq!(progress.certified_blocks, 7);
}

#[test]
fn participant_leads_when_its_turn_comes() {
    assert!(leads_in_epoch(0, 0, 3));
    assert!(leads_in_epoch(1, 4, 3));
    assert!(!leads_in_epoch(2, 4, 3));
    assert!(leads_in_epoch(0, 8, 8));
    assert!(leads_in_epoch(0, 5, 1));
}

#[test]
fn view_shows_what_the_conductor_says() {
    let keys: Vec<PublicKey> = (1..=3u8).map(|b| PublicKey::from_bytes([b; 32])).collect();
    let manager = RoundRobinEpochManager::new(keys.clone(), keys[0]);
    let mut conductor: Conductor<BlockPayload, RoundRobinEpochManager, u8> =
        Conductor::new(ConductorConfig { quorum_threshold: 1 }, manager, 0);
    conductor.start();
    let view = get_view(1, &conductor);
    assert_eq!(view.id, 1);
    assert_eq!(view.epoch, 0);
    assert!(view.is_leader);
    assert_eq!(view.next_height, 0);
    assert_eq!(view.certified_count, 0);
    let block = BlockPayload { height: 0, timestamp: 1, parent: None, data: vec![] };
    conductor.commit(block).unwrap();
    // The manager asks for a majority of three.
    assert!(conductor.acknowledge().is_none());
    conductor.acknowledge().unwrap();
    let view = get_view(1, &conductor);
    assert_eq!(view.next_height, 1);
    assert_eq!(view.certified_count, 1);
}
