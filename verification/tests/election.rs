use arturo::election::{elect, HealthBasedEpochManager};
use arturo::keys::PublicKey;
use arturo::traits::EpochManager;
use arturo::types::TransferError;
use commonware_cryptography::{ed25519, Signer};

fn key(seed: u64) -> PublicKey {
    let public = ed25519::PrivateKey::from_seed(seed).public_key();
    let mut bytes = [0u8; 32];
    bytes.copy_from_slice(public.as_ref());
    PublicKey::from_bytes(bytes)
}

fn urls(list: &[&str]) -> Vec<String> {
    list.iter().map(|url| url.to_string()).collect()
}

#[test]
fn test_epoch_manager_initial_state() {
    let manager = HealthBasedEpochManager::new(
        "http://localhost:8080".to_string(),
        vec!["http://peer1:8080".to_string()],
        key(42),
        vec![key(1)],
        1,
    );

    assert_eq!(manager.current_epoch(), 0);
    assert_eq!(manager.quorum_threshold(0), Some(1));
}

#[test]
fn test_epoch_manager_validators() {
    let manager = HealthBasedEpochManager::new(
        "http://localhost:8080".to_string(),
        vec!["http://peer1:8080".to_string()],
        key(42),
        vec![key(1)],
        2,
    );

    let validators = manager.validators(0).unwrap();
    assert_eq!(validators.len(), 2);
    assert_eq!(validators, vec![key(1), key(42)]);
    assert_eq!(manager.validators(1), None);
}

#[test]
fn test_transfer_not_supported() {
    let manager =
        HealthBasedEpochManager::new("http://localhost:8080".to_string(), vec![], key(42), vec![], 1);

    let result = manager.transfer_leader();
    assert!(matches!(result, Err(TransferError::NotSupported)));
}

#[test]
fn health_sort_elects_first_url() {
    let leader = elect(urls(&["http://a", "http://c"]), &"http://b".to_string());
    assert_eq!(leader, "http://a");

    let mut manager = HealthBasedEpochManager::new(
        "http://b".to_string(),
        urls(&["http://a", "http://c"]),
        key(2),
        vec![key(1), key(3)],
        2,
    );
    let change = manager.poll_and_update(urls(&["http://a", "http://c"])).unwrap();
    assert_eq!(change.epoch, 1);
    assert!(!change.is_self);
    assert_eq!(change.sequencer, key(1));
    assert_eq!(manager.current_epoch(), 1);
    assert_eq!(manager.sequencer(1), Some(key(1)));
    assert!(!manager.is_sequencer(&key(2)));
}

#[test]
fn elect_takes_the_least_of_healthy_and_self() {
    assert_eq!(elect(Vec::new(), &"http://z".to_string()), "http://z");
    assert_eq!(elect(urls(&["http://m", "http://k"]), &"http://b".to_string()), "http://b");
    assert_eq!(elect(urls(&["http://m", "http://k"]), &"http://l".to_string()), "http://k");
    assert_eq!(elect(urls(&["b", "ab", "abc"]), &"b".to_string()), "ab");
    assert_eq!(elect(urls(&["http://a:80", "http://a"]), &"http://b".to_string()), "http://a");
    assert_eq!(elect(urls(&["B", "a"]), &"c".to_string()), "B");
    assert_eq!(elect(urls(&["é", "z"]), &"zz".to_string()), "z");
}

#[test]
fn leader_change_begins_an_epoch_and_none_keeps_it() {
    let mut manager = HealthBasedEpochManager::new(
        "http://b".to_string(),
        urls(&["http://a", "http://c"]),
        key(2),
        vec![key(1), key(3)],
        2,
    );
    assert_eq!(manager.sequencer(0), None);

    // Nobody else is healthy: the local node leads.
    let first = manager.poll_and_update(Vec::new()).unwrap();
    assert_eq!(first.epoch, 1);
    assert!(first.is_self);
    assert_eq!(first.sequencer, key(2));
    assert!(manager.is_sequencer(&key(2)));
    assert!(!manager.is_sequencer(&key(1)));
    assert_eq!(manager.sequencer(1), Some(key(2)));
    assert_eq!(manager.sequencer(0), None);

    // Same leader again: no change, same epoch.
    assert_eq!(manager.poll_and_update(urls(&["http://c"])), None);
    assert_eq!(manager.current_epoch(), 1);

    // A peer that sorts first becomes healthy.
    let second = manager.poll_and_update(urls(&["http://c", "http://a"])).unwrap();
    assert_eq!(second.epoch, 2);
    assert!(!second.is_self);
    assert_eq!(second.sequencer, key(1));
    assert_eq!(Some(second.sequencer), manager.sequencer(second.epoch));
    assert_eq!(manager.sequencer(2), Some(key(1)));
    assert!(!manager.is_sequencer(&key(2)));
    assert!(first.epoch <= second.epoch);

    // It fails again.
    let third = manager.poll_and_update(urls(&["http://c"])).unwrap();
    assert_eq!(third.epoch, 3);
    assert!(third.is_self);
    assert_eq!(third.sequencer, key(2));
    assert!(second.epoch <= third.epoch);
}

#[test]
fn key_for_url_skips_the_local_place() {
    let manager = HealthBasedEpochManager::new(
        "http://b".to_string(),
        urls(&["http://c", "http://a", "http://d"]),
        key(20),
        vec![key(10), key(30), key(40)],
        2,
    );
    // All URLs sorted: a, b, c, d; peer keys are taken by place without b.
    assert_eq!(manager.key_for_url(&"http://a".to_string()), Some(key(10)));
    assert_eq!(manager.key_for_url(&"http://b".to_string()), Some(key(20)));
    assert_eq!(manager.key_for_url(&"http://c".to_string()), Some(key(30)));
    assert_eq!(manager.key_for_url(&"http://d".to_string()), Some(key(40)));
    assert_eq!(manager.key_for_url(&"http://e".to_string()), None);
}

#[test]
fn key_for_url_is_none_beyond_known_peer_keys() {
    let manager = HealthBasedEpochManager::new(
        "http://a".to_string(),
        urls(&["http://b", "http://c"]),
        key(1),
        vec![key(2)],
        1,
    );
    assert_eq!(manager.key_for_url(&"http://b".to_string()), Some(key(2)));
    assert_eq!(manager.key_for_url(&"http://c".to_string()), None);
}

#[test]
fn change_names_the_key_of_the_elected_peer() {
    let mut manager = HealthBasedEpochManager::new(
        "http://c".to_string(),
        urls(&["http://d", "http://a", "http://b"]),
        key(30),
        vec![key(10), key(20), key(40)],
        2,
    );
    let change = manager.poll_and_update(urls(&["http://b", "http://d"])).unwrap();
    assert!(!change.is_self);
    assert_eq!(change.sequencer, key(20));
    assert_eq!(manager.sequencer(change.epoch), Some(key(20)));
    let change = manager.poll_and_update(urls(&["http://d"])).unwrap();
    assert!(change.is_self);
    assert_eq!(change.sequencer, key(30));
    let change = manager.poll_and_update(urls(&["http://a", "http://d"])).unwrap();
    assert_eq!(change.sequencer, key(10));
    assert_ne!(change.sequencer, key(30));
}

#[test]
fn change_names_the_local_key_where_the_leader_has_none() {
    // The elected URL is not among the URLs that the manager was made with.
    let mut manager = HealthBasedEpochManager::new(
        "http://b".to_string(),
        urls(&["http://c"]),
        key(2),
        vec![key(3)],
        1,
    );
    let change = manager.poll_and_update(urls(&["http://a"])).unwrap();
    assert!(!change.is_self);
    assert_eq!(change.sequencer, key(2));
    assert_eq!(manager.sequencer(change.epoch), None);

    // Fewer peer keys than peers: the last peer has no key.
    let mut manager = HealthBasedEpochManager::new(
        "http://z".to_string(),
        urls(&["http://a", "http://b"]),
        key(9),
        vec![key(1)],
        1,
    );
    let change = manager.poll_and_update(urls(&["http://b"])).unwrap();
    assert_eq!(change.sequencer, key(9));
    assert_eq!(manager.sequencer(change.epoch), None);
    let change = manager.poll_and_update(urls(&["http://a", "http://b"])).unwrap();
    assert_eq!(change.sequencer, key(1));
}
