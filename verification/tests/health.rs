use arturo::health::{HealthStatus, HealthTracker, PeerHealth};

#[test]
fn test_peer_health_new() {
    let peer = PeerHealth::new("http://localhost:8080".to_string());
    assert!(!peer.healthy);
    assert!(peer.last_seen.is_none());
    assert_eq!(peer.consecutive_failures, 0);
}

#[test]
fn test_peer_health_mark_healthy() {
    let mut peer = PeerHealth::new("http://localhost:8080".to_string());
    peer.mark_unhealthy();
    peer.mark_unhealthy();
    assert_eq!(peer.consecutive_failures, 2);

    peer.mark_healthy();
    assert!(peer.healthy);
    assert!(peer.last_seen.is_some());
    assert_eq!(peer.consecutive_failures, 0);
}

#[test]
fn test_health_tracker_healthy_peers() {
    let mut tracker =
        HealthTracker::new(vec!["http://a:8080".to_string(), "http://b:8080".to_string()]);

    // Initially no peers are healthy
    assert!(tracker.healthy_peers().is_empty());

    // Mark one as healthy
    tracker.record_check(&"http://a:8080".to_string(), true);

    let healthy = tracker.healthy_peers();
    assert_eq!(healthy, vec!["http://a:8080"]);
}

#[test]
fn healthy_peers_are_sorted() {
    let mut tracker = HealthTracker::new(vec![
        "http://c".to_string(),
        "http://a".to_string(),
        "http://b".to_string(),
        "http://d".to_string(),
    ]);
    for url in ["http://d", "http://a", "http://c"] {
        tracker.record_check(&url.to_string(), true);
    }
    assert_eq!(tracker.healthy_peers(), vec!["http://a", "http://c", "http://d"]);
    tracker.record_check(&"http://a".to_string(), false);
    assert_eq!(tracker.healthy_peers(), vec!["http://c", "http://d"]);
}

#[test]
fn tracker_keeps_one_record_for_each_url() {
    let mut tracker = HealthTracker::new(vec![
        "http://a".to_string(),
        "http://b".to_string(),
        "http://a".to_string(),
    ]);
    assert_eq!(tracker.all_peers().len(), 2);
    tracker.record_check(&"http://a".to_string(), true);
    assert_eq!(tracker.healthy_peers(), vec!["http://a"]);
}

#[test]
fn failed_checks_are_counted_and_unknown_urls_ignored() {
    let mut tracker = HealthTracker::new(vec!["http://a".to_string(), "http://b".to_string()]);
    tracker.record_check(&"http://b".to_string(), false);
    tracker.record_check(&"http://b".to_string(), false);
    tracker.record_check(&"http://nobody".to_string(), true);
    let peers = tracker.all_peers();
    assert_eq!(peers.len(), 2);
    let a = peers.iter().find(|peer| peer.url == "http://a").unwrap();
    let b = peers.iter().find(|peer| peer.url == "http://b").unwrap();
    assert_eq!(a.consecutive_failures, 0);
    assert!(!a.healthy);
    assert_eq!(b.consecutive_failures, 2);
    assert!(!b.healthy);
    assert!(b.last_seen.is_none());
    tracker.record_check(&"http://b".to_string(), true);
    let peers = tracker.all_peers();
    let b = peers.iter().find(|peer| peer.url == "http://b").unwrap();
    assert!(b.healthy);
    assert!(b.last_seen.is_some());
    assert_eq!(b.consecutive_failures, 0);
}

#[test]
fn mark_unhealthy_keeps_last_seen() {
    let mut peer = PeerHealth::new("http://a".to_string());
    peer.mark_healthy();
    let seen = peer.last_seen;
    peer.mark_unhealthy();
    assert!(!peer.healthy);
    assert_eq!(peer.last_seen, seen);
    assert_eq!(peer.consecutive_failures, 1);
    assert_eq!(peer.url, "http://a");
}

#[test]
fn health_status_holds_what_a_node_reports() {
    let status =
        HealthStatus { healthy: true, identity: "node1".to_string(), epoch: 5, is_leader: true };
    let copy = status.clone();
    assert!(copy.healthy && copy.is_leader);
    assert_eq!(copy.identity, "node1");
    assert_eq!(copy.epoch, 5);
}
