use arturo::config::{Cli, Config};
use arturo::rpc::{
    acknowledge_response, commit_response, height_not_found, no_certified_payloads, CommitResponse,
    LeaderStatus,
};
use arturo::types::ConductorError;

#[test]
fn test_default_config() {
    let config = Config::default();
    assert_eq!(config.bind_addr.to_string(), "127.0.0.1:8080");
    assert!(config.peers.is_empty());
    assert_eq!(config.health_interval_ms, 1000);
    assert_eq!(config.quorum_threshold, 1);
    assert_eq!(config.identity, 0);
}

fn cli() -> Cli {
    Cli {
        config: None,
        bind_addr: "0.0.0.0:9000".to_string(),
        identity: None,
        peers: Vec::new(),
        health_interval_ms: 500,
        quorum_threshold: 2,
    }
}

#[test]
fn command_line_overrides_configuration() {
    let file = Config {
        bind_addr: "10.0.0.1:1".to_string(),
        peers: vec!["http://peer1:8080".to_string()],
        identity: 42,
        health_interval_ms: 1000,
        quorum_threshold: 1,
    };
    let merged = file.clone().overridden_by(cli());
    assert_eq!(merged.bind_addr, "0.0.0.0:9000");
    assert_eq!(merged.peers, vec!["http://peer1:8080"]);
    assert_eq!(merged.identity, 42);
    assert_eq!(merged.health_interval_ms, 500);
    assert_eq!(merged.quorum_threshold, 2);

    let mut given = cli();
    given.identity = Some(7);
    given.peers = vec!["http://x".to_string(), "http://y".to_string()];
    let merged = file.overridden_by(given);
    assert_eq!(merged.identity, 7);
    assert_eq!(merged.peers, vec!["http://x", "http://y"]);
}

#[test]
fn commit_reply_reports_success_or_the_error() {
    let (status, body) = commit_response(&Ok(()));
    assert_eq!(status, 200);
    assert!(body.success);
    assert_eq!(body.error, None);

    let (status, body) = commit_response(&Err(ConductorError::NotSequencer));
    assert_eq!(status, 400);
    assert!(!body.success);
    assert_eq!(body.error, Some("not the current sequencer".to_string()));

    let (_, body) = commit_response(&Err(ConductorError::InvalidHeight { expected: 1, got: 5 }));
    assert_eq!(body.error, Some("invalid height: expected 1, got 5".to_string()));
}

#[test]
fn acknowledge_reply_names_the_certified_height() {
    let nothing: Option<Block> = None;
    let reply = acknowledge_response(&nothing);
    assert!(!reply.certified);
    assert_eq!(reply.height, None);
    let reply = acknowledge_response(&Some(Block { height: 12 }));
    assert!(reply.certified);
    assert_eq!(reply.height, Some(12));
}

#[test]
fn missing_payload_replies() {
    let (status, body) = no_certified_payloads();
    assert_eq!(status, 404);
    assert_eq!(body.error, "no certified payloads");
    let (status, body) = height_not_found(100);
    assert_eq!(status, 404);
    assert_eq!(body.error, "payload at height 100 not found");
    assert_eq!(height_not_found(0).1.error, "payload at height 0 not found");
}

#[test]
fn reply_bodies_are_plain_values() {
    let status = LeaderStatus { is_leader: true, epoch: 42, next_height: 100 };
    let copy = status.clone();
    assert_eq!(copy.is_leader, status.is_leader);
    assert_eq!(copy.epoch, status.epoch);
    assert_eq!(copy.next_height, status.next_height);
    let response = CommitResponse { success: false, error: Some("test error".to_string()) };
    assert_eq!(response.clone().error.unwrap(), "test error");
}

#[derive(Clone)]
struct Block {
    height: u64,
}

impl arturo::traits::Payload for Block {
    fn model(&self) -> arturo::traits::PayloadModel {
        unreachable!()
    }

    fn clone_keeps_model(&self, _copy: &Self) {}

    fn digest(&self) -> arturo::digest::Digest {
        arturo::digest::hash(&self.height.to_le_bytes())
    }

    fn height(&self) -> u64 {
        self.height
    }

    fn parent(&self) -> Option<arturo::digest::Digest> {
        None
    }

    fn encode(&self) -> Vec<u8> {
        self.height.to_le_bytes().to_vec()
    }

    fn decode(bytes: &[u8]) -> Option<Self> {
        Some(Block { height: u64::from_le_bytes(bytes.try_into().ok()?) })
    }
}

#[test]
fn peer_seeds_skip_the_local_seed() {
    assert_eq!(arturo::config::peer_seeds(3, 2), vec![1, 3, 4]);
    assert_eq!(arturo::config::peer_seeds(3, 0), vec![2, 3, 4]);
    assert_eq!(arturo::config::peer_seeds(2, 9), vec![1, 2]);
    assert_eq!(arturo::config::peer_seeds(0, 1), Vec::<u64>::new());
    assert_eq!(arturo::config::peer_seeds(3, 1), vec![2, 3, 4]);
}

#[test]
fn self_url_is_http_and_the_address() {
    assert_eq!(arturo::config::self_url(&"127.0.0.1:8080".to_string()), "http://127.0.0.1:8080");
}
