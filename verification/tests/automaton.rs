use arturo::automaton::{PayloadAutomaton, PayloadContext};
use arturo::digest::{hash, Digest};
use arturo::traits::{Payload, PayloadModel};
use arturo::types::Height;
use commonware_cryptography::Hasher;

#[derive(Clone, Debug, PartialEq)]
struct TestPayload {
    data: Vec<u8>,
    height: Height,
    parent: Option<Digest>,
}

impl Payload for TestPayload {
    fn model(&self) -> PayloadModel {
        unreachable!()
    }

    fn clone_keeps_model(&self, _copy: &Self) {}

    fn digest(&self) -> Digest {
        let mut message = Vec::new();
        message.extend_from_slice(&self.height.to_le_bytes());
        message.extend_from_slice(&self.data);
        hash(&message)
    }

    fn height(&self) -> Height {
        self.height
    }

    fn parent(&self) -> Option<Digest> {
        self.parent
    }

    fn encode(&self) -> Vec<u8> {
        let mut buf = Vec::new();
        buf.extend_from_slice(&self.height.to_le_bytes());
        buf.extend_from_slice(&self.data);
        buf
    }

    fn decode(bytes: &[u8]) -> Option<Self> {
        if bytes.len() < 8 {
            return None;
        }
        let height = u64::from_le_bytes(bytes[..8].try_into().ok()?);
        let data = bytes[8..].to_vec();
        Some(Self { data, height, parent: None })
    }
}

fn context() -> PayloadContext<String> {
    PayloadContext { sequencer: "sequencer".to_string(), height: 0 }
}

#[test]
fn test_automaton_genesis() {
    let genesis = TestPayload { data: vec![1, 2, 3], height: 0, parent: None };
    let genesis_digest = genesis.digest();

    let automaton: PayloadAutomaton<TestPayload, String> = PayloadAutomaton::with_genesis(genesis);

    let result = automaton.genesis(0);
    assert_eq!(result, genesis_digest);
}

#[test]
fn test_automaton_empty_genesis() {
    let automaton: PayloadAutomaton<TestPayload, String> = PayloadAutomaton::new();

    let result = automaton.genesis(0);
    assert_eq!(result, Digest::empty());
    assert_eq!(result.bytes, [0u8; 32]);
}

#[test]
fn test_submit_and_acknowledge() {
    let mut automaton: PayloadAutomaton<TestPayload, String> = PayloadAutomaton::new();

    let payload = TestPayload { data: vec![1, 2, 3], height: 0, parent: None };

    // Submit with threshold of 2
    let digest = automaton.submit_proposal(payload.clone(), 2);
    assert_eq!(digest, payload.digest());

    // First ack - not certified yet
    assert!(automaton.acknowledge().is_none());

    // Second ack - certified
    let certified = automaton.acknowledge();
    assert!(certified.is_some());
    assert_eq!(certified.unwrap(), payload);
}

#[test]
fn test_validate_sequential_heights() {
    let genesis = TestPayload { data: vec![1], height: 0, parent: None };
    let automaton: PayloadAutomaton<TestPayload, String> = PayloadAutomaton::with_genesis(genesis);

    // Valid next payload
    let valid = TestPayload { data: vec![2], height: 1, parent: None };
    assert!(automaton.validate(&valid));

    // Invalid height (skipped)
    let invalid = TestPayload { data: vec![3], height: 5, parent: None };
    assert!(!automaton.validate(&invalid));
}

#[test]
fn test_validate_parent_digest() {
    let genesis = TestPayload { data: vec![1], height: 0, parent: None };
    let genesis_digest = genesis.digest();
    let automaton: PayloadAutomaton<TestPayload, String> = PayloadAutomaton::with_genesis(genesis);

    // Valid parent
    let valid = TestPayload { data: vec![2], height: 1, parent: Some(genesis_digest) };
    assert!(automaton.validate(&valid));

    // Invalid parent - create a different digest
    let invalid_parent = hash(b"invalid");
    let invalid = TestPayload { data: vec![3], height: 1, parent: Some(invalid_parent) };
    assert!(!automaton.validate(&invalid));
}

#[test]
fn test_certify_directly() {
    let mut automaton: PayloadAutomaton<TestPayload, String> = PayloadAutomaton::new();

    let payload = TestPayload { data: vec![1, 2, 3], height: 0, parent: None };

    automaton.certify(payload.clone());

    let latest = automaton.latest();
    assert_eq!(latest, Some(payload));
}

#[test]
fn test_get_by_height() {
    let mut automaton: PayloadAutomaton<TestPayload, String> = PayloadAutomaton::new();

    let p0 = TestPayload { data: vec![1], height: 0, parent: None };
    let p1 = TestPayload { data: vec![2], height: 1, parent: None };

    automaton.certify(p0.clone());
    automaton.certify(p1.clone());

    assert_eq!(automaton.get_by_height(0), Some(p0));
    assert_eq!(automaton.get_by_height(1), Some(p1));
    assert_eq!(automaton.get_by_height(2), None);
}

#[test]
fn genesis_bootstrap_from_empty_chain() {
    let mut automaton: PayloadAutomaton<TestPayload, String> = PayloadAutomaton::new();
    assert_eq!(automaton.next_height(), 0);
    let first = TestPayload { data: vec![9], height: 0, parent: None };
    assert!(automaton.validate(&first));
    automaton.submit_proposal(first.clone(), 1);
    assert_eq!(automaton.acknowledge(), Some(first.clone()));
    assert_eq!(automaton.latest().unwrap().height(), 0);
    assert_eq!(automaton.get_by_height(0), Some(first));
    assert_eq!(automaton.next_height(), 1);
}

#[test]
fn parent_on_empty_chain_is_refused() {
    let automaton: PayloadAutomaton<TestPayload, String> = PayloadAutomaton::new();
    let orphan = TestPayload { data: vec![1], height: 0, parent: Some(hash(b"nothing")) };
    assert!(!automaton.validate(&orphan));
}

#[test]
fn acknowledge_without_pending_returns_none() {
    let mut automaton: PayloadAutomaton<TestPayload, String> = PayloadAutomaton::new();
    assert!(automaton.acknowledge().is_none());
    assert!(automaton.latest().is_none());
}

#[test]
fn acknowledge_certifies_exactly_once() {
    let mut automaton: PayloadAutomaton<TestPayload, String> = PayloadAutomaton::new();
    let payload = TestPayload { data: vec![4], height: 0, parent: None };
    automaton.submit_proposal(payload.clone(), 3);
    assert!(automaton.acknowledge().is_none());
    assert!(automaton.acknowledge().is_none());
    assert_eq!(automaton.acknowledge(), Some(payload.clone()));
    assert!(automaton.acknowledge().is_none());
    assert!(automaton.acknowledge().is_none());
    assert_eq!(automaton.latest(), Some(payload));
}

#[test]
fn threshold_zero_certifies_on_first_acknowledgment() {
    let mut automaton: PayloadAutomaton<TestPayload, String> = PayloadAutomaton::new();
    let payload = TestPayload { data: vec![4], height: 0, parent: None };
    automaton.submit_proposal(payload.clone(), 0);
    assert_eq!(automaton.acknowledge(), Some(payload));
}

#[test]
fn later_proposal_shadows_earlier_one() {
    let mut automaton: PayloadAutomaton<TestPayload, String> = PayloadAutomaton::new();
    let first = TestPayload { data: vec![1], height: 0, parent: None };
    let second = TestPayload { data: vec![2], height: 0, parent: None };
    automaton.submit_proposal(first, 2);
    assert!(automaton.acknowledge().is_none());
    automaton.submit_proposal(second.clone(), 2);
    assert!(automaton.acknowledge().is_none());
    assert_eq!(automaton.acknowledge(), Some(second));
}

#[test]
fn certify_below_latest_keeps_latest() {
    let mut automaton: PayloadAutomaton<TestPayload, String> = PayloadAutomaton::new();
    let p5 = TestPayload { data: vec![5], height: 5, parent: None };
    let p2 = TestPayload { data: vec![2], height: 2, parent: None };
    let p5b = TestPayload { data: vec![55], height: 5, parent: None };
    automaton.certify(p5.clone());
    automaton.certify(p2.clone());
    assert_eq!(automaton.latest(), Some(p5.clone()));
    assert_eq!(automaton.get_by_height(2), Some(p2));
    assert_eq!(automaton.get_by_height(3), None);
    automaton.certify(p5b.clone());
    assert_eq!(automaton.latest(), Some(p5));
    assert_eq!(automaton.get_by_height(5), Some(p5b));
    assert_eq!(automaton.next_height(), 6);
}

#[test]
fn certify_leaves_pending_untouched() {
    let mut automaton: PayloadAutomaton<TestPayload, String> = PayloadAutomaton::new();
    let pending = TestPayload { data: vec![1], height: 0, parent: None };
    let other = TestPayload { data: vec![2], height: 0, parent: None };
    automaton.submit_proposal(pending.clone(), 1);
    automaton.certify(other);
    assert_eq!(automaton.propose(context()), Some(pending.digest()));
    assert_eq!(automaton.acknowledge(), Some(pending));
}

#[test]
fn propose_gives_pending_digest_or_nothing() {
    let mut automaton: PayloadAutomaton<TestPayload, String> = PayloadAutomaton::new();
    assert_eq!(automaton.propose(context()), None);
    let payload = TestPayload { data: vec![7], height: 0, parent: None };
    automaton.submit_proposal(payload.clone(), 1);
    assert_eq!(automaton.propose(context()), Some(payload.digest()));
    automaton.acknowledge();
    assert_eq!(automaton.propose(context()), None);
}

#[test]
fn verify_knows_pending_and_certified_digests() {
    let mut automaton: PayloadAutomaton<TestPayload, String> = PayloadAutomaton::new();
    let certified = TestPayload { data: vec![1], height: 0, parent: None };
    let pending = TestPayload { data: vec![2], height: 1, parent: None };
    let unknown = TestPayload { data: vec![3], height: 2, parent: None };
    assert!(!automaton.verify(context(), certified.digest()));
    automaton.certify(certified.clone());
    assert!(automaton.verify(context(), certified.digest()));
    automaton.submit_proposal(pending.clone(), 2);
    assert!(automaton.verify(context(), pending.digest()));
    assert!(automaton.verify(context(), certified.digest()));
    assert!(!automaton.verify(context(), unknown.digest()));
}

#[test]
fn digest_is_sha256_of_the_message() {
    let mut hasher = commonware_cryptography::sha256::Sha256::new();
    hasher.update(&7u64.to_le_bytes());
    hasher.update(&[1, 2, 3]);
    let expected = hasher.finalize();
    let payload = TestPayload { data: vec![1, 2, 3], height: 7, parent: None };
    assert_eq!(payload.digest().bytes, expected.0);
    let hello = hash(b"hello world");
    assert_eq!(hello.bytes[0], 0xb9);
    assert_eq!(hello.bytes[31], 0xe9);
    assert_ne!(hash(b"hello world"), hash(b"hello worle"));
}
