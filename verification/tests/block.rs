use arturo::automaton::PayloadAutomaton;
use arturo::block::BlockPayload;
use arturo::digest::Digest;
use arturo::traits::{Payload, PayloadStore};
use arturo::types::StoreError;
use commonware_cryptography::Hasher;

fn genesis() -> BlockPayload {
    BlockPayload { height: 0, timestamp: 1700000000, parent: None, data: b"genesis".to_vec() }
}

fn child(of: &BlockPayload) -> BlockPayload {
    BlockPayload {
        height: of.height + 1,
        timestamp: 1700000012,
        parent: Some(of.digest()),
        data: b"block 1".to_vec(),
    }
}

#[test]
fn block_round_trips_through_its_encoding() {
    let block1 = child(&genesis());
    assert_eq!(block1, BlockPayload::decode(&block1.encode()).unwrap());
    assert_eq!(genesis(), BlockPayload::decode(&genesis().encode()).unwrap());
    let empty = BlockPayload { height: u64::MAX, timestamp: 0, parent: None, data: Vec::new() };
    assert_eq!(empty, BlockPayload::decode(&empty.encode()).unwrap());
}

#[test]
fn block_encoding_is_fields_in_order() {
    let block = BlockPayload { height: 1, timestamp: 2, parent: None, data: vec![9, 8] };
    assert_eq!(block.encode(), vec![1, 0, 0, 0, 0, 0, 0, 0, 2, 0, 0, 0, 0, 0, 0, 0, 0, 9, 8]);
    let parent = Digest::from_bytes([7u8; 32]);
    let block = BlockPayload { height: 258, timestamp: 0, parent: Some(parent), data: vec![5] };
    let mut expected = vec![2, 1, 0, 0, 0, 0, 0, 0, 0, 0, 0, 0, 0, 0, 0, 0, 1];
    expected.extend_from_slice(&[7u8; 32]);
    expected.push(5);
    assert_eq!(block.encode(), expected);
}

#[test]
fn block_decode_refuses_short_input() {
    assert_eq!(BlockPayload::decode(&[]), None);
    assert_eq!(BlockPayload::decode(&[0u8; 16]), None);
    let mut flagged = vec![0u8; 17];
    flagged[16] = 1;
    flagged.extend_from_slice(&[3u8; 31]);
    assert_eq!(BlockPayload::decode(&flagged), None);
    flagged.push(3);
    let decoded = BlockPayload::decode(&flagged).unwrap();
    assert_eq!(decoded.parent, Some(Digest::from_bytes([3u8; 32])));
    assert!(decoded.data.is_empty());
    let bare = BlockPayload::decode(&[0u8; 17]).unwrap();
    assert_eq!(bare, BlockPayload { height: 0, timestamp: 0, parent: None, data: Vec::new() });
}

#[test]
fn block_digest_covers_height_timestamp_parent_and_data() {
    let block = child(&genesis());
    let mut hasher = commonware_cryptography::sha256::Sha256::new();
    hasher.update(&block.height.to_le_bytes());
    hasher.update(&block.timestamp.to_le_bytes());
    hasher.update(&block.parent.unwrap().bytes);
    hasher.update(&block.data);
    assert_eq!(block.digest().bytes, hasher.finalize().0);

    let mut other = block.clone();
    other.timestamp += 1;
    assert_ne!(other.digest(), block.digest());
    let mut other = block.clone();
    other.data.push(0);
    assert_ne!(other.digest(), block.digest());
    let mut other = block.clone();
    other.parent = None;
    assert_ne!(other.digest(), block.digest());
}

#[test]
fn block_digest_is_deterministic() {
    let block = child(&genesis());
    assert_eq!(block.digest(), block.digest());
    assert_eq!(block.digest(), block.clone().digest());
    assert_eq!(block.height(), 1);
    assert_eq!(block.parent(), Some(genesis().digest()));
}

#[test]
fn blocks_chain_through_the_automaton() {
    let mut automaton: PayloadAutomaton<BlockPayload, u8> =
        PayloadAutomaton::with_genesis(genesis());
    let block1 = child(&genesis());
    assert!(automaton.validate(&block1));
    let mut stranger = child(&genesis());
    stranger.parent = Some(Digest::empty());
    assert!(!automaton.validate(&stranger));
    automaton.submit_proposal(block1.clone(), 1);
    assert_eq!(automaton.acknowledge(), Some(block1.clone()));
    assert!(automaton.validate(&child(&block1)));
}

#[test]
fn automaton_is_a_payload_store() {
    let mut store: PayloadAutomaton<BlockPayload, u8> = PayloadAutomaton::new();
    let first = genesis();
    let second = child(&first);
    assert_eq!(PayloadStore::store(&mut store, &first), Ok(()));
    assert_eq!(PayloadStore::store(&mut store, &second), Ok(()));
    assert_eq!(PayloadStore::get(&store, &second.digest()), Some(second.clone()));
    assert_eq!(PayloadStore::get(&store, &Digest::empty()), None);
    assert_eq!(PayloadStore::get_by_height(&store, 0), Some(first));
    assert_eq!(PayloadStore::get_by_height(&store, 2), None);
    assert_eq!(PayloadStore::latest(&store), Some(second));
    let last = BlockPayload { height: u64::MAX, timestamp: 0, parent: None, data: Vec::new() };
    assert_eq!(
        PayloadStore::store(&mut store, &last),
        Err(StoreError::Backend("height out of range".to_string()))
    );
    assert_eq!(PayloadStore::get_by_height(&store, u64::MAX), None);
}
