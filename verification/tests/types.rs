use arturo::types::{ConductorError, EpochChange, PendingPayload, StoreError, TransferError};

#[test]
fn epoch_change_display() {
    let change = EpochChange { epoch: 42, sequencer: "node1", is_self: true };
    let display = change.to_string();
    assert!(display.contains("42"));
    assert!(display.contains("node1"));
    assert!(display.contains("true"));
}

#[test]
fn epoch_change_display_exact() {
    let change = EpochChange { epoch: 42, sequencer: "node1", is_self: true };
    assert_eq!(change.to_string(), "EpochChange { epoch: 42, sequencer: node1, is_self: true }");
    let change = EpochChange { epoch: 0, sequencer: 7u8, is_self: false };
    assert_eq!(change.to_string(), "EpochChange { epoch: 0, sequencer: 7, is_self: false }");
    let change = EpochChange { epoch: u64::MAX, sequencer: "x", is_self: false };
    assert_eq!(
        change.to_string(),
        "EpochChange { epoch: 18446744073709551615, sequencer: x, is_self: false }"
    );
}

#[test]
fn pending_payload_certification_below_threshold() {
    let mut pending = PendingPayload::new("test", 3);
    for _ in 0..2 {
        pending.acknowledge();
    }
    assert_eq!(pending.is_certified(), false);
}

#[test]
fn pending_payload_certification_at_threshold() {
    let mut pending = PendingPayload::new("test", 3);
    for _ in 0..3 {
        pending.acknowledge();
    }
    assert_eq!(pending.is_certified(), true);
}

#[test]
fn pending_payload_certification_above_threshold() {
    let mut pending = PendingPayload::new("test", 3);
    for _ in 0..4 {
        pending.acknowledge();
    }
    assert_eq!(pending.is_certified(), true);
}

#[test]
fn pending_payload_starts_without_acks() {
    let pending = PendingPayload::new(5u8, 0);
    assert_eq!(pending.acks, 0);
    assert_eq!(pending.threshold, 0);
    assert_eq!(pending.payload, 5u8);
    assert!(pending.is_certified());
}

#[test]
fn conductor_error_display_not_sequencer() {
    assert_eq!(ConductorError::NotSequencer.to_string(), "not the current sequencer");
}

#[test]
fn conductor_error_display_not_initialized() {
    assert_eq!(ConductorError::NotInitialized.to_string(), "conductor not initialized");
}

#[test]
fn conductor_error_display_channel_closed() {
    assert_eq!(ConductorError::ChannelClosed.to_string(), "internal channel closed");
}

#[test]
fn conductor_error_display_validation_failed() {
    assert_eq!(
        ConductorError::ValidationFailed("bad".to_string()).to_string(),
        "payload validation failed: bad"
    );
}

#[test]
fn conductor_error_display_invalid_height() {
    assert_eq!(
        ConductorError::InvalidHeight { expected: 1, got: 5 }.to_string(),
        "invalid height: expected 1, got 5"
    );
    assert_eq!(
        ConductorError::InvalidHeight { expected: 120, got: 1009 }.to_string(),
        "invalid height: expected 120, got 1009"
    );
}

#[test]
fn conductor_error_display_parent_mismatch() {
    assert_eq!(
        ConductorError::ParentMismatch { expected: "aa".to_string(), got: "bb".to_string() }
            .to_string(),
        "parent mismatch: expected aa, got bb"
    );
}

#[test]
fn transfer_error_display_not_supported() {
    assert_eq!(TransferError::NotSupported.to_string(), "transfer not supported");
}

#[test]
fn transfer_error_display_no_successor() {
    assert_eq!(TransferError::NoSuccessor.to_string(), "no successor available");
}

#[test]
fn transfer_error_display_in_progress() {
    assert_eq!(TransferError::InProgress.to_string(), "transfer in progress");
}

#[test]
fn transfer_error_display_timeout() {
    assert_eq!(TransferError::Timeout.to_string(), "transfer timeout");
}

#[test]
fn transfer_error_display_failed() {
    assert_eq!(TransferError::Failed("reason".to_string()).to_string(), "transfer failed: reason");
}

#[test]
fn store_error_display_already_exists() {
    assert_eq!(StoreError::AlreadyExists.to_string(), "payload already exists");
}

#[test]
fn store_error_display_backend() {
    assert_eq!(StoreError::Backend("db error".to_string()).to_string(), "storage error: db error");
}
