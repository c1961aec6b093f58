use message_relay::addr::{Address, B256};
use message_relay::builder::{TxReceipt, assemble_input, confirm_preflight, extract_message};
use message_relay::error::RelayError;
use message_relay::event::{RawLog, encode_message_event_data, message_event_topic_bytes};
use message_relay::input::{GuestInput, read_frame};

fn contract() -> Address {
    Address { bytes: vec![0x42u8; 20] }
}

fn message_log(payload: &[u8]) -> RawLog {
    RawLog {
        address: contract(),
        topics: vec![B256 { bytes: message_event_topic_bytes() }],
        data: encode_message_event_data(3, &payload.to_vec()),
    }
}

fn foreign_log(payload: &[u8]) -> RawLog {
    let mut log = message_log(payload);
    log.address = Address { bytes: vec![0x43u8; 20] };
    log
}

#[test]
fn extract_fails_without_receipt() {
    assert!(matches!(
        extract_message(&None, &contract(), 10),
        Err(RelayError::NotFound)
    ));
}

#[test]
fn extract_fails_without_block_number() {
    let rc = TxReceipt { block_number: None, logs: vec![message_log(b"msg")] };
    assert!(matches!(
        extract_message(&Some(rc), &contract(), 10),
        Err(RelayError::NotIncluded)
    ));
}

#[test]
fn extract_enforces_block_ordering() {
    let rc = TxReceipt { block_number: Some(11), logs: vec![message_log(b"msg")] };
    assert!(matches!(
        extract_message(&Some(rc), &contract(), 10),
        Err(RelayError::InvalidCommitmentBlock)
    ));
    let rc_equal = TxReceipt { block_number: Some(10), logs: vec![message_log(b"msg")] };
    assert!(extract_message(&Some(rc_equal), &contract(), 10).is_ok());
}

#[test]
fn extract_fails_without_matching_event() {
    let rc = TxReceipt { block_number: Some(5), logs: vec![foreign_log(b"msg")] };
    assert!(matches!(
        extract_message(&Some(rc), &contract(), 10),
        Err(RelayError::EventNotFound)
    ));
}

#[test]
fn extract_rejects_empty_message() {
    let rc = TxReceipt { block_number: Some(5), logs: vec![message_log(b"")] };
    assert!(matches!(
        extract_message(&Some(rc), &contract(), 10),
        Err(RelayError::EmptyMessage)
    ));
}

#[test]
fn extract_returns_first_matching_event() {
    let rc = TxReceipt {
        block_number: Some(5),
        logs: vec![foreign_log(b"skipped"), message_log(b"first"), message_log(b"second")],
    };
    let (block, msg) = extract_message(&Some(rc), &contract(), 10).unwrap();
    assert_eq!(block, 5);
    assert_eq!(msg, b"first".to_vec());
}

#[test]
fn preflight_confirms_contained_payload() {
    let payloads = vec![b"other".to_vec(), b"expected".to_vec()];
    assert!(confirm_preflight(&payloads, &b"expected".to_vec()).is_ok());
}

#[test]
fn preflight_rejects_missing_payload() {
    let payloads = vec![b"other".to_vec()];
    assert!(matches!(
        confirm_preflight(&payloads, &b"expected".to_vec()),
        Err(RelayError::CommitmentMismatch)
    ));
    assert!(matches!(
        confirm_preflight(&Vec::new(), &b"expected".to_vec()),
        Err(RelayError::CommitmentMismatch)
    ));
}

#[test]
fn assemble_frames_serialized_input() {
    let framed = assemble_input(vec![9u8; 4], &contract(), b"expected".to_vec()).unwrap();
    let payload = read_frame(&framed).unwrap();
    match GuestInput::deserialize(&payload).unwrap() {
        GuestInput::FullMessage { commitment, contract_addr, encoded_message } => {
            assert_eq!(commitment, vec![9u8; 4]);
            assert_eq!(&contract_addr.bytes[..12], &[0u8; 12]);
            assert_eq!(&contract_addr.bytes[12..], &contract().bytes[..]);
            assert_eq!(encoded_message, b"expected".to_vec());
        },
        _ => panic!("wrong variant"),
    }
}
