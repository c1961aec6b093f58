use message_relay::addr::{Address, B256};
use message_relay::error::RelayError;
use message_relay::gate::{authorize_submission, check_submission_receipt};
use message_relay::journal::{Commitment, Journal};

fn journal_bytes() -> Vec<u8> {
    Journal::FullMessage {
        commitment: Commitment { bytes: vec![1u8; 96] },
        encoded_message: b"expected".to_vec(),
        emitter_contract: Address { bytes: vec![2u8; 20] },
    }
    .abi_encode()
}

fn identity(b: u8) -> B256 {
    B256 { bytes: vec![b; 32] }
}

#[test]
fn gate_authorizes_matching_identity() {
    let jb = journal_bytes();
    let req = authorize_submission(&jb, vec![0xaau8; 4], &identity(1), &identity(1)).unwrap();
    assert_eq!(req.encoded_message, b"expected".to_vec());
    assert_eq!(req.journal_data, jb);
    assert_eq!(req.seal, vec![0xaau8; 4]);
}

#[test]
fn gate_blocks_identity_mismatch() {
    let jb = journal_bytes();
    let r = authorize_submission(&jb, vec![0xaau8; 4], &identity(1), &identity(2));
    assert!(matches!(r, Err(RelayError::ProgramIdentityMismatch)));
}

#[test]
fn gate_rejects_malformed_journal() {
    let garbage = vec![5u8; 33];
    let r = authorize_submission(&garbage, Vec::new(), &identity(1), &identity(1));
    assert!(matches!(r, Err(RelayError::SerializationError)));
}

#[test]
fn gate_checks_identity_before_building_request() {
    // Even a valid journal with a valid seal must not produce a request
    // when the declared identity is arbitrary but different.
    let jb = journal_bytes();
    for b in [0u8, 3u8, 0xffu8] {
        let r = authorize_submission(&jb, vec![1u8], &identity(1), &identity(b));
        assert!(r.is_err());
    }
}

#[test]
fn submission_receipt_status() {
    assert!(check_submission_receipt(true).is_ok());
    assert!(matches!(
        check_submission_receipt(false),
        Err(RelayError::SubmissionFailed)
    ));
}

#[test]
fn error_messages_name_their_causes() {
    assert!(
        RelayError::VerificationAssertionFailure
            .message()
            .contains("not contained")
    );
    assert!(RelayError::NotFound.message().contains("No transaction found"));
    assert!(RelayError::NotIncluded.message().contains("not included"));
    assert!(
        RelayError::InvalidCommitmentBlock
            .message()
            .contains("commitment block")
    );
    assert!(RelayError::EventNotFound.message().contains("No SendTransceiverMessage"));
    assert!(RelayError::ProgramIdentityMismatch.message().contains("image ID"));
    assert!(RelayError::SubmissionFailed.message().contains("transaction failed"));
}
