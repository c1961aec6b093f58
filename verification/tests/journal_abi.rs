use message_relay::addr::{Address, B256};
use message_relay::error::RelayError;
use message_relay::journal::{Commitment, Journal};

fn word(n: u64) -> Vec<u8> {
    let mut w = vec![0u8; 24];
    w.extend(n.to_be_bytes());
    w
}

fn full_journal() -> Journal {
    Journal::FullMessage {
        commitment: Commitment { bytes: vec![1u8; 96] },
        encoded_message: b"abc".to_vec(),
        emitter_contract: Address { bytes: vec![2u8; 20] },
    }
}

fn digest_journal() -> Journal {
    Journal::Digest {
        commitment: Commitment { bytes: vec![3u8; 96] },
        message_digest: B256 { bytes: vec![4u8; 32] },
        emitter_identity: B256 { bytes: vec![5u8; 32] },
    }
}

#[test]
fn full_journal_abi_layout() {
    let b = full_journal().abi_encode();
    let mut expected: Vec<u8> = vec![1u8; 96];
    expected.extend(word(160));
    expected.extend(vec![0u8; 12]);
    expected.extend(vec![2u8; 20]);
    expected.extend(word(3));
    expected.extend(b"abc".to_vec());
    expected.extend(vec![0u8; 29]);
    assert_eq!(b.len(), 224);
    assert_eq!(b, expected);
}

#[test]
fn digest_journal_abi_layout() {
    let b = digest_journal().abi_encode();
    let mut expected: Vec<u8> = vec![3u8; 96];
    expected.extend(vec![4u8; 32]);
    expected.extend(vec![5u8; 32]);
    assert_eq!(b.len(), 160);
    assert_eq!(b, expected);
}

#[test]
fn full_journal_abi_roundtrip() {
    let b = full_journal().abi_encode();
    match Journal::abi_decode(&b).unwrap() {
        Journal::FullMessage { commitment, encoded_message, emitter_contract } => {
            assert_eq!(commitment.bytes, vec![1u8; 96]);
            assert_eq!(encoded_message, b"abc".to_vec());
            assert_eq!(emitter_contract.bytes, vec![2u8; 20]);
        },
        _ => panic!("wrong variant"),
    }
}

#[test]
fn digest_journal_abi_roundtrip() {
    let b = digest_journal().abi_encode();
    match Journal::abi_decode(&b).unwrap() {
        Journal::Digest { commitment, message_digest, emitter_identity } => {
            assert_eq!(commitment.bytes, vec![3u8; 96]);
            assert_eq!(message_digest.bytes, vec![4u8; 32]);
            assert_eq!(emitter_identity.bytes, vec![5u8; 32]);
        },
        _ => panic!("wrong variant"),
    }
}

#[test]
fn journal_decode_rejects_bad_offset() {
    let mut b = full_journal().abi_encode();
    b[127] = 161u8;
    assert!(matches!(Journal::abi_decode(&b), Err(RelayError::SerializationError)));
}

#[test]
fn journal_decode_rejects_nonzero_padding() {
    let mut b = full_journal().abi_encode();
    let last = b.len() - 1;
    b[last] = 1u8;
    assert!(matches!(Journal::abi_decode(&b), Err(RelayError::SerializationError)));
}

#[test]
fn journal_decode_rejects_nonzero_emitter_prefix() {
    let mut b = full_journal().abi_encode();
    b[128] = 1u8;
    assert!(matches!(Journal::abi_decode(&b), Err(RelayError::SerializationError)));
}

#[test]
fn journal_decode_rejects_bad_length() {
    let mut b = full_journal().abi_encode();
    b.push(0u8);
    assert!(matches!(Journal::abi_decode(&b), Err(RelayError::SerializationError)));
    assert!(matches!(
        Journal::abi_decode(&vec![0u8; 100]),
        Err(RelayError::SerializationError)
    ));
}
