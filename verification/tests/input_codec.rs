use message_relay::addr::{Address, B256};
use message_relay::error::RelayError;
use message_relay::input::{GuestInput, read_frame, write_frame};

fn universal(b: u8) -> B256 {
    let mut bytes = vec![0u8; 12];
    bytes.extend(vec![b; 20]);
    B256 { bytes }
}

fn full_input() -> GuestInput {
    GuestInput::FullMessage {
        commitment: vec![9u8, 8u8, 7u8],
        contract_addr: universal(0x42),
        encoded_message: b"expected".to_vec(),
    }
}

fn digest_input() -> GuestInput {
    GuestInput::Digest {
        commitment: vec![1u8; 5],
        contract_addr: Address { bytes: vec![0x42u8; 20] },
        message_digest: B256 { bytes: vec![0xabu8; 32] },
    }
}

#[test]
fn full_message_serialization_layout() {
    let b = full_input().serialize().unwrap();
    let mut expected: Vec<u8> = vec![0u8];
    expected.extend(3u64.to_le_bytes());
    expected.extend(vec![9u8, 8u8, 7u8]);
    expected.extend(vec![0u8; 12]);
    expected.extend(vec![0x42u8; 20]);
    expected.extend(8u64.to_le_bytes());
    expected.extend(b"expected".to_vec());
    assert_eq!(b, expected);
}

#[test]
fn digest_serialization_layout() {
    let b = digest_input().serialize().unwrap();
    let mut expected: Vec<u8> = vec![1u8];
    expected.extend(5u64.to_le_bytes());
    expected.extend(vec![1u8; 5]);
    expected.extend(vec![0x42u8; 20]);
    expected.extend(vec![0xabu8; 32]);
    assert_eq!(b, expected);
}

#[test]
fn full_message_roundtrip() {
    let b = full_input().serialize().unwrap();
    match GuestInput::deserialize(&b).unwrap() {
        GuestInput::FullMessage { commitment, contract_addr, encoded_message } => {
            assert_eq!(commitment, vec![9u8, 8u8, 7u8]);
            assert_eq!(contract_addr.bytes, universal(0x42).bytes);
            assert_eq!(encoded_message, b"expected".to_vec());
        },
        _ => panic!("wrong variant"),
    }
}

#[test]
fn digest_roundtrip() {
    let b = digest_input().serialize().unwrap();
    match GuestInput::deserialize(&b).unwrap() {
        GuestInput::Digest { commitment, contract_addr, message_digest } => {
            assert_eq!(commitment, vec![1u8; 5]);
            assert_eq!(contract_addr.bytes, vec![0x42u8; 20]);
            assert_eq!(message_digest.bytes, vec![0xabu8; 32]);
        },
        _ => panic!("wrong variant"),
    }
}

#[test]
fn deserialize_rejects_empty() {
    assert!(matches!(
        GuestInput::deserialize(&Vec::new()),
        Err(RelayError::SerializationError)
    ));
}

#[test]
fn deserialize_rejects_unknown_tag() {
    let mut b = full_input().serialize().unwrap();
    b[0] = 7u8;
    assert!(matches!(GuestInput::deserialize(&b), Err(RelayError::SerializationError)));
}

#[test]
fn deserialize_rejects_truncation() {
    let b = full_input().serialize().unwrap();
    let cut = b[..b.len() - 1].to_vec();
    assert!(matches!(GuestInput::deserialize(&cut), Err(RelayError::SerializationError)));
}

#[test]
fn deserialize_rejects_trailing_bytes() {
    let mut b = digest_input().serialize().unwrap();
    b.push(0u8);
    assert!(matches!(GuestInput::deserialize(&b), Err(RelayError::SerializationError)));
}

#[test]
fn deserialize_rejects_oversized_length_word() {
    let mut b = full_input().serialize().unwrap();
    let huge = u64::MAX.to_le_bytes();
    b[1..9].copy_from_slice(&huge);
    assert!(matches!(GuestInput::deserialize(&b), Err(RelayError::SerializationError)));
}

#[test]
fn frame_roundtrip() {
    let payload = b"some payload".to_vec();
    let framed = write_frame(&payload);
    let mut expected = (payload.len() as u64).to_le_bytes().to_vec();
    expected.extend(payload.clone());
    assert_eq!(framed, expected);
    assert_eq!(read_frame(&framed).unwrap(), payload);
}

#[test]
fn frame_rejects_bad_prefix() {
    let payload = b"xyz".to_vec();
    let mut framed = write_frame(&payload);
    framed[0] = 9u8;
    assert!(matches!(read_frame(&framed), Err(RelayError::SerializationError)));
    assert!(matches!(read_frame(&vec![1u8, 2u8]), Err(RelayError::SerializationError)));
}
