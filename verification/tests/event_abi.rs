use message_relay::addr::{Address, B256};
use message_relay::event::{
    RawLog, decode_message_event_data, decode_message_log, digest_event_topic_bytes,
    digest_log_matches, encode_message_event_data, message_event_topic_bytes,
};

fn word(n: u64) -> Vec<u8> {
    let mut w = vec![0u8; 24];
    w.extend(n.to_be_bytes());
    w
}

fn contract() -> Address {
    Address { bytes: vec![0x42u8; 20] }
}

fn message_log(chain: u16, payload: &[u8]) -> RawLog {
    RawLog {
        address: contract(),
        topics: vec![B256 { bytes: message_event_topic_bytes() }],
        data: encode_message_event_data(chain, &payload.to_vec()),
    }
}

#[test]
fn event_data_layout() {
    let b = encode_message_event_data(3, &b"hi".to_vec());
    let mut expected = vec![0u8; 30];
    expected.extend(vec![0u8, 3u8]);
    expected.extend(word(64));
    expected.extend(word(2));
    expected.extend(b"hi".to_vec());
    expected.extend(vec![0u8; 30]);
    assert_eq!(b.len(), 128);
    assert_eq!(b, expected);
}

#[test]
fn event_data_roundtrip() {
    let b = encode_message_event_data(7, &b"a longer payload, over one word".to_vec());
    let (chain, payload) = decode_message_event_data(&b).unwrap();
    assert_eq!(chain, 7);
    assert_eq!(payload, b"a longer payload, over one word".to_vec());
}

#[test]
fn event_data_rejects_bad_offset() {
    let mut b = encode_message_event_data(3, &b"hi".to_vec());
    b[63] = 65u8;
    assert!(decode_message_event_data(&b).is_none());
}

#[test]
fn event_data_rejects_nonzero_padding() {
    let mut b = encode_message_event_data(3, &b"hi".to_vec());
    let last = b.len() - 1;
    b[last] = 1u8;
    assert!(decode_message_event_data(&b).is_none());
}

#[test]
fn event_data_rejects_short_data() {
    assert!(decode_message_event_data(&vec![0u8; 64]).is_none());
}

#[test]
fn message_log_decoding() {
    let log = message_log(3, b"payload");
    assert_eq!(decode_message_log(&log, &contract()).unwrap(), b"payload".to_vec());
}

#[test]
fn message_log_filters_address() {
    let mut log = message_log(3, b"payload");
    log.address = Address { bytes: vec![0x43u8; 20] };
    assert!(decode_message_log(&log, &contract()).is_none());
}

#[test]
fn message_log_filters_topic() {
    let mut log = message_log(3, b"payload");
    log.topics = vec![B256 { bytes: digest_event_topic_bytes() }];
    assert!(decode_message_log(&log, &contract()).is_none());
    log.topics = Vec::new();
    assert!(decode_message_log(&log, &contract()).is_none());
}

#[test]
fn digest_log_matching() {
    let digest = B256 { bytes: vec![0x99u8; 32] };
    let log = RawLog {
        address: contract(),
        topics: vec![B256 { bytes: digest_event_topic_bytes() }],
        data: vec![0x99u8; 32],
    };
    assert!(digest_log_matches(&log, &contract(), &digest));
    let other = B256 { bytes: vec![0x98u8; 32] };
    assert!(!digest_log_matches(&log, &contract(), &other));
    let wrong_topic = RawLog {
        address: contract(),
        topics: vec![B256 { bytes: message_event_topic_bytes() }],
        data: vec![0x99u8; 32],
    };
    assert!(!digest_log_matches(&wrong_topic, &contract(), &digest));
}
