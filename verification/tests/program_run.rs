use message_relay::addr::{Address, B256, to_wormhole_address};
use message_relay::error::RelayError;
use message_relay::event::{RawLog, encode_message_event_data, message_event_topic_bytes,
    digest_event_topic_bytes};
use message_relay::input::GuestInput;
use message_relay::journal::{Commitment, Journal};
use message_relay::program::{EvmContext, run_program};

fn contract() -> Address {
    Address { bytes: (50u8..70u8).collect() }
}

fn commitment() -> Commitment {
    Commitment { bytes: vec![7u8; 96] }
}

fn message_log(payload: &[u8]) -> RawLog {
    RawLog {
        address: contract(),
        topics: vec![B256 { bytes: message_event_topic_bytes() }],
        data: encode_message_event_data(3, &payload.to_vec()),
    }
}

fn context(payloads: &[&[u8]]) -> EvmContext {
    EvmContext {
        logs: payloads.iter().map(|p| message_log(p)).collect(),
        commitment: commitment(),
    }
}

fn full_input_bytes(message: &[u8]) -> Vec<u8> {
    let input = GuestInput::FullMessage {
        commitment: vec![1u8, 2u8, 3u8],
        contract_addr: to_wormhole_address(&contract()),
        encoded_message: message.to_vec(),
    };
    input.serialize().unwrap()
}

/// The end-to-end scenario set: which emitted events let the program
/// commit a journal for the expected message, and which make it fail.
#[test]
fn run_tests() {
    let expected = b"expected";
    let cases: Vec<(Vec<&[u8]>, bool)> = vec![
        (vec![], false),
        (vec![b"not the message"], false),
        (vec![expected], true),
        (vec![expected, expected], true),
        (vec![b"not the message", expected], true),
    ];
    for (i, (events, should_succeed)) in cases.iter().enumerate() {
        let ctx = context(events);
        let input_bytes = full_input_bytes(expected);
        match run_program(&input_bytes, &ctx) {
            Ok(journal_bytes) => {
                assert!(
                    *should_succeed,
                    "Test case {i}: expected an error, but got success"
                );
                match Journal::abi_decode(&journal_bytes).unwrap() {
                    Journal::FullMessage { commitment, encoded_message, emitter_contract } => {
                        assert_eq!(commitment.bytes, vec![7u8; 96]);
                        assert_eq!(encoded_message, expected.to_vec());
                        assert_eq!(emitter_contract.bytes, contract().bytes);
                    },
                    _ => panic!("Test case {i}: wrong journal variant"),
                }
            },
            Err(e) => {
                assert!(!*should_succeed, "Test case {i}: unexpected error: {}", e.message());
                assert!(
                    e.message().contains("not contained"),
                    "Test case {i}: unexpected error text: {}",
                    e.message()
                );
            },
        }
    }
}

#[test]
fn program_ignores_other_contracts() {
    let mut log = message_log(b"expected");
    log.address = Address { bytes: vec![9u8; 20] };
    let ctx = EvmContext { logs: vec![log], commitment: commitment() };
    let input_bytes = full_input_bytes(b"expected");
    assert!(matches!(
        run_program(&input_bytes, &ctx),
        Err(RelayError::VerificationAssertionFailure)
    ));
}

#[test]
fn program_rejects_malformed_input() {
    let ctx = context(&[b"expected"]);
    let garbage = vec![0xffu8; 10];
    assert!(matches!(run_program(&garbage, &ctx), Err(RelayError::SerializationError)));
}

#[test]
fn program_output_is_deterministic() {
    let ctx1 = context(&[b"other", b"expected"]);
    let ctx2 = context(&[b"other", b"expected"]);
    let input_bytes = full_input_bytes(b"expected");
    let out1 = run_program(&input_bytes, &ctx1).unwrap();
    let out2 = run_program(&input_bytes, &ctx2).unwrap();
    assert_eq!(out1, out2);
}

#[test]
fn digest_variant_commits_digest_journal() {
    let digest = B256 { bytes: vec![0xabu8; 32] };
    let digest_log = RawLog {
        address: contract(),
        topics: vec![B256 { bytes: digest_event_topic_bytes() }],
        data: vec![0xabu8; 32],
    };
    let ctx = EvmContext { logs: vec![digest_log], commitment: commitment() };
    let input = GuestInput::Digest {
        commitment: vec![1u8],
        contract_addr: contract(),
        message_digest: digest,
    };
    let input_bytes = input.serialize().unwrap();
    let journal_bytes = run_program(&input_bytes, &ctx).unwrap();
    match Journal::abi_decode(&journal_bytes).unwrap() {
        Journal::Digest { commitment, message_digest, emitter_identity } => {
            assert_eq!(commitment.bytes, vec![7u8; 96]);
            assert_eq!(message_digest.bytes, vec![0xabu8; 32]);
            assert_eq!(emitter_identity.bytes, to_wormhole_address(&contract()).bytes);
        },
        _ => panic!("wrong journal variant"),
    }
}

#[test]
fn digest_variant_fails_without_matching_digest() {
    let digest_log = RawLog {
        address: contract(),
        topics: vec![B256 { bytes: digest_event_topic_bytes() }],
        data: vec![0xacu8; 32],
    };
    let ctx = EvmContext { logs: vec![digest_log], commitment: commitment() };
    let input = GuestInput::Digest {
        commitment: vec![1u8],
        contract_addr: contract(),
        message_digest: B256 { bytes: vec![0xabu8; 32] },
    };
    let input_bytes = input.serialize().unwrap();
    assert!(matches!(
        run_program(&input_bytes, &ctx),
        Err(RelayError::VerificationAssertionFailure)
    ));
}
