//! Hand-written schema of the source-chain events the relay recognises.
//!
//! Two shapes are supported.  `SendTransceiverMessage(uint16 recipientChain,
//! bytes encodedMessage)` carries a chain discriminator and an opaque
//! message payload in its ABI-encoded data; its signature topic is the
//! Keccak-256 hash of that signature.  The digest-bearing transfer event
//! `TransferSent(bytes32 digest)` carries a 32-byte message digest.  A raw
//! log matches a shape exactly when its single topic is the shape's
//! signature topic and its data is a strict ABI encoding of the shape's
//! arguments.

use vstd::prelude::*;
use crate::addr::{Address, B256};
use crate::words::{word_u16, word_u64, zeros, pad32_len};

verus! {

/// Signature topic of `SendTransceiverMessage(uint16,bytes)`.
pub open spec fn message_event_topic() -> Seq<u8> {
    seq![
        0x0du8, 0x4au8, 0x24u8, 0xadu8, 0xd3u8, 0x7cu8, 0x19u8, 0x72u8,
        0x20u8, 0x7eu8, 0x3du8, 0xcfu8, 0xa8u8, 0x35u8, 0x97u8, 0x64u8,
        0x94u8, 0x8cu8, 0xafu8, 0x86u8, 0x8du8, 0xb3u8, 0x63u8, 0xeeu8,
        0x8fu8, 0xa1u8, 0xcbu8, 0x7fu8, 0x55u8, 0xf0u8, 0xa7u8, 0x4cu8,
    ]
}

/// Signature topic of `TransferSent(bytes32)`.
pub open spec fn digest_event_topic() -> Seq<u8> {
    seq![
        0x3eu8, 0x6au8, 0xe5u8, 0x63u8, 0x14u8, 0xc6u8, 0xdau8, 0x8bu8,
        0x46u8, 0x1du8, 0x87u8, 0x2fu8, 0x41u8, 0xc6u8, 0xd0u8, 0xbbu8,
        0x69u8, 0x31u8, 0x7bu8, 0x9du8, 0x02u8, 0x32u8, 0x80u8, 0x5au8,
        0xacu8, 0xcfu8, 0xa4u8, 0x5du8, 0xf1u8, 0xa1u8, 0x6fu8, 0xa0u8,
    ]
}

/// The signature topic of `SendTransceiverMessage(uint16,bytes)` as bytes.
pub fn message_event_topic_bytes() -> (t: Vec<u8>)
    ensures
        t@ == message_event_topic(),
{
    let t: Vec<u8> = vec![
        0x0du8, 0x4au8, 0x24u8, 0xadu8, 0xd3u8, 0x7cu8, 0x19u8, 0x72u8,
        0x20u8, 0x7eu8, 0x3du8, 0xcfu8, 0xa8u8, 0x35u8, 0x97u8, 0x64u8,
        0x94u8, 0x8cu8, 0xafu8, 0x86u8, 0x8du8, 0xb3u8, 0x63u8, 0xeeu8,
        0x8fu8, 0xa1u8, 0xcbu8, 0x7fu8, 0x55u8, 0xf0u8, 0xa7u8, 0x4cu8,
    ];
    proof {
        assert(t@ =~= message_event_topic());
    }
    t
}

/// The signature topic of `TransferSent(bytes32)` as bytes.
pub fn digest_event_topic_bytes() -> (t: Vec<u8>)
    ensures
        t@ == digest_event_topic(),
{
    let t: Vec<u8> = vec![
        0x3eu8, 0x6au8, 0xe5u8, 0x63u8, 0x14u8, 0xc6u8, 0xdau8, 0x8bu8,
        0x46u8, 0x1du8, 0x87u8, 0x2fu8, 0x41u8, 0xc6u8, 0xd0u8, 0xbbu8,
        0x69u8, 0x31u8, 0x7bu8, 0x9du8, 0x02u8, 0x32u8, 0x80u8, 0x5au8,
        0xacu8, 0xcfu8, 0xa4u8, 0x5du8, 0xf1u8, 0xa1u8, 0x6fu8, 0xa0u8,
    ];
    proof {
        assert(t@ =~= digest_event_topic());
    }
    t
}

/// Strict ABI encoding of the data of a `SendTransceiverMessage` event:
/// the chain discriminator word, the offset word of the dynamic `bytes`
/// argument (always 64), its length word, the payload, and zero padding to
/// a multiple of 32 bytes.
pub open spec fn message_event_data(chain: u16, payload: Seq<u8>) -> Seq<u8> {
    word_u16(chain) + word_u64(64) + word_u64(payload.len() as u64) + payload + zeros(
        pad32_len(payload.len()),
    )
}

/// Shape facts of `message_event_data`, used on both sides of the strict
/// decoder's contract.
pub proof fn lemma_message_event_data_fields(chain: u16, payload: Seq<u8>)
    ensures
        message_event_data(chain, payload).len() == 96 + payload.len() + pad32_len(payload.len()),
        pad32_len(payload.len()) < 32,
        message_event_data(chain, payload).subrange(0, 32) == word_u16(chain),
        message_event_data(chain, payload).subrange(32, 64) == word_u64(64),
        message_event_data(chain, payload).subrange(64, 96) == word_u64(payload.len() as u64),
        message_event_data(chain, payload).subrange(96, 96 + payload.len() as int) == payload,
        forall|j: int|
            96 + payload.len() <= j < message_event_data(chain, payload).len()
                ==> message_event_data(chain, payload)[j] == 0u8,
{
    let d = message_event_data(chain, payload);
    assert(d.subrange(0, 32) =~= word_u16(chain));
    assert(d.subrange(32, 64) =~= word_u64(64));
    assert(d.subrange(64, 96) =~= word_u64(payload.len() as u64));
    assert(d.subrange(96, 96 + payload.len() as int) =~= payload);
}

/// The value held by a `u64` ABI word determines the word.
pub proof fn lemma_word_u64_inj(a: u64, b: u64)
    requires
        word_u64(a) == word_u64(b),
    ensures
        a == b,
{
    crate::bytes::lemma_concat_right(zeros(24), crate::words::be8_bytes(a));
    crate::bytes::lemma_concat_right(zeros(24), crate::words::be8_bytes(b));
    assert(crate::words::be8_bytes(a) == crate::words::be8_bytes(b));
    crate::words::lemma_be8_roundtrip(a);
    crate::words::lemma_be8_roundtrip(b);
}

/// The value held by a `u16` ABI word determines the word.
pub proof fn lemma_word_u16_inj(a: u16, b: u16)
    requires
        word_u16(a) == word_u16(b),
    ensures
        a == b,
{
    assert(word_u16(a)[30] == (a >> 8) as u8 && word_u16(a)[31] == a as u8);
    assert(word_u16(b)[30] == (b >> 8) as u8 && word_u16(b)[31] == b as u8);
    let h = (a >> 8) as u8;
    let l = a as u8;
    assert(((a >> 8) as u8 == h && a as u8 == l && (b >> 8) as u8 == h && b as u8 == l) ==> a == b)
        by (bit_vector);
}

/// Two strict encodings over payloads of representable length agree only
/// on equal arguments.
pub proof fn lemma_message_event_data_inj(c1: u16, p1: Seq<u8>, c2: u16, p2: Seq<u8>)
    requires
        p1.len() < 0x10000000000000000,
        p2.len() < 0x10000000000000000,
        message_event_data(c1, p1) == message_event_data(c2, p2),
    ensures
        c1 == c2,
        p1 == p2,
{
    lemma_message_event_data_fields(c1, p1);
    lemma_message_event_data_fields(c2, p2);
    assert(word_u16(c1) == word_u16(c2));
    lemma_word_u16_inj(c1, c2);
    assert(word_u64(p1.len() as u64) == word_u64(p2.len() as u64));
    lemma_word_u64_inj(p1.len() as u64, p2.len() as u64);
    assert(p1.len() == p2.len());
    assert(p1 == message_event_data(c1, p1).subrange(96, 96 + p1.len() as int));
    assert(p2 == message_event_data(c2, p2).subrange(96, 96 + p2.len() as int));
}

/// Encodes the data of a `SendTransceiverMessage` event.
pub fn encode_message_event_data(chain: u16, payload: &Vec<u8>) -> (r: Vec<u8>)
    ensures
        r@ == message_event_data(chain, payload@),
{
    let mut r: Vec<u8> = Vec::new();
    crate::words::push_word_u16(&mut r, chain);
    crate::words::push_word_u64(&mut r, 64);
    crate::words::push_word_u64(&mut r, payload.len() as u64);
    crate::bytes::append_bytes(&mut r, payload);
    let pad: usize = (32 - (payload.len() % 32)) % 32;
    crate::words::push_zeros(&mut r, pad);
    proof {
        assert(r@ =~= message_event_data(chain, payload@));
    }
    r
}

/// Strict decoder for the data of a `SendTransceiverMessage` event.
/// Returns the chain discriminator and the payload exactly when the data
/// is a strict encoding; `None` exactly when no arguments encode to it.
pub fn decode_message_event_data(data: &Vec<u8>) -> (r: Option<(u16, Vec<u8>)>)
    ensures
        match r {
            Some(p) => p.1@.len() < 0x10000000000000000 && data@ == message_event_data(
                p.0,
                p.1@,
            ),
            None => forall|chain: u16, payload: Seq<u8>|
                data@ != message_event_data(chain, payload),
        },
{
    let len: usize = data.len();
    if len < 96 {
        proof {
            assert forall|chain: u16, payload: Seq<u8>|
                data@ != message_event_data(chain, payload) by {
                lemma_message_event_data_fields(chain, payload);
            }
        }
        return None;
    }
    let chain_opt = crate::words::read_word_u16(data, 0);
    if chain_opt.is_none() {
        proof {
            assert forall|chain: u16, payload: Seq<u8>|
                data@ != message_event_data(chain, payload) by {
                lemma_message_event_data_fields(chain, payload);
            }
        }
        return None;
    }
    let chain = chain_opt.unwrap();
    let off_opt = crate::words::read_word_u64(data, 32);
    if off_opt.is_none() {
        proof {
            assert forall|chain2: u16, payload: Seq<u8>|
                data@ != message_event_data(chain2, payload) by {
                lemma_message_event_data_fields(chain2, payload);
            }
        }
        return None;
    }
    if off_opt.unwrap() != 64 {
        proof {
            assert forall|chain2: u16, payload: Seq<u8>|
                data@ != message_event_data(chain2, payload) by {
                if data@ == message_event_data(chain2, payload) {
                    lemma_message_event_data_fields(chain2, payload);
                    lemma_word_u64_inj(off_opt.unwrap(), 64);
                }
            }
        }
        return None;
    }
    let len_opt = crate::words::read_word_u64(data, 64);
    if len_opt.is_none() {
        proof {
            assert forall|chain2: u16, payload: Seq<u8>|
                data@ != message_event_data(chain2, payload) by {
                lemma_message_event_data_fields(chain2, payload);
            }
        }
        return None;
    }
    let l_u64: u64 = len_opt.unwrap();
    if l_u64 > (len as u64) - 96 {
        proof {
            assert forall|chain2: u16, payload: Seq<u8>|
                data@ != message_event_data(chain2, payload) by {
                if data@ == message_event_data(chain2, payload) {
                    lemma_message_event_data_fields(chain2, payload);
                    assert(payload.len() <= len - 96);
                    lemma_word_u64_inj(l_u64, payload.len() as u64);
                }
            }
        }
        return None;
    }
    proof {
        assert(l_u64 <= usize::MAX as u64);
    }
    let l: usize = l_u64 as usize;
    let pad: usize = (32 - (l % 32)) % 32;
    if pad != len - 96 - l {
        proof {
            assert forall|chain2: u16, payload: Seq<u8>|
                data@ != message_event_data(chain2, payload) by {
                if data@ == message_event_data(chain2, payload) {
                    lemma_message_event_data_fields(chain2, payload);
                    assert(payload.len() <= len - 96);
                    lemma_word_u64_inj(l_u64, payload.len() as u64);
                    assert(payload.len() == l);
                }
            }
        }
        return None;
    }
    if !crate::bytes::all_zero_range(data, 96 + l, len) {
        proof {
            assert forall|chain2: u16, payload: Seq<u8>|
                data@ != message_event_data(chain2, payload) by {
                if data@ == message_event_data(chain2, payload) {
                    lemma_message_event_data_fields(chain2, payload);
                    assert(payload.len() <= len - 96);
                    lemma_word_u64_inj(l_u64, payload.len() as u64);
                    assert(payload.len() == l);
                }
            }
        }
        return None;
    }
    let payload = crate::bytes::subvec(data, 96, 96 + l);
    proof {
        lemma_message_event_data_fields(chain, payload@);
        assert(data@ =~= message_event_data(chain, payload@));
    }
    Some((chain, payload))
}

/// A raw log as observed on the source chain: the emitting contract's
/// address, the topic list, and the ABI-encoded data.
#[derive(Debug)]
pub struct RawLog {
    pub address: Address,
    pub topics: Vec<B256>,
    pub data: Vec<u8>,
}

impl RawLog {
    pub open spec fn wf(&self) -> bool {
        &&& self.address.wf()
        &&& forall|i: int| 0 <= i < self.topics@.len() ==> self.topics@[i].wf()
    }
}

/// The log is a `SendTransceiverMessage` event emitted by `contract`.
pub open spec fn is_message_log(log: RawLog, contract: Seq<u8>) -> bool {
    &&& log.address@ == contract
    &&& log.topics@.len() == 1
    &&& log.topics@[0]@ == message_event_topic()
    &&& exists|chain: u16, payload: Seq<u8>| log.data@ == message_event_data(chain, payload)
}

/// The log is a `SendTransceiverMessage` event emitted by `contract` whose
/// payload is `payload`.
pub open spec fn log_carries_message(log: RawLog, contract: Seq<u8>, payload: Seq<u8>) -> bool {
    &&& log.address@ == contract
    &&& log.topics@.len() == 1
    &&& log.topics@[0]@ == message_event_topic()
    &&& payload.len() < 0x10000000000000000
    &&& exists|chain: u16| log.data@ == message_event_data(chain, payload)
}

/// A log determines the payload it carries.
pub proof fn lemma_message_payload_unique(log: RawLog, contract: Seq<u8>, p1: Seq<u8>, p2: Seq<u8>)
    requires
        log_carries_message(log, contract, p1),
        log_carries_message(log, contract, p2),
    ensures
        p1 == p2,
{
    let c1 = choose|chain: u16| log.data@ == message_event_data(chain, p1);
    let c2 = choose|chain: u16| log.data@ == message_event_data(chain, p2);
    lemma_message_event_data_inj(c1, p1, c2, p2);
}

/// Recognises a `SendTransceiverMessage` event of `contract` and returns
/// its payload; `None` exactly when the log is no such event.
pub fn decode_message_log(log: &RawLog, contract: &Address) -> (r: Option<Vec<u8>>)
    requires
        log.wf(),
        contract.wf(),
    ensures
        match r {
            Some(p) => is_message_log(*log, contract@) && log_carries_message(
                *log,
                contract@,
                p@,
            ),
            None => !is_message_log(*log, contract@),
        },
{
    if !crate::bytes::bytes_eq(&log.address.bytes, &contract.bytes) {
        return None;
    }
    if log.topics.len() != 1 {
        return None;
    }
    let topic = message_event_topic_bytes();
    if !crate::bytes::bytes_eq(&log.topics[0].bytes, &topic) {
        return None;
    }
    match decode_message_event_data(&log.data) {
        None => None,
        Some((chain, payload)) => {
            proof {
                assert(log.data@ == message_event_data(chain, payload@));
            }
            Some(payload)
        },
    }
}

/// The log is a `TransferSent` event emitted by `contract` whose digest is
/// `digest`.
pub open spec fn is_digest_log(log: RawLog, contract: Seq<u8>, digest: Seq<u8>) -> bool {
    &&& log.address@ == contract
    &&& log.topics@.len() == 1
    &&& log.topics@[0]@ == digest_event_topic()
    &&& log.data@ == digest
}

/// Whether the log is a `TransferSent` event of `contract` carrying
/// exactly `digest`.
pub fn digest_log_matches(log: &RawLog, contract: &Address, digest: &B256) -> (r: bool)
    requires
        log.wf(),
        contract.wf(),
        digest.wf(),
    ensures
        r == is_digest_log(*log, contract@, digest@),
{
    if !crate::bytes::bytes_eq(&log.address.bytes, &contract.bytes) {
        return false;
    }
    if log.topics.len() != 1 {
        return false;
    }
    let topic = digest_event_topic_bytes();
    if !crate::bytes::bytes_eq(&log.topics[0].bytes, &topic) {
        return false;
    }
    crate::bytes::bytes_eq(&log.data, &digest.bytes)
}

} // verus!
