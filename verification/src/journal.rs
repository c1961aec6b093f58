//! The journal: the output committed by the verification program and
//! decoded by the submission gate and the destination verifier contract.
//!
//! Journal fields are ABI-structured; field order and widths are part of
//! the compatibility contract between the program and the verifier, so the
//! encoding is stated here byte-exactly.  The full-message variant holds
//! the commitment, the raw encoded message and the emitter's native
//! address; the digest variant holds the commitment, a 32-byte message
//! digest and the emitter's universal identity.

use vstd::prelude::*;
use crate::addr::{Address, B256, univ_of_addr};
use crate::error::RelayError;
use crate::words::{word_u64, zeros, pad32_len};

verus! {

/// The opaque chain commitment that pins a proof to one block's state:
/// three ABI words (identifier, root digest, configuration identifier),
/// produced by the environment and consumed unmodified by the journal.
#[derive(Debug)]
pub struct Commitment {
    pub bytes: Vec<u8>,
}

impl View for Commitment {
    type V = Seq<u8>;

    open spec fn view(&self) -> Seq<u8> {
        self.bytes@
    }
}

impl Commitment {
    pub open spec fn wf(&self) -> bool {
        self.bytes@.len() == 96
    }

    /// A copy with the same bytes.
    pub fn dup(&self) -> (r: Commitment)
        ensures
            r@ == self@,
    {
        Commitment { bytes: crate::bytes::subvec(&self.bytes, 0, self.bytes.len()) }
    }
}

/// The committed output, in the variant matching the guest input's.
#[derive(Debug)]
pub enum Journal {
    /// Commitment, raw encoded message bytes, emitter contract (native).
    FullMessage { commitment: Commitment, encoded_message: Vec<u8>, emitter_contract: Address },
    /// Commitment, 32-byte message digest, emitter identity (universal).
    Digest { commitment: Commitment, message_digest: B256, emitter_identity: B256 },
}

/// The mathematical value of a journal: its byte strings.
pub enum JournalView {
    FullMessage { commitment: Seq<u8>, encoded_message: Seq<u8>, emitter_contract: Seq<u8> },
    Digest { commitment: Seq<u8>, message_digest: Seq<u8>, emitter_identity: Seq<u8> },
}

impl View for Journal {
    type V = JournalView;

    open spec fn view(&self) -> JournalView {
        match self {
            Journal::FullMessage { commitment, encoded_message, emitter_contract } => {
                JournalView::FullMessage {
                    commitment: commitment@,
                    encoded_message: encoded_message@,
                    emitter_contract: emitter_contract@,
                }
            },
            Journal::Digest { commitment, message_digest, emitter_identity } => {
                JournalView::Digest {
                    commitment: commitment@,
                    message_digest: message_digest@,
                    emitter_identity: emitter_identity@,
                }
            },
        }
    }
}

impl JournalView {
    /// Shape: the commitment has its three words and the address forms
    /// have their widths.
    pub open spec fn wf(self) -> bool {
        match self {
            JournalView::FullMessage { commitment, encoded_message, emitter_contract } => {
                commitment.len() == 96 && emitter_contract.len() == 20
            },
            JournalView::Digest { commitment, message_digest, emitter_identity } => {
                commitment.len() == 96 && message_digest.len() == 32 && emitter_identity.len()
                    == 32
            },
        }
    }

    /// The message has representable length.
    pub open spec fn len_bounded(self) -> bool {
        match self {
            JournalView::FullMessage { commitment, encoded_message, emitter_contract } => {
                encoded_message.len() < 0x10000000000000000
            },
            JournalView::Digest { .. } => true,
        }
    }
}

/// ABI encoding of the full-message journal.  The head holds the three
/// commitment words, the offset word of the dynamic message (always 160)
/// and the emitter as an ABI `address` word (12 zero bytes, 20 address
/// bytes); the tail holds the message's length word, its bytes, and zero
/// padding to a multiple of 32.
pub open spec fn full_journal_abi(c: Seq<u8>, m: Seq<u8>, e: Seq<u8>) -> Seq<u8> {
    c + word_u64(160) + zeros(12) + e + word_u64(m.len() as u64) + m + zeros(pad32_len(m.len()))
}

/// ABI encoding of the digest journal: three static fields, 160 bytes.
pub open spec fn digest_journal_abi(c: Seq<u8>, d: Seq<u8>, e: Seq<u8>) -> Seq<u8> {
    c + d + e
}

/// The ABI encoding of a journal.
pub open spec fn journal_abi(v: JournalView) -> Seq<u8> {
    match v {
        JournalView::FullMessage { commitment, encoded_message, emitter_contract } => {
            full_journal_abi(commitment, encoded_message, emitter_contract)
        },
        JournalView::Digest { commitment, message_digest, emitter_identity } => {
            digest_journal_abi(commitment, message_digest, emitter_identity)
        },
    }
}

/// `data` is the ABI encoding of the well-formed journal value `v`.
pub open spec fn journal_encodes(data: Seq<u8>, v: JournalView) -> bool {
    v.wf() && v.len_bounded() && data == journal_abi(v)
}

/// An ABI `address` word is the universal form of the address.
pub proof fn lemma_emitter_word_is_universal(a: Seq<u8>)
    requires
        a.len() == 20,
    ensures
        zeros(12) + a == univ_of_addr(a),
{
    assert(zeros(12) + a =~= univ_of_addr(a));
}

/// Shape facts of the full-message journal encoding.
pub proof fn lemma_full_journal_fields(c: Seq<u8>, m: Seq<u8>, e: Seq<u8>)
    requires
        c.len() == 96,
        e.len() == 20,
    ensures
        full_journal_abi(c, m, e).len() == 192 + m.len() + pad32_len(m.len()),
        pad32_len(m.len()) < 32,
        full_journal_abi(c, m, e).subrange(0, 96) == c,
        full_journal_abi(c, m, e).subrange(96, 128) == word_u64(160),
        forall|j: int| 128 <= j < 140 ==> full_journal_abi(c, m, e)[j] == 0u8,
        full_journal_abi(c, m, e).subrange(140, 160) == e,
        full_journal_abi(c, m, e).subrange(160, 192) == word_u64(m.len() as u64),
        full_journal_abi(c, m, e).subrange(192, 192 + m.len() as int) == m,
        forall|j: int|
            192 + m.len() <= j < full_journal_abi(c, m, e).len() ==> full_journal_abi(c, m, e)[j]
                == 0u8,
{
    let f = full_journal_abi(c, m, e);
    assert(f.subrange(0, 96) =~= c);
    assert(f.subrange(96, 128) =~= word_u64(160));
    assert(f.subrange(140, 160) =~= e);
    assert(f.subrange(160, 192) =~= word_u64(m.len() as u64));
    assert(f.subrange(192, 192 + m.len() as int) =~= m);
}

/// Shape facts of the digest journal encoding.
pub proof fn lemma_digest_journal_fields(c: Seq<u8>, d: Seq<u8>, e: Seq<u8>)
    requires
        c.len() == 96,
        d.len() == 32,
        e.len() == 32,
    ensures
        digest_journal_abi(c, d, e).len() == 160,
        digest_journal_abi(c, d, e).subrange(0, 96) == c,
        digest_journal_abi(c, d, e).subrange(96, 128) == d,
        digest_journal_abi(c, d, e).subrange(128, 160) == e,
{
    let f = digest_journal_abi(c, d, e);
    assert(f.subrange(0, 96) =~= c);
    assert(f.subrange(96, 128) =~= d);
    assert(f.subrange(128, 160) =~= e);
}

/// The ABI encoding is injective on well-formed journal values; the
/// destination verifier decodes an unambiguous journal.
pub proof fn lemma_journal_abi_inj(v1: JournalView, v2: JournalView)
    requires
        v1.wf(),
        v1.len_bounded(),
        v2.wf(),
        v2.len_bounded(),
        journal_abi(v1) == journal_abi(v2),
    ensures
        v1 == v2,
{
    match v1 {
        JournalView::FullMessage { commitment: c1, encoded_message: m1, emitter_contract: e1 } => {
            lemma_full_journal_fields(c1, m1, e1);
            match v2 {
                JournalView::FullMessage {
                    commitment: c2,
                    encoded_message: m2,
                    emitter_contract: e2,
                } => {
                    lemma_full_journal_fields(c2, m2, e2);
                    assert(word_u64(m1.len() as u64) == word_u64(m2.len() as u64));
                    crate::event::lemma_word_u64_inj(m1.len() as u64, m2.len() as u64);
                    assert(m1.len() == m2.len());
                    assert(c1 == c2 && e1 == e2 && m1 == m2);
                },
                JournalView::Digest { commitment: c2, message_digest: d2, emitter_identity: e2 } => {
                    lemma_digest_journal_fields(c2, d2, e2);
                },
            }
        },
        JournalView::Digest { commitment: c1, message_digest: d1, emitter_identity: e1 } => {
            lemma_digest_journal_fields(c1, d1, e1);
            match v2 {
                JournalView::FullMessage {
                    commitment: c2,
                    encoded_message: m2,
                    emitter_contract: e2,
                } => {
                    lemma_full_journal_fields(c2, m2, e2);
                },
                JournalView::Digest { commitment: c2, message_digest: d2, emitter_identity: e2 } => {
                    lemma_digest_journal_fields(c2, d2, e2);
                    assert(c1 == c2 && d1 == d2 && e1 == e2);
                },
            }
        },
    }
}

impl Journal {
    /// ABI-encodes the journal to exactly its specified bytes.
    pub fn abi_encode(&self) -> (r: Vec<u8>)
        requires
            self@.wf(),
        ensures
            journal_encodes(r@, self@),
    {
        let mut out: Vec<u8> = Vec::new();
        match self {
            Journal::FullMessage { commitment, encoded_message, emitter_contract } => {
                crate::bytes::append_bytes(&mut out, &commitment.bytes);
                crate::words::push_word_u64(&mut out, 160);
                crate::words::push_zeros(&mut out, 12);
                crate::bytes::append_bytes(&mut out, &emitter_contract.bytes);
                crate::words::push_word_u64(&mut out, encoded_message.len() as u64);
                crate::bytes::append_bytes(&mut out, encoded_message);
                let pad: usize = (32 - (encoded_message.len() % 32)) % 32;
                crate::words::push_zeros(&mut out, pad);
                proof {
                    assert(out@ =~= journal_abi(self@));
                }
            },
            Journal::Digest { commitment, message_digest, emitter_identity } => {
                crate::bytes::append_bytes(&mut out, &commitment.bytes);
                crate::bytes::append_bytes(&mut out, &message_digest.bytes);
                crate::bytes::append_bytes(&mut out, &emitter_identity.bytes);
                proof {
                    assert(out@ =~= journal_abi(self@));
                }
            },
        }
        out
    }

    /// Decodes a journal from its ABI encoding.  Succeeds exactly on the
    /// encodings of well-formed journals, and then returns the one journal
    /// that encodes to `data`.  The two variants cannot collide: a digest
    /// journal is exactly 160 bytes, a full-message journal at least 192.
    pub fn abi_decode(data: &Vec<u8>) -> (r: Result<Journal, RelayError>)
        ensures
            match r {
                Ok(j) => journal_encodes(data@, j@),
                Err(e) => {
                    &&& e == RelayError::SerializationError
                    &&& forall|v: JournalView| !journal_encodes(data@, v)
                },
            },
    {
        let len: usize = data.len();
        if len == 160 {
            let commitment = Commitment { bytes: crate::bytes::subvec(data, 0, 96) };
            let message_digest = B256 { bytes: crate::bytes::subvec(data, 96, 128) };
            let emitter_identity = B256 { bytes: crate::bytes::subvec(data, 128, 160) };
            let j = Journal::Digest { commitment, message_digest, emitter_identity };
            proof {
                assert(data@ =~= digest_journal_abi(
                    data@.subrange(0, 96),
                    data@.subrange(96, 128),
                    data@.subrange(128, 160),
                ));
            }
            return Ok(j);
        }
        if len < 192 {
            proof {
                assert forall|v: JournalView| !journal_encodes(data@, v) by {
                    lemma_journal_encoding_len(data@, v);
                }
            }
            return Err(RelayError::SerializationError);
        }
        let off_opt = crate::words::read_word_u64(data, 96);
        if off_opt.is_none() {
            proof {
                assert forall|v: JournalView| !journal_encodes(data@, v) by {
                    lemma_journal_encoding_len(data@, v);
                }
            }
            return Err(RelayError::SerializationError);
        }
        if off_opt.unwrap() != 160 {
            proof {
                assert forall|v: JournalView| !journal_encodes(data@, v) by {
                    lemma_journal_encoding_len(data@, v);
                    if journal_encodes(data@, v) {
                        crate::event::lemma_word_u64_inj(off_opt.unwrap(), 160);
                    }
                }
            }
            return Err(RelayError::SerializationError);
        }
        let ml_opt = crate::words::read_word_u64(data, 160);
        if ml_opt.is_none() {
            proof {
                assert forall|v: JournalView| !journal_encodes(data@, v) by {
                    lemma_journal_encoding_len(data@, v);
                    if journal_encodes(data@, v) {
                        match v {
                            JournalView::FullMessage {
                                commitment,
                                encoded_message,
                                emitter_contract,
                            } => {
                                lemma_full_journal_fields(
                                    commitment,
                                    encoded_message,
                                    emitter_contract,
                                );
                            },
                            JournalView::Digest { .. } => {},
                        }
                    }
                }
            }
            return Err(RelayError::SerializationError);
        }
        let ml_u64: u64 = ml_opt.unwrap();
        if ml_u64 > (len as u64) - 192 {
            proof {
                assert forall|v: JournalView| !journal_encodes(data@, v) by {
                    lemma_journal_message_len(data@, v, ml_u64);
                }
            }
            return Err(RelayError::SerializationError);
        }
        proof {
            assert(ml_u64 <= usize::MAX as u64);
        }
        let ml: usize = ml_u64 as usize;
        let pad: usize = (32 - (ml % 32)) % 32;
        if pad != len - 192 - ml {
            proof {
                assert forall|v: JournalView| !journal_encodes(data@, v) by {
                    lemma_journal_message_len(data@, v, ml_u64);
                }
            }
            return Err(RelayError::SerializationError);
        }
        if !crate::bytes::all_zero_range(data, 192 + ml, len) {
            proof {
                assert forall|v: JournalView| !journal_encodes(data@, v) by {
                    lemma_journal_message_len(data@, v, ml_u64);
                }
            }
            return Err(RelayError::SerializationError);
        }
        if !crate::bytes::all_zero_range(data, 128, 140) {
            proof {
                let jj = choose|j: int| 128 <= j < 140 && data@[j] != 0u8;
                assert(128 <= jj < 140 && data@[jj] != 0u8);
                assert forall|v: JournalView| !journal_encodes(data@, v) by {
                    lemma_journal_encoding_len(data@, v);
                    if journal_encodes(data@, v) {
                        assert(data@[jj] == 0u8);
                    }
                }
            }
            return Err(RelayError::SerializationError);
        }
        let commitment = Commitment { bytes: crate::bytes::subvec(data, 0, 96) };
        let emitter_contract = Address { bytes: crate::bytes::subvec(data, 140, 160) };
        let message = crate::bytes::subvec(data, 192, 192 + ml);
        let j = Journal::FullMessage {
            commitment,
            encoded_message: message,
            emitter_contract,
        };
        proof {
            let c = data@.subrange(0, 96);
            let m = data@.subrange(192, 192 + ml as int);
            let e = data@.subrange(140, 160);
            lemma_full_journal_fields(c, m, e);
            crate::words::lemma_be8_bytes_of_val(data@.subrange(96, 128).subrange(24, 32));
            assert(data@ =~= full_journal_abi(c, m, e));
        }
        Ok(j)
    }
}

/// If `data` ABI-encodes `v`, then `data` has `v`'s total length, and for
/// the full-message variant the offset word and the emitter word's zero
/// prefix are in place.
proof fn lemma_journal_encoding_len(data: Seq<u8>, v: JournalView)
    ensures
        journal_encodes(data, v) ==> match v {
            JournalView::FullMessage { commitment, encoded_message, emitter_contract } => {
                &&& data.len() == 192 + encoded_message.len() + pad32_len(encoded_message.len())
                &&& data.len() >= 192
                &&& data.subrange(96, 128) == word_u64(160)
                &&& forall|j: int| 128 <= j < 140 ==> data[j] == 0u8
            },
            JournalView::Digest { commitment, message_digest, emitter_identity } => {
                data.len() == 160
            },
        },
{
    if journal_encodes(data, v) {
        match v {
            JournalView::FullMessage { commitment, encoded_message, emitter_contract } => {
                lemma_full_journal_fields(commitment, encoded_message, emitter_contract);
            },
            JournalView::Digest { commitment, message_digest, emitter_identity } => {
                lemma_digest_journal_fields(commitment, message_digest, emitter_identity);
            },
        }
    }
}

/// If `data` ABI-encodes `v` and the word at 160 holds `l`, then `v` is
/// the full-message variant and its message has length `l`, the padding
/// after it is zero, and the total length closes the encoding.
proof fn lemma_journal_message_len(data: Seq<u8>, v: JournalView, l: u64)
    requires
        data.len() >= 192,
        data.subrange(160, 192) == word_u64(l),
    ensures
        journal_encodes(data, v) ==> match v {
            JournalView::FullMessage { commitment, encoded_message, emitter_contract } => {
                &&& encoded_message.len() == l
                &&& data.len() == 192 + l + pad32_len(l as nat)
                &&& forall|j: int| 192 + l <= j < data.len() ==> data[j] == 0u8
            },
            JournalView::Digest { .. } => false,
        },
{
    if journal_encodes(data, v) {
        match v {
            JournalView::FullMessage { commitment, encoded_message, emitter_contract } => {
                lemma_full_journal_fields(commitment, encoded_message, emitter_contract);
                crate::event::lemma_word_u64_inj(l, encoded_message.len() as u64);
            },
            JournalView::Digest { commitment, message_digest, emitter_identity } => {
                lemma_digest_journal_fields(commitment, message_digest, emitter_identity);
            },
        }
    }
}

} // verus!
