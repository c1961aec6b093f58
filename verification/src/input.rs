//! The guest input: the serialized structure handed to the proving oracle.
//!
//! Two message-commitment variants exist.  The full-message variant binds
//! the commitment-building input to the source contract (as a universal
//! address) and the raw encoded message; the digest variant binds it to
//! the source contract (native form) and a 32-byte message digest.  The
//! input crosses the oracle boundary as bytes, so its encoding is part of
//! the compatibility contract: it is stated here exactly, and decoding is
//! proved to be its strict inverse.  A length-prefixed frame wraps the
//! encoded input on the wire.

use vstd::prelude::*;
use crate::addr::{Address, B256};
use crate::error::RelayError;
use crate::words::{le64_bytes, le64_val};

verus! {

/// The input consumed exactly once by the verification program.
#[derive(Debug)]
pub enum GuestInput {
    /// Commitment-building input, source contract as universal address,
    /// raw encoded message bytes.
    FullMessage { commitment: Vec<u8>, contract_addr: B256, encoded_message: Vec<u8> },
    /// Commitment-building input, source contract native address, 32-byte
    /// message digest.
    Digest { commitment: Vec<u8>, contract_addr: Address, message_digest: B256 },
}

/// The mathematical value of a guest input: its byte strings.
pub enum GuestInputView {
    FullMessage { commitment: Seq<u8>, contract_addr: Seq<u8>, encoded_message: Seq<u8> },
    Digest { commitment: Seq<u8>, contract_addr: Seq<u8>, message_digest: Seq<u8> },
}

impl View for GuestInput {
    type V = GuestInputView;

    open spec fn view(&self) -> GuestInputView {
        match self {
            GuestInput::FullMessage { commitment, contract_addr, encoded_message } => {
                GuestInputView::FullMessage {
                    commitment: commitment@,
                    contract_addr: contract_addr@,
                    encoded_message: encoded_message@,
                }
            },
            GuestInput::Digest { commitment, contract_addr, message_digest } => {
                GuestInputView::Digest {
                    commitment: commitment@,
                    contract_addr: contract_addr@,
                    message_digest: message_digest@,
                }
            },
        }
    }
}

impl GuestInputView {
    /// Shape: the address forms have their widths.
    pub open spec fn wf(self) -> bool {
        match self {
            GuestInputView::FullMessage { commitment, contract_addr, encoded_message } => {
                contract_addr.len() == 32
            },
            GuestInputView::Digest { commitment, contract_addr, message_digest } => {
                contract_addr.len() == 20 && message_digest.len() == 32
            },
        }
    }

    /// The variable-length fields have representable lengths.
    pub open spec fn len_bounded(self) -> bool {
        match self {
            GuestInputView::FullMessage { commitment, contract_addr, encoded_message } => {
                commitment.len() < 0x10000000000000000 && encoded_message.len()
                    < 0x10000000000000000
            },
            GuestInputView::Digest { commitment, contract_addr, message_digest } => {
                commitment.len() < 0x10000000000000000
            },
        }
    }
}

/// Encoding of the full-message variant: a zero tag byte, the
/// length-prefixed commitment-building input, the 32-byte universal
/// contract address, and the length-prefixed message.
pub open spec fn full_message_bytes(c: Seq<u8>, a: Seq<u8>, m: Seq<u8>) -> Seq<u8> {
    seq![0u8] + le64_bytes(c.len() as u64) + c + a + le64_bytes(m.len() as u64) + m
}

/// Encoding of the digest variant: a tag byte of one, the length-prefixed
/// commitment-building input, the 20-byte native contract address, and the
/// 32-byte digest.
pub open spec fn digest_variant_bytes(c: Seq<u8>, a: Seq<u8>, d: Seq<u8>) -> Seq<u8> {
    seq![1u8] + le64_bytes(c.len() as u64) + c + a + d
}

/// The stable binary encoding of a guest input.
pub open spec fn guest_input_bytes(v: GuestInputView) -> Seq<u8> {
    match v {
        GuestInputView::FullMessage { commitment, contract_addr, encoded_message } => {
            full_message_bytes(commitment, contract_addr, encoded_message)
        },
        GuestInputView::Digest { commitment, contract_addr, message_digest } => {
            digest_variant_bytes(commitment, contract_addr, message_digest)
        },
    }
}

/// `data` is the encoding of the well-formed input value `v`.
pub open spec fn parses_to(data: Seq<u8>, v: GuestInputView) -> bool {
    v.wf() && v.len_bounded() && data == guest_input_bytes(v)
}

/// Shape facts of the full-message encoding.
pub proof fn lemma_full_message_fields(c: Seq<u8>, a: Seq<u8>, m: Seq<u8>)
    requires
        a.len() == 32,
    ensures
        full_message_bytes(c, a, m).len() == 49 + c.len() + m.len(),
        full_message_bytes(c, a, m)[0] == 0u8,
        full_message_bytes(c, a, m).subrange(1, 9) == le64_bytes(c.len() as u64),
        full_message_bytes(c, a, m).subrange(9, 9 + c.len() as int) == c,
        full_message_bytes(c, a, m).subrange(9 + c.len() as int, 41 + c.len() as int) == a,
        full_message_bytes(c, a, m).subrange(41 + c.len() as int, 49 + c.len() as int)
            == le64_bytes(m.len() as u64),
        full_message_bytes(c, a, m).subrange(
            49 + c.len() as int,
            49 + c.len() as int + m.len() as int,
        ) == m,
{
    let f = full_message_bytes(c, a, m);
    assert(f.subrange(1, 9) =~= le64_bytes(c.len() as u64));
    assert(f.subrange(9, 9 + c.len() as int) =~= c);
    assert(f.subrange(9 + c.len() as int, 41 + c.len() as int) =~= a);
    assert(f.subrange(41 + c.len() as int, 49 + c.len() as int) =~= le64_bytes(m.len() as u64));
    assert(f.subrange(49 + c.len() as int, 49 + c.len() as int + m.len() as int) =~= m);
}

/// Shape facts of the digest-variant encoding.
pub proof fn lemma_digest_variant_fields(c: Seq<u8>, a: Seq<u8>, d: Seq<u8>)
    requires
        a.len() == 20,
        d.len() == 32,
    ensures
        digest_variant_bytes(c, a, d).len() == 61 + c.len(),
        digest_variant_bytes(c, a, d)[0] == 1u8,
        digest_variant_bytes(c, a, d).subrange(1, 9) == le64_bytes(c.len() as u64),
        digest_variant_bytes(c, a, d).subrange(9, 9 + c.len() as int) == c,
        digest_variant_bytes(c, a, d).subrange(9 + c.len() as int, 29 + c.len() as int) == a,
        digest_variant_bytes(c, a, d).subrange(29 + c.len() as int, 61 + c.len() as int) == d,
{
    let f = digest_variant_bytes(c, a, d);
    assert(f.subrange(1, 9) =~= le64_bytes(c.len() as u64));
    assert(f.subrange(9, 9 + c.len() as int) =~= c);
    assert(f.subrange(9 + c.len() as int, 29 + c.len() as int) =~= a);
    assert(f.subrange(29 + c.len() as int, 61 + c.len() as int) =~= d);
}

/// The encoding is injective on well-formed, representable input values.
pub proof fn lemma_guest_input_bytes_inj(v1: GuestInputView, v2: GuestInputView)
    requires
        v1.wf(),
        v1.len_bounded(),
        v2.wf(),
        v2.len_bounded(),
        guest_input_bytes(v1) == guest_input_bytes(v2),
    ensures
        v1 == v2,
{
    match v1 {
        GuestInputView::FullMessage { commitment: c1, contract_addr: a1, encoded_message: m1 } => {
            lemma_full_message_fields(c1, a1, m1);
            match v2 {
                GuestInputView::FullMessage {
                    commitment: c2,
                    contract_addr: a2,
                    encoded_message: m2,
                } => {
                    lemma_full_message_fields(c2, a2, m2);
                    assert(le64_bytes(c1.len() as u64) == le64_bytes(c2.len() as u64));
                    crate::words::lemma_le64_roundtrip(c1.len() as u64);
                    crate::words::lemma_le64_roundtrip(c2.len() as u64);
                    assert(c1.len() == c2.len());
                    assert(c1 == c2 && a1 == a2);
                    assert(m1.len() == m2.len());
                    assert(m1 == m2);
                },
                GuestInputView::Digest { commitment: c2, contract_addr: a2, message_digest: d2 } => {
                    lemma_digest_variant_fields(c2, a2, d2);
                },
            }
        },
        GuestInputView::Digest { commitment: c1, contract_addr: a1, message_digest: d1 } => {
            lemma_digest_variant_fields(c1, a1, d1);
            match v2 {
                GuestInputView::FullMessage {
                    commitment: c2,
                    contract_addr: a2,
                    encoded_message: m2,
                } => {
                    lemma_full_message_fields(c2, a2, m2);
                },
                GuestInputView::Digest { commitment: c2, contract_addr: a2, message_digest: d2 } => {
                    lemma_digest_variant_fields(c2, a2, d2);
                    assert(le64_bytes(c1.len() as u64) == le64_bytes(c2.len() as u64));
                    crate::words::lemma_le64_roundtrip(c1.len() as u64);
                    crate::words::lemma_le64_roundtrip(c2.len() as u64);
                    assert(c1.len() == c2.len());
                    assert(c1 == c2 && a1 == a2 && d1 == d2);
                },
            }
        },
    }
}

impl GuestInput {
    /// Serializes the input into its stable binary encoding.  Total: every
    /// well-formed input serializes, and to exactly its specified bytes.
    pub fn serialize(&self) -> (r: Result<Vec<u8>, RelayError>)
        requires
            self@.wf(),
        ensures
            match r {
                Ok(b) => parses_to(b@, self@),
                Err(_) => false,
            },
    {
        let mut out: Vec<u8> = Vec::new();
        match self {
            GuestInput::FullMessage { commitment, contract_addr, encoded_message } => {
                out.push(0u8);
                crate::words::push_le64(&mut out, commitment.len() as u64);
                crate::bytes::append_bytes(&mut out, commitment);
                crate::bytes::append_bytes(&mut out, &contract_addr.bytes);
                crate::words::push_le64(&mut out, encoded_message.len() as u64);
                crate::bytes::append_bytes(&mut out, encoded_message);
                proof {
                    assert(out@ =~= guest_input_bytes(self@));
                }
            },
            GuestInput::Digest { commitment, contract_addr, message_digest } => {
                out.push(1u8);
                crate::words::push_le64(&mut out, commitment.len() as u64);
                crate::bytes::append_bytes(&mut out, commitment);
                crate::bytes::append_bytes(&mut out, &contract_addr.bytes);
                crate::bytes::append_bytes(&mut out, &message_digest.bytes);
                proof {
                    assert(out@ =~= guest_input_bytes(self@));
                }
            },
        }
        Ok(out)
    }

    /// Deserializes a guest input from its stable binary encoding.
    /// Succeeds exactly on the encodings of well-formed inputs, and then
    /// returns the one input that encodes to `data`.
    pub fn deserialize(data: &Vec<u8>) -> (r: Result<GuestInput, RelayError>)
        ensures
            match r {
                Ok(inp) => parses_to(data@, inp@),
                Err(e) => {
                    &&& e == RelayError::SerializationError
                    &&& forall|v: GuestInputView| !parses_to(data@, v)
                },
            },
    {
        let len: usize = data.len();
        if len == 0 {
            proof {
                assert forall|v: GuestInputView| !parses_to(data@, v) by {
                    lemma_parses_to_len(data@, v);
                }
            }
            return Err(RelayError::SerializationError);
        }
        let tag = data[0];
        if tag == 0 {
            if len < 49 {
                proof {
                    assert forall|v: GuestInputView| !parses_to(data@, v) by {
                        lemma_parses_to_len(data@, v);
                    }
                }
                return Err(RelayError::SerializationError);
            }
            let cl_u64: u64 = crate::words::read_le64(data, 1);
            if cl_u64 > (len as u64) - 49 {
                proof {
                    assert forall|v: GuestInputView| !parses_to(data@, v) by {
                        lemma_parses_to_commitment_len(data@, v, cl_u64);
                    }
                }
                return Err(RelayError::SerializationError);
            }
            let cl: usize = cl_u64 as usize;
            let ml_u64: u64 = crate::words::read_le64(data, 41 + cl);
            if ml_u64 != (len as u64) - 49 - cl_u64 {
                proof {
                    assert forall|v: GuestInputView| !parses_to(data@, v) by {
                        lemma_parses_to_commitment_len(data@, v, cl_u64);
                        if parses_to(data@, v) {
                            match v {
                                GuestInputView::FullMessage {
                                    commitment,
                                    contract_addr,
                                    encoded_message,
                                } => {
                                    lemma_full_message_fields(
                                        commitment,
                                        contract_addr,
                                        encoded_message,
                                    );
                                    crate::words::lemma_le64_roundtrip(
                                        encoded_message.len() as u64,
                                    );
                                },
                                GuestInputView::Digest { .. } => {},
                            }
                        }
                    }
                }
                return Err(RelayError::SerializationError);
            }
            let commitment = crate::bytes::subvec(data, 9, 9 + cl);
            let addr_bytes = crate::bytes::subvec(data, 9 + cl, 41 + cl);
            let message = crate::bytes::subvec(data, 49 + cl, len);
            let inp = GuestInput::FullMessage {
                commitment,
                contract_addr: B256 { bytes: addr_bytes },
                encoded_message: message,
            };
            proof {
                let c = data@.subrange(9, 9 + cl as int);
                let a = data@.subrange(9 + cl as int, 41 + cl as int);
                let m = data@.subrange(49 + cl as int, len as int);
                lemma_full_message_fields(c, a, m);
                crate::words::lemma_le64_bytes_of_val(data@.subrange(1, 9));
                crate::words::lemma_le64_bytes_of_val(data@.subrange(41 + cl as int, 49 + cl as int));
                assert(data@ =~= full_message_bytes(c, a, m));
            }
            return Ok(inp);
        }
        if tag == 1 {
            if len < 61 {
                proof {
                    assert forall|v: GuestInputView| !parses_to(data@, v) by {
                        lemma_parses_to_len(data@, v);
                    }
                }
                return Err(RelayError::SerializationError);
            }
            let cl_u64: u64 = crate::words::read_le64(data, 1);
            if cl_u64 != (len as u64) - 61 {
                proof {
                    assert forall|v: GuestInputView| !parses_to(data@, v) by {
                        lemma_parses_to_commitment_len(data@, v, cl_u64);
                    }
                }
                return Err(RelayError::SerializationError);
            }
            let cl: usize = cl_u64 as usize;
            let commitment = crate::bytes::subvec(data, 9, 9 + cl);
            let addr_bytes = crate::bytes::subvec(data, 9 + cl, 29 + cl);
            let digest_bytes = crate::bytes::subvec(data, 29 + cl, 61 + cl);
            let inp = GuestInput::Digest {
                commitment,
                contract_addr: Address { bytes: addr_bytes },
                message_digest: B256 { bytes: digest_bytes },
            };
            proof {
                let c = data@.subrange(9, 9 + cl as int);
                let a = data@.subrange(9 + cl as int, 29 + cl as int);
                let d = data@.subrange(29 + cl as int, 61 + cl as int);
                lemma_digest_variant_fields(c, a, d);
                crate::words::lemma_le64_bytes_of_val(data@.subrange(1, 9));
                assert(data@ =~= digest_variant_bytes(c, a, d));
            }
            return Ok(inp);
        }
        proof {
            assert forall|v: GuestInputView| !parses_to(data@, v) by {
                lemma_parses_to_len(data@, v);
            }
        }
        Err(RelayError::SerializationError)
    }
}

/// If `data` encodes `v`, then `data` has `v`'s tag byte and total length.
proof fn lemma_parses_to_len(data: Seq<u8>, v: GuestInputView)
    ensures
        parses_to(data, v) ==> match v {
            GuestInputView::FullMessage { commitment, contract_addr, encoded_message } => {
                data.len() == 49 + commitment.len() + encoded_message.len() && data[0] == 0u8
            },
            GuestInputView::Digest { commitment, contract_addr, message_digest } => {
                data.len() == 61 + commitment.len() && data[0] == 1u8
            },
        },
{
    if parses_to(data, v) {
        match v {
            GuestInputView::FullMessage { commitment, contract_addr, encoded_message } => {
                lemma_full_message_fields(commitment, contract_addr, encoded_message);
            },
            GuestInputView::Digest { commitment, contract_addr, message_digest } => {
                lemma_digest_variant_fields(commitment, contract_addr, message_digest);
            },
        }
    }
}

/// If `data` encodes `v`, the length word at offset 1 holds the length of
/// `v`'s commitment-building input.
proof fn lemma_parses_to_commitment_len(data: Seq<u8>, v: GuestInputView, l: u64)
    requires
        l == le64_val(data.subrange(1, 9)),
    ensures
        parses_to(data, v) ==> match v {
            GuestInputView::FullMessage { commitment, contract_addr, encoded_message } => {
                commitment.len() == l && data.len() == 49 + commitment.len()
                    + encoded_message.len() && data[0] == 0u8
            },
            GuestInputView::Digest { commitment, contract_addr, message_digest } => {
                commitment.len() == l && data.len() == 61 + commitment.len() && data[0] == 1u8
            },
        },
{
    if parses_to(data, v) {
        match v {
            GuestInputView::FullMessage { commitment, contract_addr, encoded_message } => {
                lemma_full_message_fields(commitment, contract_addr, encoded_message);
                crate::words::lemma_le64_roundtrip(commitment.len() as u64);
            },
            GuestInputView::Digest { commitment, contract_addr, message_digest } => {
                lemma_digest_variant_fields(commitment, contract_addr, message_digest);
                crate::words::lemma_le64_roundtrip(commitment.len() as u64);
            },
        }
    }
}

/// The wire frame around a serialized input: an 8-byte little-endian
/// length prefix, then the payload.
pub open spec fn framed(payload: Seq<u8>) -> Seq<u8> {
    le64_bytes(payload.len() as u64) + payload
}

/// Wraps a payload in the length-prefixed frame.
pub fn write_frame(payload: &Vec<u8>) -> (r: Vec<u8>)
    ensures
        r@ == framed(payload@),
{
    let mut out: Vec<u8> = Vec::new();
    crate::words::push_le64(&mut out, payload.len() as u64);
    crate::bytes::append_bytes(&mut out, payload);
    proof {
        assert(out@ =~= framed(payload@));
    }
    out
}

/// Unwraps a length-prefixed frame.  Succeeds exactly on framed payloads.
pub fn read_frame(data: &Vec<u8>) -> (r: Result<Vec<u8>, RelayError>)
    ensures
        match r {
            Ok(p) => data@ == framed(p@),
            Err(e) => {
                &&& e == RelayError::SerializationError
                &&& forall|p: Seq<u8>| data@ != framed(p)
            },
        },
{
    let len: usize = data.len();
    if len < 8 {
        proof {
            assert forall|p: Seq<u8>| data@ != framed(p) by {
                assert(framed(p).len() == 8 + p.len());
            }
        }
        return Err(RelayError::SerializationError);
    }
    let l_u64: u64 = crate::words::read_le64(data, 0);
    if l_u64 != (len as u64) - 8 {
        proof {
            assert forall|p: Seq<u8>| data@ != framed(p) by {
                if data@ == framed(p) {
                    crate::bytes::lemma_concat_left(le64_bytes(p.len() as u64), p);
                    crate::words::lemma_le64_roundtrip(p.len() as u64);
                    assert(framed(p).len() == 8 + p.len());
                }
            }
        }
        return Err(RelayError::SerializationError);
    }
    let payload = crate::bytes::subvec(data, 8, len);
    proof {
        crate::words::lemma_le64_bytes_of_val(data@.subrange(0, 8));
        assert(data@ =~= framed(payload@));
    }
    Ok(payload)
}

} // verus!
