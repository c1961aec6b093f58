//! Fixed-width integer encodings used by the wire formats: 8-byte
//! little-endian words (the frame and input codec) and 32-byte big-endian
//! ABI words (the journal and event data).  Each encoding comes with its
//! decoding and proved round-trip laws, so the codecs built on them can
//! state exact, invertible contracts.

use vstd::prelude::*;

verus! {

/// `n` as 8 little-endian bytes.
pub open spec fn le64_bytes(n: u64) -> Seq<u8> {
    seq![
        n as u8,
        (n >> 8) as u8,
        (n >> 16) as u8,
        (n >> 24) as u8,
        (n >> 32) as u8,
        (n >> 40) as u8,
        (n >> 48) as u8,
        (n >> 56) as u8,
    ]
}

/// The value of 8 little-endian bytes.
pub open spec fn le64_val(b: Seq<u8>) -> u64 {
    (b[0] as u64) | ((b[1] as u64) << 8) | ((b[2] as u64) << 16) | ((b[3] as u64) << 24)
        | ((b[4] as u64) << 32) | ((b[5] as u64) << 40) | ((b[6] as u64) << 48)
        | ((b[7] as u64) << 56)
}

/// Law: decoding the little-endian bytes of `n` yields `n`.
pub proof fn lemma_le64_roundtrip(n: u64)
    ensures
        le64_val(le64_bytes(n)) == n,
{
    assert(((n as u8) as u64) | (((n >> 8) as u8 as u64) << 8) | (((n >> 16) as u8 as u64) << 16)
        | (((n >> 24) as u8 as u64) << 24) | (((n >> 32) as u8 as u64) << 32)
        | (((n >> 40) as u8 as u64) << 40) | (((n >> 48) as u8 as u64) << 48)
        | (((n >> 56) as u8 as u64) << 56) == n) by (bit_vector);
}

/// Law: the little-endian encoding of the value of any 8 bytes is those
/// bytes; together with the round trip this makes the encoding a bijection
/// between `u64` and 8-byte strings.
pub proof fn lemma_le64_bytes_of_val(b: Seq<u8>)
    requires
        b.len() == 8,
    ensures
        le64_bytes(le64_val(b)) == b,
{
    let b0 = b[0];
    let b1 = b[1];
    let b2 = b[2];
    let b3 = b[3];
    let b4 = b[4];
    let b5 = b[5];
    let b6 = b[6];
    let b7 = b[7];
    let n = le64_val(b);
    assert(n == (b0 as u64) | ((b1 as u64) << 8) | ((b2 as u64) << 16) | ((b3 as u64) << 24)
        | ((b4 as u64) << 32) | ((b5 as u64) << 40) | ((b6 as u64) << 48) | ((b7 as u64) << 56));
    let m = (b0 as u64) | ((b1 as u64) << 8) | ((b2 as u64) << 16) | ((b3 as u64) << 24)
        | ((b4 as u64) << 32) | ((b5 as u64) << 40) | ((b6 as u64) << 48) | ((b7 as u64) << 56);
    assert(m as u8 == b0 && (m >> 8) as u8 == b1 && (m >> 16) as u8 == b2 && (m >> 24) as u8 == b3
        && (m >> 32) as u8 == b4 && (m >> 40) as u8 == b5 && (m >> 48) as u8 == b6
        && (m >> 56) as u8 == b7) by (bit_vector)
        requires
            m == (b0 as u64) | ((b1 as u64) << 8) | ((b2 as u64) << 16) | ((b3 as u64) << 24)
                | ((b4 as u64) << 32) | ((b5 as u64) << 40) | ((b6 as u64) << 48)
                | ((b7 as u64) << 56),
    ;
    assert(le64_bytes(n) =~= b);
}

/// Appends the 8 little-endian bytes of `n`.
pub fn push_le64(out: &mut Vec<u8>, n: u64)
    ensures
        final(out)@ == old(out)@ + le64_bytes(n),
{
    out.push(#[verifier::truncate] (n as u8));
    out.push(#[verifier::truncate] ((n >> 8) as u8));
    out.push(#[verifier::truncate] ((n >> 16) as u8));
    out.push(#[verifier::truncate] ((n >> 24) as u8));
    out.push(#[verifier::truncate] ((n >> 32) as u8));
    out.push(#[verifier::truncate] ((n >> 40) as u8));
    out.push(#[verifier::truncate] ((n >> 48) as u8));
    out.push(#[verifier::truncate] ((n >> 56) as u8));
    proof {
        assert(out@ =~= old(out)@ + le64_bytes(n));
    }
}

/// Reads the 8-byte little-endian word at `pos`.
pub fn read_le64(v: &Vec<u8>, pos: usize) -> (r: u64)
    requires
        pos + 8 <= v@.len(),
    ensures
        r == le64_val(v@.subrange(pos as int, pos as int + 8)),
{
    let vlen: usize = v.len();
    let r = (v[pos] as u64) | ((v[pos + 1] as u64) << 8) | ((v[pos + 2] as u64) << 16)
        | ((v[pos + 3] as u64) << 24) | ((v[pos + 4] as u64) << 32)
        | ((v[pos + 5] as u64) << 40) | ((v[pos + 6] as u64) << 48)
        | ((v[pos + 7] as u64) << 56);
    proof {
        let s = v@.subrange(pos as int, pos as int + 8);
        assert(s[0] == v@[pos as int] && s[1] == v@[pos as int + 1] && s[2] == v@[pos as int + 2]
            && s[3] == v@[pos as int + 3] && s[4] == v@[pos as int + 4]
            && s[5] == v@[pos as int + 5] && s[6] == v@[pos as int + 6]
            && s[7] == v@[pos as int + 7]);
    }
    r
}

/// A sequence of `n` zero bytes.
pub open spec fn zeros(n: nat) -> Seq<u8> {
    Seq::new(n, |i: int| 0u8)
}

/// `n` as 8 big-endian bytes.
pub open spec fn be8_bytes(n: u64) -> Seq<u8> {
    seq![
        (n >> 56) as u8,
        (n >> 48) as u8,
        (n >> 40) as u8,
        (n >> 32) as u8,
        (n >> 24) as u8,
        (n >> 16) as u8,
        (n >> 8) as u8,
        n as u8,
    ]
}

/// The value of 8 big-endian bytes.
pub open spec fn be8_val(b: Seq<u8>) -> u64 {
    ((b[0] as u64) << 56) | ((b[1] as u64) << 48) | ((b[2] as u64) << 40) | ((b[3] as u64) << 32)
        | ((b[4] as u64) << 24) | ((b[5] as u64) << 16) | ((b[6] as u64) << 8) | (b[7] as u64)
}

/// A 32-byte ABI word holding the unsigned value `n`: 24 zero bytes, then
/// `n` big-endian.  Offsets and lengths in the ABI encodings use this form.
pub open spec fn word_u64(n: u64) -> Seq<u8> {
    zeros(24) + be8_bytes(n)
}

/// Law: decoding the big-endian bytes of `n` yields `n`.
pub proof fn lemma_be8_roundtrip(n: u64)
    ensures
        be8_val(be8_bytes(n)) == n,
{
    assert((((n >> 56) as u8 as u64) << 56) | (((n >> 48) as u8 as u64) << 48)
        | (((n >> 40) as u8 as u64) << 40) | (((n >> 32) as u8 as u64) << 32)
        | (((n >> 24) as u8 as u64) << 24) | (((n >> 16) as u8 as u64) << 16)
        | (((n >> 8) as u8 as u64) << 8) | ((n as u8) as u64) == n) by (bit_vector);
}

/// Law: the big-endian encoding of the value of any 8 bytes is those bytes.
pub proof fn lemma_be8_bytes_of_val(b: Seq<u8>)
    requires
        b.len() == 8,
    ensures
        be8_bytes(be8_val(b)) == b,
{
    let b0 = b[0];
    let b1 = b[1];
    let b2 = b[2];
    let b3 = b[3];
    let b4 = b[4];
    let b5 = b[5];
    let b6 = b[6];
    let b7 = b[7];
    let m = ((b0 as u64) << 56) | ((b1 as u64) << 48) | ((b2 as u64) << 40) | ((b3 as u64) << 32)
        | ((b4 as u64) << 24) | ((b5 as u64) << 16) | ((b6 as u64) << 8) | (b7 as u64);
    assert(be8_val(b) == m);
    assert((m >> 56) as u8 == b0 && (m >> 48) as u8 == b1 && (m >> 40) as u8 == b2
        && (m >> 32) as u8 == b3 && (m >> 24) as u8 == b4 && (m >> 16) as u8 == b5
        && (m >> 8) as u8 == b6 && m as u8 == b7) by (bit_vector)
        requires
            m == ((b0 as u64) << 56) | ((b1 as u64) << 48) | ((b2 as u64) << 40)
                | ((b3 as u64) << 32) | ((b4 as u64) << 24) | ((b5 as u64) << 16)
                | ((b6 as u64) << 8) | (b7 as u64),
    ;
    assert(be8_bytes(be8_val(b)) =~= b);
}

/// Appends `k` zero bytes.
pub fn push_zeros(out: &mut Vec<u8>, k: usize)
    ensures
        final(out)@ == old(out)@ + zeros(k as nat),
{
    let mut i: usize = 0;
    while i < k
        invariant
            i <= k,
            out@ == old(out)@ + zeros(i as nat),
        decreases k - i,
    {
        out.push(0u8);
        i = i + 1;
        proof {
            assert(out@ =~= old(out)@ + zeros(i as nat));
        }
    }
}

/// Appends the 32-byte ABI word holding `n`.
pub fn push_word_u64(out: &mut Vec<u8>, n: u64)
    ensures
        final(out)@ == old(out)@ + word_u64(n),
{
    push_zeros(out, 24);
    out.push(#[verifier::truncate] ((n >> 56) as u8));
    out.push(#[verifier::truncate] ((n >> 48) as u8));
    out.push(#[verifier::truncate] ((n >> 40) as u8));
    out.push(#[verifier::truncate] ((n >> 32) as u8));
    out.push(#[verifier::truncate] ((n >> 24) as u8));
    out.push(#[verifier::truncate] ((n >> 16) as u8));
    out.push(#[verifier::truncate] ((n >> 8) as u8));
    out.push(#[verifier::truncate] (n as u8));
    proof {
        assert(out@ =~= old(out)@ + word_u64(n));
    }
}

/// Reads the 32-byte ABI word at `pos` as a `u64`.  `None` exactly when
/// those 32 bytes are no `u64` ABI word, that is, when one of the high 24
/// bytes is non-zero.
pub fn read_word_u64(v: &Vec<u8>, pos: usize) -> (r: Option<u64>)
    requires
        pos + 32 <= v@.len(),
    ensures
        match r {
            Some(n) => v@.subrange(pos as int, pos as int + 32) == word_u64(n),
            None => forall|n: u64| v@.subrange(pos as int, pos as int + 32) != word_u64(n),
        },
{
    let vlen: usize = v.len();
    let ghost s = v@.subrange(pos as int, pos as int + 32);
    if !crate::bytes::all_zero_range(v, pos, pos + 24) {
        proof {
            let j = choose|j: int| pos <= j < pos + 24 && v@[j] != 0u8;
            assert(forall|n: u64| word_u64(n)[j - pos] == 0u8);
            assert(forall|n: u64| s[j - pos] == v@[j] && s != word_u64(n));
        }
        return None;
    }
    let n = ((v[pos + 24] as u64) << 56) | ((v[pos + 25] as u64) << 48)
        | ((v[pos + 26] as u64) << 40) | ((v[pos + 27] as u64) << 32)
        | ((v[pos + 28] as u64) << 24) | ((v[pos + 29] as u64) << 16)
        | ((v[pos + 30] as u64) << 8) | (v[pos + 31] as u64);
    proof {
        let tail = s.subrange(24, 32);
        assert(tail[0] == v@[pos as int + 24] && tail[1] == v@[pos as int + 25]
            && tail[2] == v@[pos as int + 26] && tail[3] == v@[pos as int + 27]
            && tail[4] == v@[pos as int + 28] && tail[5] == v@[pos as int + 29]
            && tail[6] == v@[pos as int + 30] && tail[7] == v@[pos as int + 31]);
        assert(n == be8_val(tail));
        lemma_be8_bytes_of_val(tail);
        assert(s =~= word_u64(n));
    }
    Some(n)
}

/// `c` as a 32-byte ABI word: 30 zero bytes, then `c` big-endian.  The
/// event's chain discriminator uses this form.
pub open spec fn word_u16(c: u16) -> Seq<u8> {
    zeros(30) + seq![(c >> 8) as u8, c as u8]
}

/// Appends the 32-byte ABI word holding `c`.
pub fn push_word_u16(out: &mut Vec<u8>, c: u16)
    ensures
        final(out)@ == old(out)@ + word_u16(c),
{
    push_zeros(out, 30);
    out.push(#[verifier::truncate] ((c >> 8) as u8));
    out.push(#[verifier::truncate] (c as u8));
    proof {
        assert(out@ =~= old(out)@ + word_u16(c));
    }
}

/// Reads the 32-byte ABI word at `pos` as a `u16`; `None` exactly when one
/// of the high 30 bytes is non-zero.
pub fn read_word_u16(v: &Vec<u8>, pos: usize) -> (r: Option<u16>)
    requires
        pos + 32 <= v@.len(),
    ensures
        match r {
            Some(c) => v@.subrange(pos as int, pos as int + 32) == word_u16(c),
            None => forall|c: u16| v@.subrange(pos as int, pos as int + 32) != word_u16(c),
        },
{
    let vlen: usize = v.len();
    let ghost s = v@.subrange(pos as int, pos as int + 32);
    if !crate::bytes::all_zero_range(v, pos, pos + 30) {
        proof {
            let j = choose|j: int| pos <= j < pos + 30 && v@[j] != 0u8;
            assert(forall|c: u16| word_u16(c)[j - pos] == 0u8);
            assert(forall|c: u16| s[j - pos] == v@[j] && s != word_u16(c));
        }
        return None;
    }
    let hi = v[pos + 30];
    let lo = v[pos + 31];
    let c = ((hi as u16) << 8) | (lo as u16);
    proof {
        assert((((hi as u16) << 8) | (lo as u16)) >> 8 == hi as u16
            && ((((hi as u16) << 8) | (lo as u16)) as u8) == lo) by (bit_vector);
        assert((c >> 8) as u8 == hi);
        assert(s =~= word_u16(c));
    }
    Some(c)
}

/// The number of zero bytes that pad a `n`-byte string to a multiple of 32.
pub open spec fn pad32_len(n: nat) -> nat {
    (((32 - n % 32) % 32) as nat)
}

/// `n` rounded up to a multiple of 32.
pub open spec fn ceil32(n: nat) -> nat {
    n + pad32_len(n)
}

} // verus!
