//! Address codec: the bidirectional mapping between a chain-native 20-byte
//! account address and the chain-agnostic 32-byte "universal" (Wormhole
//! format) representation.  A native address is right-aligned into the low
//! 20 bytes of the universal form; the high 12 bytes are zero.  Decoding
//! does not validate the high bytes: a malformed universal address yields
//! the native address held in its low 20 bytes, and callers that need
//! validity must check the high bytes themselves.

use vstd::prelude::*;

verus! {

/// A chain-native account address: exactly 20 bytes.
#[derive(Debug)]
pub struct Address {
    pub bytes: Vec<u8>,
}

impl View for Address {
    type V = Seq<u8>;

    open spec fn view(&self) -> Seq<u8> {
        self.bytes@
    }
}

impl Address {
    pub open spec fn wf(&self) -> bool {
        self.bytes@.len() == 20
    }
}

/// A 32-byte word: universal addresses, event signature topics and message
/// digests are all carried in this form.
#[derive(Debug)]
pub struct B256 {
    pub bytes: Vec<u8>,
}

impl View for B256 {
    type V = Seq<u8>;

    open spec fn view(&self) -> Seq<u8> {
        self.bytes@
    }
}

impl B256 {
    pub open spec fn wf(&self) -> bool {
        self.bytes@.len() == 32
    }
}

/// The universal form of a native address: 12 zero bytes, then the 20
/// address bytes.
pub open spec fn univ_of_addr(a: Seq<u8>) -> Seq<u8> {
    Seq::new(32, |i: int| if i < 12 { 0u8 } else { a[i - 12] })
}

/// The native address held in a universal address: its low 20 bytes.
pub open spec fn addr_of_univ(u: Seq<u8>) -> Seq<u8> {
    u.subrange(12, 32)
}

/// Whether a universal address is canonical: its high 12 bytes are zero.
pub open spec fn univ_is_canonical(u: Seq<u8>) -> bool {
    forall|i: int| 0 <= i < 12 ==> u[i] == 0u8
}

/// Converts a native address to its universal (Wormhole format)
/// representation.  Pure and total: 12 zero bytes, then the address.
pub fn to_wormhole_address(address: &Address) -> (r: B256)
    requires
        address.wf(),
    ensures
        r.wf(),
        r@ == univ_of_addr(address@),
{
    let mut bytes: Vec<u8> = Vec::new();
    let mut i: usize = 0;
    while i < 12
        invariant
            i <= 12,
            bytes@.len() == i,
            forall|j: int| 0 <= j < i ==> bytes@[j] == 0u8,
        decreases 12 - i,
    {
        bytes.push(0u8);
        i = i + 1;
    }
    let mut k: usize = 0;
    while k < 20
        invariant
            k <= 20,
            address.wf(),
            bytes@.len() == 12 + k,
            forall|j: int| 0 <= j < 12 ==> bytes@[j] == 0u8,
            forall|j: int| 12 <= j < 12 + k ==> bytes@[j] == address@[j - 12],
        decreases 20 - k,
    {
        bytes.push(address.bytes[k]);
        k = k + 1;
    }
    proof {
        assert(bytes@ =~= univ_of_addr(address@));
    }
    B256 { bytes }
}

/// Converts a universal (Wormhole format) address to the native address in
/// its low 20 bytes.  Pure and total; the high 12 bytes are not examined,
/// so a non-canonical input is truncated, not rejected.
pub fn from_wormhole_address(wormhole_addr: &B256) -> (r: Address)
    requires
        wormhole_addr.wf(),
    ensures
        r.wf(),
        r@ == addr_of_univ(wormhole_addr@),
{
    let mut bytes: Vec<u8> = Vec::new();
    let mut i: usize = 12;
    while i < 32
        invariant
            12 <= i <= 32,
            wormhole_addr.wf(),
            bytes@.len() == i - 12,
            forall|j: int| 0 <= j < i - 12 ==> bytes@[j] == wormhole_addr@[j + 12],
        decreases 32 - i,
    {
        bytes.push(wormhole_addr.bytes[i]);
        i = i + 1;
    }
    proof {
        assert(bytes@ =~= addr_of_univ(wormhole_addr@));
    }
    Address { bytes }
}

/// Law: decoding inverts encoding on every 20-byte native address.
pub proof fn lemma_addr_univ_roundtrip(a: Seq<u8>)
    requires
        a.len() == 20,
    ensures
        addr_of_univ(univ_of_addr(a)) == a,
{
    assert(addr_of_univ(univ_of_addr(a)) =~= a);
}

/// Law: encoding inverts decoding exactly on the canonical universal
/// addresses, those whose high 12 bytes are zero.
pub proof fn lemma_univ_addr_roundtrip(u: Seq<u8>)
    requires
        u.len() == 32,
        univ_is_canonical(u),
    ensures
        univ_of_addr(addr_of_univ(u)) == u,
{
    assert(univ_of_addr(addr_of_univ(u)) =~= u);
}

} // verus!
