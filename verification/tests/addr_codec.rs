use message_relay::addr::{Address, B256, from_wormhole_address, to_wormhole_address};

fn sample_address() -> Address {
    Address { bytes: (1u8..21u8).collect() }
}

#[test]
fn to_wormhole_zero_fills_high_bytes() {
    let a = sample_address();
    let u = to_wormhole_address(&a);
    assert_eq!(u.bytes.len(), 32);
    assert_eq!(&u.bytes[..12], &[0u8; 12]);
    assert_eq!(&u.bytes[12..], &a.bytes[..]);
}

#[test]
fn address_universal_roundtrip() {
    let a = sample_address();
    let back = from_wormhole_address(&to_wormhole_address(&a));
    assert_eq!(back.bytes, a.bytes);
}

#[test]
fn canonical_universal_roundtrip() {
    let mut bytes = vec![0u8; 12];
    bytes.extend((100u8..120u8).collect::<Vec<u8>>());
    let u = B256 { bytes: bytes.clone() };
    let again = to_wormhole_address(&from_wormhole_address(&u));
    assert_eq!(again.bytes, bytes);
}

#[test]
fn non_canonical_universal_is_truncated() {
    let mut bytes = vec![0xffu8; 12];
    bytes.extend((100u8..120u8).collect::<Vec<u8>>());
    let u = B256 { bytes };
    let a = from_wormhole_address(&u);
    assert_eq!(a.bytes, (100u8..120u8).collect::<Vec<u8>>());
    let again = to_wormhole_address(&a);
    assert_eq!(&again.bytes[..12], &[0u8; 12]);
    assert_ne!(again.bytes, u.bytes);
}
