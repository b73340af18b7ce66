use base64::Engine;
use storecore::codec::{from_base64url, to_base64url, u64_to_be_bytes};
use storecore::suid::compose_id;

#[test]
fn be_bytes_are_big_endian() {
    assert_eq!(u64_to_be_bytes(0), vec![0u8; 8]);
    assert_eq!(
        u64_to_be_bytes(0x0123456789ABCDEF),
        vec![0x01, 0x23, 0x45, 0x67, 0x89, 0xAB, 0xCD, 0xEF]
    );
    assert_eq!(u64_to_be_bytes(1), vec![0, 0, 0, 0, 0, 0, 0, 1]);
}

#[test]
fn known_encodings() {
    assert_eq!(to_base64url(0), "AAAAAAAAAAA");
    assert_eq!(to_base64url(1), "AAAAAAAAAAE");
    assert_eq!(to_base64url(0x0123456789ABCDEF), "ASNFZ4mrze8");
    assert_eq!(to_base64url(u64::MAX), "__________8");
    assert_eq!(to_base64url(4329477), "AAAAAABCEAU");
}

#[test]
fn encoding_matches_the_engine_on_the_raw_bytes() {
    for n in [0u64, 1, 42, 4329477, 0x0123456789ABCDEF, u64::MAX] {
        let direct = base64::engine::general_purpose::URL_SAFE_NO_PAD.encode(n.to_be_bytes());
        assert_eq!(to_base64url(n), direct);
    }
}

#[test]
fn decoding_inverts_encoding() {
    for n in [
        0u64,
        1,
        5,
        999,
        4329477,
        517812129799,
        0x0123456789ABCDEF,
        u64::MAX,
    ] {
        assert_eq!(from_base64url(&to_base64url(n)), Some(n));
    }
}

#[test]
fn decoding_recovers_the_minted_fields() {
    // timestamp delta 123456, datacenter 1, worker 1, sequence 7
    let id = compose_id(123456, 1, 1, 7);
    let text = to_base64url(id);
    assert_eq!(text, "AAAAeJACEAc");
    let back = from_base64url(&text).unwrap();
    assert_eq!(back, id);
    assert_eq!(back >> 22, 123456);
    assert_eq!((back >> 17) & 31, 1);
    assert_eq!((back >> 12) & 31, 1);
    assert_eq!(back & 4095, 7);
}

#[test]
fn decoding_rejects_what_encoding_cannot_produce() {
    // wrong length
    assert_eq!(from_base64url(""), None);
    assert_eq!(from_base64url("AAAAAAAAAA"), None);
    assert_eq!(from_base64url("AAAAAAAAAAAA"), None);
    // a character outside the alphabet
    assert_eq!(from_base64url("AAAAAAAAAA+"), None);
    assert_eq!(from_base64url("AAAA AAAAAA"), None);
    // a set slack bit in the last character: 'B' encodes value 1
    assert_eq!(from_base64url("AAAAAAAAAAB"), None);
}
