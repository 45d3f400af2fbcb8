use reflection_doc::document_id::{DocumentId, HexError};
use reflection_doc::identity::{IdentityError, PrivateKey, PublicKey};

fn hex_to_bytes(s: &str) -> [u8; 32] {
    let mut out = [0u8; 32];
    for i in 0..32 {
        out[i] = u8::from_str_radix(&s[2 * i..2 * i + 2], 16).unwrap();
    }
    out
}

#[test]
fn public_key_follows_ed25519_test_vector() {
    // RFC 8032, section 7.1, test 1.
    let secret = hex_to_bytes("9d61b19deffd5a60ba844af492ec2cc44449c5697b326919703bac031cae7f60");
    let public = hex_to_bytes("d75a980182b10ab7d54bfed3c964073a0ee172f3daa62325af021a68f707511a");
    let key = PrivateKey::from_bytes(secret);
    assert_eq!(key.public_key().to_bytes(), public);
    assert_eq!(
        key.public_key().to_hex(),
        "d75a980182b10ab7d54bfed3c964073a0ee172f3daa62325af021a68f707511a"
    );
    assert_eq!(
        key.to_hex(),
        "9d61b19deffd5a60ba844af492ec2cc44449c5697b326919703bac031cae7f60"
    );
}

#[test]
fn public_key_is_a_function_of_the_private_key() {
    let key = PrivateKey::new();
    let again = PrivateKey::from_bytes(key.as_bytes().try_into().unwrap());
    assert!(key.public_key().equals(&again.public_key()));
    let other = PrivateKey::new();
    assert!(!key.public_key().equals(&other.public_key()));
}

#[test]
fn private_key_from_slice_checks_length() {
    let bytes = [7u8; 32];
    let key = PrivateKey::try_from_slice(&bytes).unwrap();
    assert_eq!(key.as_bytes(), &bytes[..]);
    assert_eq!(
        PrivateKey::try_from_slice(&[1u8, 2, 3]).unwrap_err(),
        IdentityError::InvalidLength(3, 32)
    );
    assert_eq!(
        PrivateKey::try_from_slice(&[0u8; 33]).unwrap_err(),
        IdentityError::InvalidLength(33, 32)
    );
}

#[test]
fn public_key_bytes_round_trip() {
    let key = PublicKey::from_bytes([9u8; 32]);
    assert_eq!(key.to_bytes(), [9u8; 32]);
    assert_eq!(key.as_bytes(), &[9u8; 32][..]);
    assert!(key.equals(&PublicKey::from_bytes([9u8; 32])));
    assert!(!key.equals(&PublicKey::from_bytes([8u8; 32])));
}

#[test]
fn document_id_hex_is_lowercase() {
    let mut bytes = [0u8; 32];
    bytes[0] = 0xAB;
    bytes[31] = 0x0F;
    let id = DocumentId::from(bytes);
    let hex = id.to_hex();
    assert_eq!(hex.len(), 64);
    assert!(hex.starts_with("ab00"));
    assert!(hex.ends_with("000f"));
}

#[test]
fn document_id_hex_round_trip() {
    let id = DocumentId::new();
    assert_eq!(DocumentId::from_hex(&id.to_hex()), Ok(id));
    let bytes: [u8; 32] = id.into();
    assert_eq!(DocumentId::from(bytes), id);
}

#[test]
fn document_id_from_hex_accepts_both_cases() {
    let upper = "AB".repeat(32);
    let lower = "ab".repeat(32);
    assert_eq!(DocumentId::from_hex(&upper).unwrap().bytes, [0xABu8; 32]);
    assert_eq!(DocumentId::from_hex(&lower).unwrap().bytes, [0xABu8; 32]);
}

#[test]
fn document_id_from_hex_errors() {
    assert_eq!(DocumentId::from_hex("abc"), Err(HexError::OddLength));
    assert_eq!(DocumentId::from_hex("abcd"), Err(HexError::InvalidStringLength));
    let mut bad = "0".repeat(64);
    bad.replace_range(10..11, "g");
    assert_eq!(
        DocumentId::from_hex(&bad),
        Err(HexError::InvalidHexCharacter { c: 'g', index: 10 })
    );
    // The first offending byte is reported.
    let mut two_bad = "0".repeat(64);
    two_bad.replace_range(3..4, "x");
    two_bad.replace_range(60..61, "z");
    assert_eq!(
        DocumentId::from_hex(&two_bad),
        Err(HexError::InvalidHexCharacter { c: 'x', index: 3 })
    );
    // Lengths are counted in bytes: "é" takes two.
    let mut wide = "0".repeat(62);
    wide.push('é');
    assert_eq!(
        DocumentId::from_hex(&wide),
        Err(HexError::InvalidHexCharacter { c: '\u{c3}', index: 62 })
    );
    assert_eq!(DocumentId::from_hex(""), Err(HexError::InvalidStringLength));
}

#[test]
fn document_id_equality() {
    let a = DocumentId::from([1u8; 32]);
    let b = DocumentId::from([1u8; 32]);
    let c = DocumentId::from([2u8; 32]);
    assert!(a.equals(&b));
    assert!(!a.equals(&c));
}

#[test]
fn parsed_hex_text_comes_back_in_lowercase() {
    let mixed = "0123456789ABCDEFabcdef0123456789AbCdEf0123456789aBcDeF0123456789";
    let id = DocumentId::from_hex(mixed).unwrap();
    assert_eq!(id.to_hex(), mixed.to_ascii_lowercase());
}
