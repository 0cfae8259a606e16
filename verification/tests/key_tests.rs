use modecrypt::key::{derive_key, hash_prefix, Key, KEY_LEN};

#[test]
fn derive_key_twice_gives_the_same_key() {
    let first = derive_key("hello");
    let second = derive_key("hello");
    assert_eq!(first.bytes, second.bytes);
    assert_eq!(first, second);
}

#[test]
fn derive_key_is_the_first_half_of_the_sha256_digest() {
    let key = derive_key("hello");
    assert_eq!(
        key.bytes,
        [
            0x2c, 0xf2, 0x4d, 0xba, 0x5f, 0xb0, 0xa3, 0x0e, 0x26, 0xe8, 0x3b, 0x2a, 0xc5, 0xb9,
            0xe2, 0x9e
        ]
    );
}

#[test]
fn derive_key_of_abc() {
    let key = derive_key("abc");
    assert_eq!(
        key.bytes,
        [
            0xba, 0x78, 0x16, 0xbf, 0x8f, 0x01, 0xcf, 0xea, 0x41, 0x41, 0x40, 0xde, 0x5d, 0xae,
            0x22, 0x23
        ]
    );
}

#[test]
fn derive_key_of_the_empty_password() {
    let key = derive_key("");
    assert_eq!(
        key.bytes,
        [
            0xe3, 0xb0, 0xc4, 0x42, 0x98, 0xfc, 0x1c, 0x14, 0x9a, 0xfb, 0xf4, 0xc8, 0x99, 0x6f,
            0xb9, 0x24
        ]
    );
}

#[test]
fn derive_key_hashes_the_utf8_bytes() {
    let key = derive_key("pässwörd");
    assert_eq!(
        key.bytes,
        [
            0x46, 0x97, 0x0b, 0xef, 0x70, 0xac, 0xed, 0x81, 0x23, 0xf0, 0xd5, 0xd0, 0x94, 0x71,
            0x7e, 0x2a
        ]
    );
}

#[test]
fn different_passwords_give_different_keys() {
    assert_ne!(derive_key("hello").bytes, derive_key("Hello").bytes);
}

#[test]
fn key_length_is_128_bits() {
    assert_eq!(KEY_LEN, 16);
    assert_eq!(derive_key("hello").as_bytes().len(), 16);
}

#[test]
fn hash_prefix_agrees_with_derive_key() {
    assert_eq!(hash_prefix(b"hello"), derive_key("hello").bytes);
    assert_ne!(&hash_prefix(b"hello")[..5], b"hello");
}

#[test]
fn key_from_bytes_keeps_the_bytes() {
    let bytes = [7u8; 16];
    let key = Key::from_bytes(bytes);
    assert_eq!(key.as_bytes(), &bytes);
    assert_eq!(key.bytes, bytes);
}
