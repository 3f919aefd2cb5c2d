use rathole::cli::KeypairType;
use rathole::keys::{default_curve, genkey, get_str_from_keypair_type, KeyError, Keypair};

#[test]
fn curves_have_names() {
    assert_eq!(get_str_from_keypair_type(KeypairType::X25519), "25519");
    assert_eq!(get_str_from_keypair_type(KeypairType::X448), "448");
    assert_eq!(default_curve(), KeypairType::X25519);
}

#[test]
fn key_pair_is_generated() {
    for curve in [None, Some(KeypairType::X25519)] {
        let pair = match genkey(curve) {
            Ok(pair) => pair,
            Err(_) => panic!("there is a key pair of this curve"),
        };
        assert_eq!(pair.private.len(), 32);
        assert_eq!(pair.public.len(), 32);
        assert_ne!(pair.private, pair.public);
    }
}

#[test]
fn key_pairs_differ() {
    let first = genkey(None).ok().unwrap();
    let second = genkey(None).ok().unwrap();
    assert_ne!(first.private, second.private);
    assert_ne!(first.public, second.public);
}

#[test]
fn curve_448_is_refused() {
    match genkey(Some(KeypairType::X448)) {
        Err(KeyError::UnsupportedCurve(curve, _)) => assert_eq!(curve, KeypairType::X448),
        Ok(_) => panic!("there is no key pair of this curve"),
    }
}

#[test]
fn key_pair_is_shown_in_base64() {
    let pair = Keypair { private: vec![0, 1, 2, 3], public: vec![0xfb, 0xff, 0xbf, 0x4d, 0x61] };
    assert_eq!(pair.text(), "Private Key:\nAAECAw==\n\nPublic Key:\n+/+/TWE=\n");
}

#[test]
fn every_digit_of_base64_is_shown() {
    let mut bytes: Vec<u8> = Vec::new();
    for i in (0u32..64).step_by(4) {
        let bits = (i << 18) | ((i + 1) << 12) | ((i + 2) << 6) | (i + 3);
        bytes.extend_from_slice(&bits.to_be_bytes()[1..]);
    }
    let pair = Keypair { private: bytes, public: Vec::new() };
    assert_eq!(
        pair.text(),
        "Private Key:\nABCDEFGHIJKLMNOPQRSTUVWXYZabcdefghijklmnopqrstuvwxyz0123456789+/\n\nPublic Key:\n\n"
    );
}

#[test]
fn shown_key_has_a_fixed_length() {
    let text = genkey(None).ok().unwrap().text();
    let lines: Vec<&str> = text.split('\n').collect();
    assert_eq!(lines.len(), 6);
    assert_eq!(lines[1].len(), 44);
    assert_eq!(lines[4].len(), 44);
    assert!(lines[1].ends_with('=') && !lines[1].ends_with("=="));
}
