use stratum_proxy::envelope::{digest_for, sign, verify};
use stratum_proxy::keys::{bytes_equal, PublicKey, SecretKey, Signature};

fn hex(s: &str) -> Vec<u8> {
    let digits: Vec<u8> = s.bytes().map(|c| (c as char).to_digit(16).unwrap() as u8).collect();
    digits.chunks(2).map(|pair| pair[0] * 16 + pair[1]).collect()
}

fn key_of_one() -> SecretKey {
    let mut bytes = [0u8; 32];
    bytes[31] = 1;
    SecretKey { bytes }
}

#[test]
fn the_digest_is_sha256_of_tag_then_payload() {
    let digest = digest_for(b'a', b"bc");
    assert_eq!(
        digest.to_vec(),
        hex("ba7816bf8f01cfea414140de5dae2223b00361a396177a9cb410ff61f20015ad")
    );
    let empty_payload = digest_for(3, &[]);
    assert_eq!(
        empty_payload.to_vec(),
        hex("084fed08b978af4d7d196a7446a86b58009e636b611db16211b65a9aadff29c5")
    );
}

#[test]
fn the_public_key_of_one_is_the_generator() {
    let key = PublicKey::from_secret_key(&key_of_one()).unwrap();
    assert_eq!(
        key.bytes.to_vec(),
        hex("0279be667ef9dcbbac55a06295ce870b07029bfcdb2dce28d959f2815b16f81798")
    );
}

#[test]
fn a_secret_key_of_zero_is_no_key() {
    let zero = SecretKey { bytes: [0u8; 32] };
    assert!(PublicKey::from_secret_key(&zero).is_none());
    assert!(sign(&zero, 3, &[1]).is_none());
    let too_big = SecretKey { bytes: [0xff; 32] };
    assert!(PublicKey::from_secret_key(&too_big).is_none());
    assert!(sign(&too_big, 3, &[1]).is_none());
}

#[test]
fn public_keys_parse_only_from_points() {
    let generator = hex("0279be667ef9dcbbac55a06295ce870b07029bfcdb2dce28d959f2815b16f81798");
    let key = PublicKey::from_slice(&generator).unwrap();
    assert_eq!(key.bytes.to_vec(), generator);
    assert!(PublicKey::from_slice(&[0u8; 33]).is_none());
    assert!(PublicKey::from_slice(&generator[..32]).is_none());
    let mut wrong_prefix = generator.clone();
    wrong_prefix[0] = 5;
    assert!(PublicKey::from_slice(&wrong_prefix).is_none());
    assert!(key.same_as(&PublicKey::from_secret_key(&key_of_one()).unwrap()));
    assert!(!key.same_as(&PublicKey::from_secret_key(&SecretKey { bytes: [1; 32] }).unwrap()));
}

#[test]
fn signatures_parse_only_in_range() {
    assert!(Signature::from_compact(&[1u8; 64]).is_some());
    assert_eq!(Signature::from_compact(&[1u8; 64]).unwrap().bytes.to_vec(), vec![1u8; 64]);
    assert!(Signature::from_compact(&[0xff; 64]).is_none());
    assert!(Signature::from_compact(&[1u8; 63]).is_none());
    assert!(Signature::from_compact(&[1u8; 65]).is_none());
}

#[test]
fn a_half_of_a_signature_must_be_below_the_group_order() {
    let order = hex("fffffffffffffffffffffffffffffffebaaedce6af48a03bbfd25e8cd0364141");
    let mut below = order.clone();
    below[31] = 0x40;
    let mut above = order.clone();
    above[31] = 0x42;
    let both = |r: &Vec<u8>, s: &Vec<u8>| {
        let mut bytes = r.clone();
        bytes.extend_from_slice(s);
        Signature::from_compact(&bytes).is_some()
    };
    assert!(both(&below, &below));
    assert!(both(&vec![0u8; 32], &vec![0u8; 32]));
    assert!(!both(&order, &below));
    assert!(!both(&below, &order));
    assert!(!both(&above, &below));
    assert!(!both(&below, &above));
    let mut high_byte_first = vec![0u8; 32];
    high_byte_first[0] = 0xff;
    high_byte_first[31] = 0xff;
    assert!(both(&high_byte_first, &below));
    let mut top = vec![0xffu8; 32];
    top[31] = 0;
    assert!(!both(&top, &below));
}

#[test]
fn what_was_signed_verifies() {
    let secret = SecretKey { bytes: [7u8; 32] };
    let public = PublicKey::from_secret_key(&secret).unwrap();
    let payload = [1u8, 2, 3, 4, 5];
    let signature = sign(&secret, 3, &payload).unwrap();
    assert!(verify(&public, 3, &payload, &signature));
    assert_eq!(sign(&secret, 3, &payload).unwrap(), signature);
}

#[test]
fn the_tag_is_part_of_what_is_signed() {
    let secret = SecretKey { bytes: [7u8; 32] };
    let public = PublicKey::from_secret_key(&secret).unwrap();
    let payload = [1u8, 2, 3, 4, 5];
    let signature = sign(&secret, 3, &payload).unwrap();
    assert!(!verify(&public, 6, &payload, &signature));
    assert!(!verify(&public, 7, &payload, &signature));
    assert_ne!(sign(&secret, 6, &payload).unwrap(), signature);
}

#[test]
fn a_flipped_bit_does_not_verify() {
    let secret = SecretKey { bytes: [7u8; 32] };
    let public = PublicKey::from_secret_key(&secret).unwrap();
    let payload = [1u8, 2, 3, 4, 5];
    let signature = sign(&secret, 3, &payload).unwrap();
    for i in 0..payload.len() {
        let mut tampered = payload;
        tampered[i] ^= 1;
        assert!(!verify(&public, 3, &tampered, &signature));
    }
    for i in 0..64 {
        let mut tampered = signature;
        tampered.bytes[i] ^= 1;
        assert!(!verify(&public, 3, &payload, &tampered));
    }
    let other = PublicKey::from_secret_key(&SecretKey { bytes: [8u8; 32] }).unwrap();
    assert!(!verify(&other, 3, &payload, &signature));
}

#[test]
fn byte_strings_compare_by_content() {
    assert!(bytes_equal(&[], &[]));
    assert!(bytes_equal(&[1, 2], &[1, 2]));
    assert!(!bytes_equal(&[1, 2], &[1, 3]));
    assert!(!bytes_equal(&[1, 2], &[1, 2, 3]));
}
