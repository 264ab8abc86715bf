use ecc::crypto::ecdsa::{matches_r, signature_from_nonce, verify, Signature};
use ecc::crypto::hash::hash_message;
use ecc::crypto::keys::PrivateKey;
use ecc::crypto::rfc6979::generate_deterministic_nonce;
use ecc::crypto::scalar::Scalar;
use ecc::crypto::uint::U256;
use ecc::curves::secp256k1::{CurvePoint, Secp256k1Params};
use ecc::errors::EcdsaError;

fn word(hex_digits: &str) -> [u8; 32] {
    let bytes = hex::decode(hex_digits).unwrap();
    let mut out = [0u8; 32];
    out.copy_from_slice(&bytes);
    out
}

fn uint(hex_digits: &str) -> U256 {
    U256::from_be_bytes(word(hex_digits))
}

fn scalar(hex_digits: &str) -> Scalar {
    Scalar::from_repr(&word(hex_digits)).unwrap()
}

fn small(v: u8) -> [u8; 32] {
    let mut out = [0u8; 32];
    out[31] = v;
    out
}

const ORDER: &str = "fffffffffffffffffffffffffffffffebaaedce6af48a03bbfd25e8cd0364141";
const HALF_ORDER: &str = "7fffffffffffffffffffffffffffffff5d576e7357a4501ddfe92f46681b20a0";
const GX: &str = "79be667ef9dcbbac55a06295ce870b07029bfcdb2dce28d959f2815b16f81798";

#[test]
fn test_ecdsa_example() {
    let private_key = PrivateKey::generate();
    let public_key = private_key.public_key();
    let pub_point = public_key.as_point();

    let message = b"Hello, RareSkills";
    let h = hash_message(message);

    let signature = private_key.sign(&h).unwrap();
    let is_valid = verify(pub_point, &h, &signature);

    assert!(is_valid, "ECDSA signature verification failed");
}

#[test]
fn test_known_signature() {
    // Test with a known private key for reproducibility
    let privkey_bytes = [1u8; 32]; // Simple test key
    let private_key = PrivateKey::from_bytes(&privkey_bytes).unwrap();
    let public_key = private_key.public_key();

    let message = b"test message";
    let h = hash_message(message);

    let signature = private_key.sign(&h).unwrap();
    let is_valid = verify(public_key.as_point(), &h, &signature);

    assert!(is_valid, "Known signature should be valid");
}

#[test]
fn test_invalid_signature() {
    let private_key = PrivateKey::generate();
    let public_key = private_key.public_key();

    let message1 = b"original message";
    let message2 = b"different message";

    let h1 = hash_message(message1);
    let h2 = hash_message(message2);

    let signature = private_key.sign(&h1).unwrap();

    // Signature for h1 should not verify against h2
    let is_valid = verify(public_key.as_point(), &h2, &signature);
    assert!(
        !is_valid,
        "Signature should be invalid for different message"
    );
}

#[test]
fn nonce_of_a_published_vector() {
    // private key one, message "Satoshi Nakamoto"
    let h = hash_message(b"Satoshi Nakamoto");
    let k = generate_deterministic_nonce(&small(1), &h.to_be_bytes()).unwrap();
    assert_eq!(
        hex::encode(k.to_bytes()),
        "8f8a276c19f4149656b280621e358cce24f5f52542772691ee69063b74f15d15"
    );
    // private key one, message "All those moments will be lost in time, like tears in rain. Time to die..."
    let h = hash_message(
        b"All those moments will be lost in time, like tears in rain. Time to die...",
    );
    let k = generate_deterministic_nonce(&small(1), &h.to_be_bytes()).unwrap();
    assert_eq!(
        hex::encode(k.to_bytes()),
        "38aa22d72376b4dbc472e06c3ba403ee0a394da63fc58d88686c611aba98d6b3"
    );
}

#[test]
fn nonce_is_deterministic() {
    let key = [7u8; 32];
    let h = hash_message(b"twice the same");
    let first = generate_deterministic_nonce(&key, &h.to_be_bytes()).unwrap();
    let second = generate_deterministic_nonce(&key, &h.to_be_bytes()).unwrap();
    assert_eq!(first, second);
    let other = generate_deterministic_nonce(&key, &hash_message(b"another").to_be_bytes()).unwrap();
    assert_ne!(first, other);
    let third = generate_deterministic_nonce(&[8u8; 32], &h.to_be_bytes()).unwrap();
    assert_ne!(first, third);
    assert!(!first.is_zero());
}

#[test]
fn signature_of_a_published_vector() {
    let private_key = PrivateKey::from_bytes(&small(1)).unwrap();
    let h = hash_message(b"Satoshi Nakamoto");
    let signature = private_key.sign(&h).unwrap();
    assert_eq!(
        signature,
        Signature {
            r: uint("934b1ea10a4b3c1757e2b0c017d0b6143ce3c9a7e6a4a49860d7a6ab210ee3d8"),
            s: uint("2442ce9d2b916064108014783e923ec36b49743e2ffa1c4496f01a512aafd9e5"),
        }
    );
    assert!(verify(private_key.public_key().as_point(), &h, &signature));
}

#[test]
fn signing_is_deterministic() {
    let private_key = PrivateKey::from_bytes(&[3u8; 32]).unwrap();
    let h = hash_message(b"the same again");
    assert_eq!(private_key.sign(&h).unwrap(), private_key.sign(&h).unwrap());
}

#[test]
fn round_trip_for_many_keys_and_messages() {
    for key_byte in 1u8..12 {
        let private_key = PrivateKey::from_bytes(&[key_byte; 32]).unwrap();
        let public_key = private_key.public_key();
        for message_byte in 0u8..12 {
            let h = hash_message(&[message_byte, key_byte, 42]);
            let signature = private_key.sign(&h).unwrap();
            assert!(verify(public_key.as_point(), &h, &signature));
        }
    }
}

#[test]
fn second_half_is_in_the_lower_half() {
    let half = uint(HALF_ORDER);
    let order = uint(ORDER);
    let mut seen_flip = false;
    for i in 0u8..40 {
        let private_key = PrivateKey::from_bytes(&[i + 1; 32]).unwrap();
        let h = hash_message(&[i]);
        let signature = private_key.sign(&h).unwrap();
        assert!(!half.lt(&signature.s));
        assert!(!signature.s.is_zero());
        assert!(!signature.r.is_zero());
        assert!(signature.r.lt(&order));

        // the same nonce without the flip gives either the same or the mirrored half
        let k = generate_deterministic_nonce(&[i + 1; 32], &h.to_be_bytes()).unwrap();
        let d = Scalar::from_repr(&[i + 1; 32]).unwrap();
        let hs = Scalar::from_repr(&h.to_be_bytes()).unwrap();
        let r = Scalar::from_repr(&signature.r.to_be_bytes()).unwrap();
        let raw = k.invert().unwrap().mul(&hs.add(&r.mul(&d))).to_uint();
        if half.lt(&raw) {
            seen_flip = true;
            assert_eq!(signature.s, order.wrapping_sub(&raw));
        } else {
            assert_eq!(signature.s, raw);
        }
    }
    assert!(seen_flip);
}

#[test]
fn tampering_breaks_the_signature() {
    let private_key = PrivateKey::from_bytes(&[5u8; 32]).unwrap();
    let public_key = private_key.public_key();
    let h = hash_message(b"do not touch");
    let signature = private_key.sign(&h).unwrap();
    assert!(verify(public_key.as_point(), &h, &signature));

    for byte in 0..32 {
        for bit in 0..8 {
            let mut hb = h.to_be_bytes();
            hb[byte] ^= 1 << bit;
            assert!(!verify(public_key.as_point(), &U256::from_be_bytes(hb), &signature));

            let mut rb = signature.r.to_be_bytes();
            rb[byte] ^= 1 << bit;
            let tampered = Signature { r: U256::from_be_bytes(rb), s: signature.s };
            assert!(!verify(public_key.as_point(), &h, &tampered));

            let mut sb = signature.s.to_be_bytes();
            sb[byte] ^= 1 << bit;
            let tampered = Signature { r: signature.r, s: U256::from_be_bytes(sb) };
            assert!(!verify(public_key.as_point(), &h, &tampered));
        }
    }
}

#[test]
fn verification_under_another_key_fails() {
    let private_key = PrivateKey::from_bytes(&[5u8; 32]).unwrap();
    let other = PrivateKey::from_bytes(&[6u8; 32]).unwrap();
    let h = hash_message(b"whose is it");
    let signature = private_key.sign(&h).unwrap();
    assert!(!verify(other.public_key().as_point(), &h, &signature));
}

#[test]
fn halves_out_of_range_are_rejected() {
    let private_key = PrivateKey::from_bytes(&[5u8; 32]).unwrap();
    let public_key = private_key.public_key();
    let h = hash_message(b"range");
    let signature = private_key.sign(&h).unwrap();
    let zero = U256::zero();
    let order = uint(ORDER);
    let top = U256::from_be_bytes([0xff; 32]);

    for r in [zero, order, top] {
        assert!(!verify(public_key.as_point(), &h, &Signature { r, s: signature.s }));
    }
    for s in [zero, order, top] {
        assert!(!verify(public_key.as_point(), &h, &Signature { r: signature.r, s }));
    }
    // a digest that is not below the order
    assert!(!verify(public_key.as_point(), &order, &signature));
    assert!(!verify(public_key.as_point(), &top, &signature));
}

#[test]
fn the_mirrored_second_half_verifies_too() {
    let private_key = PrivateKey::from_bytes(&[5u8; 32]).unwrap();
    let public_key = private_key.public_key();
    let h = hash_message(b"mirror");
    let signature = private_key.sign(&h).unwrap();
    let mirrored = Signature { r: signature.r, s: uint(ORDER).wrapping_sub(&signature.s) };
    assert!(uint(HALF_ORDER).lt(&mirrored.s));
    assert!(verify(public_key.as_point(), &h, &mirrored));
}

#[test]
fn keys_that_are_no_points_are_rejected() {
    let private_key = PrivateKey::from_bytes(&[5u8; 32]).unwrap();
    let h = hash_message(b"key");
    let signature = private_key.sign(&h).unwrap();

    let empty = CurvePoint::from_sec1_bytes(&[]);
    assert!(!verify(&empty, &h, &signature));
    let identity = CurvePoint::from_sec1_bytes(&[0]);
    assert!(!verify(&identity, &h, &signature));
    let mut off_curve = private_key.public_key().as_point().encoded.clone();
    off_curve[64] ^= 1;
    assert!(!verify(&CurvePoint::from_sec1_bytes(&off_curve), &h, &signature));
    let mut short = private_key.public_key().as_point().encoded.clone();
    short.pop();
    assert!(!verify(&CurvePoint::from_sec1_bytes(&short), &h, &signature));
}

#[test]
fn a_compressed_key_verifies() {
    // key one: the generator, compressed (its second coordinate is even)
    let private_key = PrivateKey::from_bytes(&small(1)).unwrap();
    let h = hash_message(b"compressed");
    let signature = private_key.sign(&h).unwrap();
    let mut compressed = vec![2u8];
    compressed.extend_from_slice(&word(GX));
    assert!(verify(&CurvePoint::from_sec1_bytes(&compressed), &h, &signature));
    compressed[0] = 3;
    assert!(!verify(&CurvePoint::from_sec1_bytes(&compressed), &h, &signature));
}

#[test]
fn signing_rejects_a_digest_that_is_not_reduced() {
    let private_key = PrivateKey::from_bytes(&[5u8; 32]).unwrap();
    assert_eq!(private_key.sign(&uint(ORDER)), Err(EcdsaError::InvalidHash));
    assert_eq!(
        private_key.sign(&U256::from_be_bytes([0xff; 32])),
        Err(EcdsaError::InvalidHash)
    );
    // the largest reduced digest is signed
    let largest = uint("fffffffffffffffffffffffffffffffebaaedce6af48a03bbfd25e8cd0364140");
    let signature = private_key.sign(&largest).unwrap();
    assert!(verify(private_key.public_key().as_point(), &largest, &signature));
    // so is zero
    let signature = private_key.sign(&U256::zero()).unwrap();
    assert!(verify(private_key.public_key().as_point(), &U256::zero(), &signature));
}

#[test]
fn signature_from_a_given_nonce() {
    // d = 1, k = 1: r = Gx, s = h + r, here with h = 1
    let one = Scalar::from_repr(&small(1)).unwrap();
    let generator = Secp256k1Params::generator();
    let signature = signature_from_nonce(&one, &one, &one, &generator).unwrap();
    assert_eq!(signature.r, uint(GX));
    assert_eq!(
        signature.s,
        uint("79be667ef9dcbbac55a06295ce870b07029bfcdb2dce28d959f2815b16f81799")
    );
    assert!(verify(&generator, &U256::from_be_bytes(small(1)), &signature));

    // d = 2, k = 3, h = 5: r = (3G).x, s = (5 + 2r) / 3
    let d = Scalar::from_repr(&small(2)).unwrap();
    let k = Scalar::from_repr(&small(3)).unwrap();
    let h = Scalar::from_repr(&small(5)).unwrap();
    let point = CurvePoint::generator_multiple(&k);
    let signature = signature_from_nonce(&d, &h, &k, &point).unwrap();
    assert_eq!(
        signature.r,
        uint("f9308a019258c31049344f85f89d5229b531c845836f99b08601f113bce036f9")
    );
    let r = Scalar::from_repr(&signature.r.to_be_bytes()).unwrap();
    let s = Scalar::from_repr(&signature.s.to_be_bytes()).unwrap();
    let raw = h.add(&r.mul(&d));
    // s * 3 is (5 + 2r) or its negative
    let product = s.mul(&k);
    let negated = Scalar::from_repr(&uint(ORDER).wrapping_sub(&raw.to_uint()).to_be_bytes()).unwrap();
    assert!(product == raw || product == negated);
    assert!(verify(&CurvePoint::generator_multiple(&d), &h.to_uint(), &signature));
}

#[test]
fn signature_from_a_nonce_that_cannot_be_used() {
    let one = Scalar::from_repr(&small(1)).unwrap();
    let zero = Scalar::from_repr(&small(0)).unwrap();
    let generator = Secp256k1Params::generator();

    // a nonce of zero has no inverse
    assert_eq!(
        signature_from_nonce(&one, &one, &zero, &generator),
        Err(EcdsaError::InvalidNonce)
    );
    // the identity has no first coordinate
    let identity = CurvePoint::from_sec1_bytes(&[0]);
    assert_eq!(
        signature_from_nonce(&one, &one, &one, &identity),
        Err(EcdsaError::InvalidR)
    );
    assert_eq!(
        signature_from_nonce(&one, &one, &one, &CurvePoint::generator_multiple(&zero)),
        Err(EcdsaError::InvalidR)
    );
    // h + r * d == 0: with d = 1 and k = 1 that is h = order - Gx
    let h = Scalar::from_repr(&uint(ORDER).wrapping_sub(&uint(GX)).to_be_bytes()).unwrap();
    assert_eq!(
        signature_from_nonce(&one, &h, &one, &generator),
        Err(EcdsaError::InvalidNonce)
    );
}

#[test]
fn matching_a_point_against_r() {
    let generator = Secp256k1Params::generator();
    assert!(matches_r(&generator, &uint(GX)));
    assert!(!matches_r(&generator, &U256::from_be_bytes(small(1))));
    assert!(!matches_r(&CurvePoint::from_sec1_bytes(&[0]), &U256::zero()));
    assert!(!matches_r(&CurvePoint::from_sec1_bytes(&[]), &U256::zero()));
    // a first coordinate above the order is reduced: x = order + 1 matches r = 1
    let mut encoded = vec![4u8];
    encoded.extend_from_slice(&word(
        "fffffffffffffffffffffffffffffffebaaedce6af48a03bbfd25e8cd0364142",
    ));
    encoded.extend_from_slice(&[0u8; 32]);
    assert!(matches_r(&CurvePoint::from_sec1_bytes(&encoded), &U256::from_be_bytes(small(1))));
}

#[test]
fn digest_of_a_message() {
    assert_eq!(
        hex::encode(hash_message(b"abc").to_be_bytes()),
        "ba7816bf8f01cfea414140de5dae2223b00361a396177a9cb410ff61f20015ad"
    );
    assert_eq!(
        hex::encode(hash_message(b"").to_be_bytes()),
        "e3b0c44298fc1c149afbf4c8996fb92427ae41e4649b934ca495991b7852b855"
    );
    assert_eq!(
        hex::encode(hash_message(b"Satoshi Nakamoto").to_be_bytes()),
        "a0dc65ffca799873cbea0ac274015b9526505daaaed385155425f7337704883e"
    );
    assert!(scalar(ORDER.replace("4141", "4140").as_str()).to_uint().lt(&uint(ORDER)));
}
