use ecc::arithmetic::field::FieldElement;
use ecc::arithmetic::point::Point;
use ecc::crypto::scalar::Scalar;
use ecc::crypto::uint::U256;
use ecc::curves::secp256k1::{CurvePoint, Secp256k1Params};
use ecc::integer::Integer;

fn word(hex_digits: &str) -> [u8; 32] {
    let bytes = hex::decode(hex_digits).unwrap();
    let mut out = [0u8; 32];
    out.copy_from_slice(&bytes);
    out
}

fn small(v: u8) -> Scalar {
    let mut out = [0u8; 32];
    out[31] = v;
    Scalar::from_repr(&out).unwrap()
}

fn uncompressed(x: &str, y: &str) -> CurvePoint {
    let mut encoded = vec![4u8];
    encoded.extend_from_slice(&word(x));
    encoded.extend_from_slice(&word(y));
    CurvePoint::from_sec1_bytes(&encoded)
}

const ORDER: &str = "fffffffffffffffffffffffffffffffebaaedce6af48a03bbfd25e8cd0364141";
const GX: &str = "79be667ef9dcbbac55a06295ce870b07029bfcdb2dce28d959f2815b16f81798";
const GY: &str = "483ada7726a3c4655da4fbfc0e1108a8fd17b448a68554199c47d08ffb10d4b8";
const G2X: &str = "c6047f9441ed7d6d3045406e95c07cd85c778e4b8cef3ca7abac09b95c709ee5";
const G2Y: &str = "1ae168fea63dc339a3c58419466ceaeef7f632653266d0e1236431a950cfe52a";
const G3X: &str = "f9308a019258c31049344f85f89d5229b531c845836f99b08601f113bce036f9";
const G3Y: &str = "388f7b0f632de8140fe337e62a37f3566500a99934c2231b6cb9fd7584b8e672";

#[test]
fn field_prime_of_secp256k1() {
    // p = 2^256 - 2^32 - 977
    let two = Integer::from_i64(2);
    let mut power = Integer::from_i64(1);
    let mut two_to_32 = Integer::from_i64(0);
    for i in 1..=256 {
        power = power.mul(&two);
        if i == 32 {
            two_to_32 = power.clone();
        }
    }
    let expected = power.sub(&two_to_32).sub(&Integer::from_i64(977));
    assert_eq!(Secp256k1Params::field_prime(), expected);
    assert_eq!(
        Secp256k1Params::field_prime().to_text(),
        "115792089237316195423570985008687907853269984665640564039457584007908834671663"
    );
}

#[test]
fn order_of_secp256k1() {
    assert_eq!(Secp256k1Params::order(), U256::from_be_bytes(word(ORDER)));
    assert_eq!(
        Integer::from_bytes_be(&Secp256k1Params::order().to_be_bytes()).to_text(),
        "115792089237316195423570985008687907852837564279074904382605163141518161494337"
    );
}

#[test]
fn generator_of_secp256k1() {
    assert_eq!(Secp256k1Params::generator(), uncompressed(GX, GY));
    assert_eq!(
        Secp256k1Params::generator().x(),
        Some(U256::from_be_bytes(word(GX)))
    );
}

#[test]
fn generator_lies_on_the_curve() {
    let p = Secp256k1Params::field_prime();
    let x = FieldElement::from(Integer::from_bytes_be(&word(GX)), p.clone()).unwrap();
    let y = FieldElement::from(Integer::from_bytes_be(&word(GY)), p.clone()).unwrap();
    let a = FieldElement::from(Integer::from_i64(0), p.clone()).unwrap();
    let b = FieldElement::from(Integer::from_i64(7), p.clone()).unwrap();
    assert!(Point::finite(x, y, a, b).is_ok());
}

#[test]
fn multiples_of_the_generator() {
    let generator = Secp256k1Params::generator();
    assert_eq!(CurvePoint::generator_multiple(&small(1)), generator);
    assert_eq!(CurvePoint::generator_multiple(&small(2)), uncompressed(G2X, G2Y));
    assert_eq!(CurvePoint::generator_multiple(&small(3)), uncompressed(G3X, G3Y));
    assert_eq!(CurvePoint::generator_multiple(&small(0)), CurvePoint::from_sec1_bytes(&[0]));
    assert_eq!(generator.mul(&small(1)), Some(generator.clone()));
    assert_eq!(generator.mul(&small(2)), Some(uncompressed(G2X, G2Y)));
    assert_eq!(generator.mul(&small(3)), Some(uncompressed(G3X, G3Y)));
    assert_eq!(generator.mul(&small(0)), Some(CurvePoint::from_sec1_bytes(&[0])));
    assert_eq!(
        uncompressed(G2X, G2Y).mul(&small(0)),
        Some(CurvePoint::from_sec1_bytes(&[0]))
    );
}

#[test]
fn sums_of_points() {
    let generator = Secp256k1Params::generator();
    let identity = CurvePoint::from_sec1_bytes(&[0]);
    assert_eq!(generator.add(&generator), Some(uncompressed(G2X, G2Y)));
    assert_eq!(generator.add(&uncompressed(G2X, G2Y)), Some(uncompressed(G3X, G3Y)));
    assert_eq!(uncompressed(G2X, G2Y).add(&generator), Some(uncompressed(G3X, G3Y)));
    assert_eq!(generator.add(&identity), Some(generator.clone()));
    assert_eq!(identity.add(&generator), Some(generator.clone()));
    assert_eq!(identity.add(&identity), Some(identity.clone()));
    // the order less one gives the mirror image of the generator
    let last = Scalar::from_repr(&word(
        "fffffffffffffffffffffffffffffffebaaedce6af48a03bbfd25e8cd0364140",
    ))
    .unwrap();
    let mirror = generator.mul(&last).unwrap();
    assert_eq!(mirror.x(), generator.x());
    assert_ne!(mirror, generator);
    assert_eq!(generator.add(&mirror), Some(identity));
}

#[test]
fn bytes_that_are_no_point() {
    let generator = Secp256k1Params::generator();
    let mut off_curve = generator.encoded.clone();
    off_curve[64] ^= 1;
    let off_curve = CurvePoint::from_sec1_bytes(&off_curve);
    assert_eq!(off_curve.mul(&small(2)), None);
    assert_eq!(off_curve.add(&generator), None);
    assert_eq!(generator.add(&off_curve), None);
    for bytes in [vec![], vec![4u8], vec![5u8; 65], vec![4u8; 64], vec![2u8; 34]] {
        let point = CurvePoint::from_sec1_bytes(&bytes);
        assert_eq!(point.mul(&small(2)), None);
        assert_eq!(point.add(&generator), None);
    }
}

#[test]
fn first_coordinate_of_an_encoding() {
    assert_eq!(
        uncompressed(G2X, G2Y).x(),
        Some(U256::from_be_bytes(word(G2X)))
    );
    let mut compressed = vec![2u8];
    compressed.extend_from_slice(&word(G2X));
    assert_eq!(
        CurvePoint::from_sec1_bytes(&compressed).x(),
        Some(U256::from_be_bytes(word(G2X)))
    );
    compressed[0] = 3;
    assert_eq!(
        CurvePoint::from_sec1_bytes(&compressed).x(),
        Some(U256::from_be_bytes(word(G2X)))
    );
    compressed[0] = 4;
    assert_eq!(CurvePoint::from_sec1_bytes(&compressed).x(), None);
    assert_eq!(CurvePoint::from_sec1_bytes(&[0]).x(), None);
    assert_eq!(CurvePoint::from_sec1_bytes(&[]).x(), None);
    let mut wrong_tag = uncompressed(G2X, G2Y).encoded.clone();
    wrong_tag[0] = 2;
    assert_eq!(CurvePoint::from_sec1_bytes(&wrong_tag).x(), None);
}

#[test]
fn the_group_law_of_the_library_agrees_on_secp256k1() {
    let p = Secp256k1Params::field_prime();
    let coordinate =
        |hex_digits: &str| FieldElement::from(Integer::from_bytes_be(&word(hex_digits)), p.clone()).unwrap();
    let a = FieldElement::from(Integer::from_i64(0), p.clone()).unwrap();
    let b = FieldElement::from(Integer::from_i64(7), p.clone()).unwrap();
    let g = Point::finite(coordinate(GX), coordinate(GY), a.clone(), b.clone()).unwrap();
    let g2 = Point::finite(coordinate(G2X), coordinate(G2Y), a.clone(), b.clone()).unwrap();
    let g3 = Point::finite(coordinate(G3X), coordinate(G3Y), a.clone(), b.clone()).unwrap();
    assert_eq!(g.add(&g).unwrap(), g2);
    assert_eq!(g.add(&g2).unwrap(), g3);
    assert_eq!(g.scalar_mul(&Integer::from_i64(3)).unwrap(), g3);

    // a larger multiple, against the outside group law
    let k = Integer::from_i64(1_000_003);
    let mut bytes = [0u8; 32];
    bytes[28..].copy_from_slice(&1_000_003u32.to_be_bytes());
    let expected = CurvePoint::generator_multiple(&Scalar::from_repr(&bytes).unwrap());
    match g.scalar_mul(&k).unwrap() {
        Point::Finite { x, y, .. } => {
            assert_eq!(x.num(), &Integer::from_bytes_be(&expected.encoded[1..33]));
            assert_eq!(y.num(), &Integer::from_bytes_be(&expected.encoded[33..65]));
        }
        Point::Infinity { .. } => panic!("a finite point was expected"),
    }

    // the order of the group sends the generator to the identity
    let order = Integer::from_bytes_be(&word(ORDER));
    assert_eq!(g.scalar_mul(&order).unwrap(), Point::infinity(a, b));
}
