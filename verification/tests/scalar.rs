use ecc::crypto::scalar::Scalar;
use ecc::crypto::uint::U256;

fn word(hex_digits: &str) -> [u8; 32] {
    let bytes = hex::decode(hex_digits).unwrap();
    let mut out = [0u8; 32];
    out.copy_from_slice(&bytes);
    out
}

fn small(v: u8) -> [u8; 32] {
    let mut out = [0u8; 32];
    out[31] = v;
    out
}

fn scalar(v: u8) -> Scalar {
    Scalar::from_repr(&small(v)).unwrap()
}

fn uint(v: u8) -> U256 {
    U256::from_be_bytes(small(v))
}

const ORDER: &str = "fffffffffffffffffffffffffffffffebaaedce6af48a03bbfd25e8cd0364141";
const ORDER_LESS_ONE: &str = "fffffffffffffffffffffffffffffffebaaedce6af48a03bbfd25e8cd0364140";
const HALF_ORDER: &str = "7fffffffffffffffffffffffffffffff5d576e7357a4501ddfe92f46681b20a0";

#[test]
fn scalars_lie_below_the_order() {
    assert!(Scalar::from_repr(&[0u8; 32]).is_some());
    assert!(Scalar::from_repr(&word(ORDER_LESS_ONE)).is_some());
    assert!(Scalar::from_repr(&word(ORDER)).is_none());
    assert!(Scalar::from_repr(&[0xff; 32]).is_none());
    assert_eq!(Scalar::from_repr(&small(9)).unwrap().to_bytes(), small(9));
    assert_eq!(Scalar::from_repr(&small(9)).unwrap().to_uint(), uint(9));
    assert!(scalar(0).is_zero());
    assert!(!scalar(1).is_zero());
}

#[test]
fn scalar_arithmetic_wraps_at_the_order() {
    let last = Scalar::from_repr(&word(ORDER_LESS_ONE)).unwrap();
    assert_eq!(scalar(2).add(&scalar(3)), scalar(5));
    assert_eq!(last.add(&scalar(1)), scalar(0));
    assert_eq!(last.add(&scalar(3)), scalar(2));
    assert_eq!(scalar(6).mul(&scalar(7)), scalar(42));
    // (n - 1)^2 == 1 and (n - 1) * 2 == n - 2
    assert_eq!(last.mul(&last), scalar(1));
    assert_eq!(last.mul(&scalar(2)).add(&scalar(2)), scalar(0));
}

#[test]
fn scalar_inverses() {
    assert_eq!(scalar(0).invert(), None);
    assert_eq!(scalar(1).invert(), Some(scalar(1)));
    // the inverse of two is (n + 1) / 2
    let half_up = Scalar::from_repr(&word(
        "7fffffffffffffffffffffffffffffff5d576e7357a4501ddfe92f46681b20a1",
    ))
    .unwrap();
    assert_eq!(scalar(2).invert(), Some(half_up));
    for v in 1u8..50 {
        let inverse = scalar(v).invert().unwrap();
        assert_eq!(inverse.mul(&scalar(v)), scalar(1));
    }
}

#[test]
fn random_scalars_differ() {
    let first = ecc::crypto::keys::PrivateKey::generate();
    let second = ecc::crypto::keys::PrivateKey::generate();
    assert_ne!(first.as_scalar(), second.as_scalar());
}

#[test]
fn uint_from_bytes() {
    assert_eq!(U256::from_be_slice(&small(7)), Some(uint(7)));
    assert_eq!(U256::from_be_slice(&[0u8; 31]), None);
    assert_eq!(U256::from_be_slice(&[0u8; 33]), None);
    assert_eq!(U256::from_be_slice(&[]), None);
    assert_eq!(uint(7).to_be_bytes(), small(7));
    assert_eq!(U256::zero(), uint(0));
    assert!(U256::zero().is_zero());
    assert!(!uint(1).is_zero());
}

#[test]
fn uint_order() {
    let order = U256::from_be_bytes(word(ORDER));
    assert!(uint(1).lt(&uint(2)));
    assert!(!uint(2).lt(&uint(2)));
    assert!(!uint(3).lt(&uint(2)));
    assert!(uint(2).lt(&order));
    assert!(order.lt(&U256::from_be_bytes([0xff; 32])));
    assert!(uint(2).same(&uint(2)));
    assert!(!uint(2).same(&uint(3)));
}

#[test]
fn uint_remainder() {
    let order = U256::from_be_bytes(word(ORDER));
    assert_eq!(uint(17).rem(&uint(5)), uint(2));
    assert_eq!(uint(4).rem(&order), uint(4));
    assert_eq!(order.rem(&order), uint(0));
    // 2^256 - 1 == (order) + (2^256 - 1 - order)
    assert_eq!(
        U256::from_be_bytes([0xff; 32]).rem(&order),
        U256::from_be_bytes(word(
            "000000000000000000000000000000014551231950b75fc4402da1732fc9bebe"
        ))
    );
}

#[test]
fn uint_halving() {
    assert_eq!(uint(17).half(), uint(8));
    assert_eq!(uint(1).half(), uint(0));
    assert_eq!(
        U256::from_be_bytes(word(ORDER)).half(),
        U256::from_be_bytes(word(HALF_ORDER))
    );
}

#[test]
fn uint_wrapping_subtraction() {
    assert_eq!(uint(17).wrapping_sub(&uint(5)), uint(12));
    assert_eq!(uint(0).wrapping_sub(&uint(1)), U256::from_be_bytes([0xff; 32]));
    assert_eq!(
        U256::from_be_bytes(word(ORDER)).wrapping_sub(&uint(1)),
        U256::from_be_bytes(word(ORDER_LESS_ONE))
    );
}
