use scout::scalar::Scalar;

fn s(x: f32) -> Scalar {
    Scalar::from_bits(x.to_bits())
}

fn f(x: Scalar) -> f32 {
    f32::from_bits(x.to_bits())
}

#[test]
fn keys_order_as_the_numbers_do() {
    let values = [
        f32::NEG_INFINITY, -1.0e30, -2.5, -1.0, -0.5, -1.0e-30, 0.0, 1.0e-30, 0.05, 0.1, 0.42, 0.5,
        1.0, 2.0, 1.0e30, f32::INFINITY,
    ];
    for a in values {
        for b in values {
            assert_eq!(s(a).key() < s(b).key(), a < b);
            assert_eq!(s(a).ge(s(b)), a >= b);
            assert_eq!(s(a).gt(s(b)), a > b);
            assert_eq!(s(a).same(s(b)), a == b);
        }
    }
}

#[test]
fn the_two_zeros_are_one() {
    assert_eq!(s(0.0).key(), 0);
    assert_eq!(s(-0.0).key(), 0);
    assert!(s(0.0).same(s(-0.0)));
    assert_eq!(Scalar::zero().key(), 0);
}

#[test]
fn one_has_the_key_of_one() {
    assert_eq!(Scalar::one().to_bits(), 1.0f32.to_bits());
    assert_eq!(f(Scalar::one()), 1.0);
    assert_eq!(f(Scalar::zero()), 0.0);
}

#[test]
fn values_come_back_unchanged() {
    for x in [0.0f32, 1.0, -1.0, 0.42, -0.35, 3.5e-12, -7.25e20, f32::INFINITY, f32::NEG_INFINITY, f32::MAX, f32::MIN_POSITIVE] {
        assert_eq!(f(s(x)), x);
        assert_eq!(s(x).to_bits(), x.to_bits());
    }
    assert_eq!(s(-0.0).to_bits(), 0.0f32.to_bits());
}

#[test]
fn what_is_not_a_number_is_told() {
    assert!(s(f32::NAN).is_nan());
    assert!(s(-f32::NAN).is_nan());
    assert!(!s(f32::INFINITY).is_nan());
    assert!(!s(f32::NEG_INFINITY).is_nan());
    assert!(!s(0.0).is_nan());
    assert!(f(s(f32::NAN)).is_nan());
}

#[test]
fn what_is_not_a_number_compares_with_nothing() {
    let n = s(f32::NAN);
    assert!(!n.ge(n));
    assert!(!n.gt(s(0.0)));
    assert!(!s(0.0).ge(n));
    assert!(!n.same(n));
}

#[test]
fn unit_interval_has_both_ends() {
    assert!(s(0.0).is_unit_interval());
    assert!(s(-0.0).is_unit_interval());
    assert!(s(1.0).is_unit_interval());
    assert!(s(0.3).is_unit_interval());
    assert!(!s(1.0000001).is_unit_interval());
    assert!(!s(-0.0000001).is_unit_interval());
    assert!(!s(f32::NAN).is_unit_interval());
    assert!(!s(f32::INFINITY).is_unit_interval());
}
