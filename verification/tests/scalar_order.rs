use maze_geometry::scalar::Scalar;

fn s(x: f32) -> Scalar {
    Scalar::from_bits(x.to_bits())
}

fn samples() -> Vec<f32> {
    vec![
        0.0,
        -0.0,
        1.0,
        -1.0,
        0.5,
        -0.5,
        2.0,
        -3.0,
        5.0,
        16.0,
        1.0e-40,
        -1.0e-40,
        f32::MIN_POSITIVE,
        -f32::MIN_POSITIVE,
        f32::MAX,
        f32::MIN,
        f32::INFINITY,
        f32::NEG_INFINITY,
        f32::NAN,
        -f32::NAN,
        f32::from_bits(0x7f80_0001),
        f32::from_bits(0xffff_ffff),
        f32::EPSILON,
        123456.79,
        -123456.79,
    ]
}

#[test]
fn bits_round_trip() {
    for x in samples() {
        assert_eq!(s(x).to_bits(), x.to_bits());
    }
    assert_eq!(Scalar::from_bits(0x4287_f5a0).to_bits(), 0x4287_f5a0);
}

#[test]
fn zero_is_positive_zero() {
    assert_eq!(Scalar::zero().to_bits(), 0);
    assert_eq!(f32::from_bits(Scalar::zero().to_bits()), 0.0);
    assert!(f32::from_bits(Scalar::zero().to_bits()).is_sign_positive());
}

#[test]
fn is_nan_agrees_with_the_hardware() {
    for x in samples() {
        assert_eq!(s(x).is_nan(), x.is_nan(), "{x:?}");
    }
}

#[test]
fn is_nan_at_the_edge_of_infinity() {
    assert!(!Scalar::from_bits(0x7f80_0000).is_nan());
    assert!(Scalar::from_bits(0x7f80_0001).is_nan());
    assert!(!Scalar::from_bits(0xff80_0000).is_nan());
    assert!(Scalar::from_bits(0xff80_0001).is_nan());
    assert!(!Scalar::from_bits(0x7f7f_ffff).is_nan());
}

#[test]
fn lt_agrees_with_the_hardware() {
    for a in samples() {
        for b in samples() {
            assert_eq!(s(a).lt(s(b)), a < b, "{a:?} < {b:?}");
        }
    }
}

#[test]
fn gt_agrees_with_the_hardware() {
    for a in samples() {
        for b in samples() {
            assert_eq!(s(a).gt(s(b)), a > b, "{a:?} > {b:?}");
        }
    }
}

#[test]
fn lt_agrees_with_the_hardware_on_a_sweep_of_patterns() {
    let mut a: u32 = 0x0000_0001;
    for _ in 0..400 {
        a = a.wrapping_mul(1_664_525).wrapping_add(1_013_904_223);
        let mut b: u32 = a ^ 0x5bd1_e995;
        for _ in 0..40 {
            b = b.wrapping_mul(22_695_477).wrapping_add(1);
            let (x, y) = (f32::from_bits(a), f32::from_bits(b));
            assert_eq!(Scalar::from_bits(a).lt(Scalar::from_bits(b)), x < y, "{a:#x} {b:#x}");
            assert_eq!(Scalar::from_bits(a).gt(Scalar::from_bits(b)), x > y, "{a:#x} {b:#x}");
        }
    }
}

#[test]
fn the_two_zeros_are_neither_below_nor_above_each_other() {
    assert!(!s(0.0).lt(s(-0.0)));
    assert!(!s(-0.0).lt(s(0.0)));
    assert!(!s(0.0).gt(s(-0.0)));
    assert_eq!(s(0.0).key(), 0);
    assert_eq!(s(-0.0).key(), 0);
}

#[test]
fn key_is_the_signed_magnitude() {
    assert_eq!(s(1.0).key(), 0x3f80_0000);
    assert_eq!(s(-1.0).key(), -0x3f80_0000);
    assert_eq!(s(f32::INFINITY).key(), 0x7f80_0000);
    assert_eq!(s(f32::NEG_INFINITY).key(), -0x7f80_0000);
    assert_eq!(Scalar::from_bits(0xffff_ffff).key(), -0x7fff_ffff);
}

#[test]
fn key_orders_numbers_as_they_are_ordered() {
    let numbers: Vec<f32> = samples().into_iter().filter(|x| !x.is_nan()).collect();
    for a in &numbers {
        for b in &numbers {
            assert_eq!(s(*a).key() < s(*b).key(), a < b, "{a:?} {b:?}");
            assert_eq!(s(*a).key() == s(*b).key(), a == b, "{a:?} {b:?}");
        }
    }
}

#[test]
fn nan_is_below_nothing_and_nothing_is_below_it() {
    for x in samples() {
        assert!(!s(f32::NAN).lt(s(x)));
        assert!(!s(x).lt(s(f32::NAN)));
        assert!(!s(f32::NAN).gt(s(x)));
        assert!(!s(x).gt(s(f32::NAN)));
    }
}
