use ocean_sim::single::{at_most, larger, nan, same_single};

fn values() -> Vec<f32> {
    let mut v = vec![
        0.0_f32,
        -0.0,
        1.0,
        -1.0,
        0.1,
        -0.1,
        0.5,
        2.5,
        -2.5,
        f32::MIN_POSITIVE,
        -f32::MIN_POSITIVE,
        1e-45,
        -1e-45,
        f32::MAX,
        f32::MIN,
        f32::INFINITY,
        f32::NEG_INFINITY,
        f32::NAN,
        -f32::NAN,
        f32::from_bits(0x7f80_0001),
        f32::from_bits(0xffff_ffff),
    ];
    let mut state = 0x2545_f491_u32;
    for _ in 0..200 {
        state ^= state << 13;
        state ^= state >> 17;
        state ^= state << 5;
        v.push(f32::from_bits(state));
    }
    v
}

#[test]
fn same_single_compares_like_the_numbers() {
    for a in values() {
        for b in values() {
            assert_eq!(same_single(a.to_bits(), b.to_bits()), a == b);
        }
    }
}

#[test]
fn at_most_orders_like_the_numbers() {
    for a in values() {
        for b in values() {
            assert_eq!(at_most(a.to_bits(), b.to_bits()), a <= b);
        }
    }
}

#[test]
fn nan_recognises_every_pattern_that_is_not_a_number() {
    for a in values() {
        assert_eq!(nan(a.to_bits()), a.is_nan());
    }
    assert!(!nan(0x7f80_0000));
    assert!(nan(0x7f80_0001));
    assert!(!nan(0xff80_0000));
    assert!(nan(0xffc0_0000));
}

#[test]
fn larger_is_the_maximum_of_the_numbers() {
    for a in values() {
        for b in values() {
            let m = f32::from_bits(larger(a.to_bits(), b.to_bits()));
            let expected = a.max(b);
            if expected.is_nan() {
                assert!(m.is_nan());
            } else {
                assert_eq!(m, expected);
            }
        }
    }
}

#[test]
fn larger_skips_what_is_not_a_number() {
    assert_eq!(larger(f32::NAN.to_bits(), 3.0_f32.to_bits()), 3.0_f32.to_bits());
    assert_eq!(larger(3.0_f32.to_bits(), f32::NAN.to_bits()), 3.0_f32.to_bits());
    assert_eq!(larger((-1.0_f32).to_bits(), 0.5_f32.to_bits()), 0.5_f32.to_bits());
}
