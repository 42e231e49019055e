use wafer_core::double::{is_near, same, Within};

fn distance(within: Within) -> f64 {
    match within {
        Within::Billionth => 1e-9,
        Within::Millionth => 1e-6,
        Within::Epsilon => f64::EPSILON,
    }
}

fn check(x: f64, halves: u64, within: Within) {
    let expected = (x - halves as f64 / 2.0).abs() < distance(within);
    assert_eq!(is_near(x.to_bits(), halves, within), expected, "{x:?} {halves} {within:?}");
}

#[test]
fn nearness_is_the_comparison_of_doubles() {
    for within in [Within::Billionth, Within::Millionth, Within::Epsilon] {
        for halves in [0, 1, 2, 3, 4, 10, 14, 20, 30, 60, 200, 280, 3000, 6_000_000_000] {
            let center = halves as f64 / 2.0;
            for edge in [center, center + distance(within), center - distance(within)] {
                let bits = edge.to_bits();
                for step in 0..200 {
                    check(f64::from_bits(bits.saturating_add(step)), halves, within);
                    check(f64::from_bits(bits.saturating_sub(step)), halves, within);
                }
            }
            for x in [
                0.0,
                -0.0,
                -center,
                center + 0.5,
                center / 2.0,
                5e-324,
                f64::MIN_POSITIVE,
                1e300,
                f64::MAX,
                f64::INFINITY,
                f64::NEG_INFINITY,
                f64::NAN,
            ] {
                check(x, halves, within);
            }
        }
    }
}

#[test]
fn numbers_past_the_precision_of_a_double_are_near_themselves() {
    for exponent in 50..63 {
        let halves = 1_u64 << exponent;
        let x = halves as f64 / 2.0;
        assert!(is_near(x.to_bits(), halves, Within::Millionth));
        assert!(!is_near(x.to_bits(), halves + 1, Within::Millionth));
        assert!(!is_near(x.to_bits() + 1, halves, Within::Epsilon));
    }
}

#[test]
fn doubles_are_the_same_as_numbers() {
    assert!(same(0.0_f64.to_bits(), (-0.0_f64).to_bits()));
    assert!(same(1.5_f64.to_bits(), 1.5_f64.to_bits()));
    assert!(!same(1.5_f64.to_bits(), (-1.5_f64).to_bits()));
    assert!(!same(0.0_f64.to_bits(), 5e-324_f64.to_bits()));
}
