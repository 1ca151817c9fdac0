use mmb::decimal::Decimal;
use rust_decimal::Decimal as Outside;

fn inside(number: Outside) -> Decimal {
    let parts = number.unpack();
    Decimal::from_parts(parts.lo, parts.mid, parts.hi, parts.negative, parts.scale)
}

fn samples() -> Vec<Outside> {
    let mut samples = vec![Outside::MAX, Outside::MIN, Outside::ZERO];
    for num in [0, 1, 5, 10, 15, 25, 99, 100, 12345, i64::MAX, i64::MIN, -1, -5, -25, -100] {
        for scale in [0, 1, 2, 5, 27, 28] {
            samples.push(Outside::new(num, scale));
        }
    }
    let mut minus_zero = Outside::ZERO;
    minus_zero.set_sign_negative(true);
    samples.push(minus_zero);
    samples
}

#[test]
fn numbers_in_print() {
    assert_eq!(Decimal::new(0, 0).to_text(), "0");
    assert_eq!(Decimal::new(0, 2).to_text(), "0.00");
    assert_eq!(Decimal::new(12345, 2).to_text(), "123.45");
    assert_eq!(Decimal::new(-5, 3).to_text(), "-0.005");
    assert_eq!(Decimal::new(100, 2).to_text(), "1.00");
    assert_eq!(Decimal::from_parts(0, 0, 0, true, 0).to_text(), "-0");
    assert_eq!(Decimal::max_value().to_text(), "79228162514264337593543950335");
    assert_eq!(Decimal::min_value().to_text(), "-79228162514264337593543950335");
    for number in samples() {
        assert_eq!(inside(number).to_text(), number.to_string());
    }
}

#[test]
fn numbers_compare_by_value() {
    assert_eq!(Decimal::new(10, 1), Decimal::new(1000, 3));
    assert_eq!(Decimal::from_parts(0, 0, 0, true, 3), Decimal::default());
    assert_ne!(Decimal::new(1, 0), Decimal::new(-1, 0));
    assert!(Decimal::new(-2, 0).is_less(&Decimal::new(-15, 1)));
    assert!(!Decimal::new(10, 1).is_less(&Decimal::new(1, 0)));
    for one in samples() {
        for other in samples() {
            assert_eq!(inside(one) == inside(other), one == other);
            assert_eq!(inside(one).is_less(&inside(other)), one < other);
        }
    }
}

#[test]
fn smaller_and_larger_number() {
    let one = Decimal::new(10, 1);
    let same = Decimal::new(1, 0);
    assert_eq!(one.min(same).to_text(), "1.0");
    assert_eq!(one.max(same).to_text(), "1.0");
    assert_eq!(one.min(Decimal::new(-3, 0)).to_text(), "-3");
    assert_eq!(one.max(Decimal::new(3, 0)).to_text(), "3");
    for one in samples() {
        for other in samples() {
            let (a, b) = (inside(one), inside(other));
            assert_eq!(a.min(b).to_text(), one.min(other).to_string());
            assert_eq!(a.max(b).to_text(), one.max(other).to_string());
        }
    }
}

#[test]
fn sums_differences_and_products() {
    let a = Decimal::new(15, 1);
    let b = Decimal::new(25, 2);
    assert_eq!(a.checked_add(&b).unwrap().to_text(), "1.75");
    assert_eq!(a.checked_sub(&b).unwrap().to_text(), "1.25");
    assert_eq!(b.checked_sub(&a).unwrap().to_text(), "-1.25");
    assert_eq!(a.checked_mul(&b).unwrap().to_text(), "0.375");
    assert!(Decimal::max_value().checked_add(&Decimal::new(1, 0)).is_none());
    assert!(Decimal::min_value().checked_sub(&Decimal::new(1, 0)).is_none());
    assert!(Decimal::max_value().checked_mul(&Decimal::new(2, 0)).is_none());
    for one in samples() {
        for other in samples() {
            let (a, b) = (inside(one), inside(other));
            let text = |n: Option<Outside>| n.map(|n| n.to_string());
            let in_print = |n: Option<Decimal>| n.map(|n| n.to_text());
            assert_eq!(in_print(a.checked_add(&b)), text(one.checked_add(other)));
            assert_eq!(in_print(a.checked_sub(&b)), text(one.checked_sub(other)));
            assert_eq!(in_print(a.checked_mul(&b)), text(one.checked_mul(other)));
        }
    }
}

#[test]
fn rounding_half_to_even() {
    assert_eq!(Decimal::new(125, 2).round_dp(1).to_text(), "1.2");
    assert_eq!(Decimal::new(135, 2).round_dp(1).to_text(), "1.4");
    assert_eq!(Decimal::new(1251, 3).round_dp(1).to_text(), "1.3");
    assert_eq!(Decimal::new(-4, 2).round_dp(1).to_text(), "0.0");
    assert_eq!(Decimal::from_parts(0, 0, 0, true, 2).round_dp(1).to_text(), "-0.0");
    assert_eq!(Decimal::new(5, 0).round_dp(1).to_text(), "5");
}

#[test]
fn absolute_value_and_sign() {
    assert_eq!(Decimal::new(-25, 1).abs().to_text(), "2.5");
    assert_eq!(Decimal::new(25, 1).abs().to_text(), "2.5");
    assert!(Decimal::new(0, 0).is_sign_positive());
    assert!(!Decimal::from_parts(0, 0, 0, true, 0).is_sign_positive());
    assert_eq!(Decimal::new(i64::MIN, 28).abs().parts(), (0, 0x8000_0000, 0, false, 28));
}

#[test]
fn every_number_lies_in_range() {
    for number in samples() {
        assert!(!inside(number).is_less(&Decimal::min_value()));
        assert!(!Decimal::max_value().is_less(&inside(number)));
    }
}

#[test]
fn aligned_sums_are_exact() {
    let all = [0u64, 1, 0xffff_ffff, 0x1_0000_0000, u64::MAX - 1, u64::MAX];
    let number = |value: i128| {
        let size = value.unsigned_abs();
        Decimal::from_parts(size as u32, (size >> 32) as u32, (size >> 64) as u32, value < 0, 7)
    };
    for a in all {
        for b in all {
            for (a, b) in [(1, 1), (1, -1), (-1, 1), (-1, -1)].map(|(s, t): (i128, i128)| {
                (s * a as i128, t * b as i128)
            }) {
                assert_eq!(number(a).checked_add(&number(b)).unwrap(), number(a + b));
                assert_eq!(number(a).checked_sub(&number(b)).unwrap(), number(a - b));
                assert_eq!(number(a).checked_add(&number(b)).unwrap().parts().4, 7);
            }
        }
    }
}
