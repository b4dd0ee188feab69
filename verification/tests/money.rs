use shared_tree::amount::{Amount, LONGEST_COMPARED};
use shared_tree::currency::Currency;
use shared_tree::money::{Factories, Money};
use std::cmp::Ordering;

fn yen() -> Currency {
    Currency::new(392)
}

fn dollar() -> Currency {
    Currency::new(840)
}

fn yen_of(n: i64) -> Money {
    Money::of(n, yen())
}

/// `digits` with the decimal point moved `scale` places to the left.
fn decimal(digits: i64, scale: i64) -> Amount {
    let mut bytes = digits.to_le_bytes().to_vec();
    while bytes.len() > 1 {
        let last = bytes[bytes.len() - 1];
        let before = bytes[bytes.len() - 2];
        if (last == 0 && before < 128) || (last == 255 && before >= 128) {
            bytes.pop();
        } else {
            break;
        }
    }
    Amount::new(bytes, scale)
}

/// As `decimal`, for whole numbers that need more than eight bytes.
fn wide_decimal(digits: i128, scale: i64) -> Amount {
    Amount::new(digits.to_le_bytes().to_vec(), scale)
}

#[test]
fn equality_is_by_number_where_words_are_multiplied() {
    let whole: i128 = 1844674407 * ((1 << 32) + 1);
    let written_short = Money::of(wide_decimal(whole, 0), yen());
    let written_long = Money::of(wide_decimal(whole * 10_000_000_000, 10), yen());
    assert!(written_long == written_short);
    assert!(written_short == written_long);
    let other = Money::of(wide_decimal(whole * 10_000_000_000 + 1, 10), yen());
    assert!(other != written_short);
    assert!(written_short != other);
    let negative = Money::of(wide_decimal(-whole * 10_000_000_000, 10), yen());
    assert!(negative == Money::of(wide_decimal(-whole, 0), yen()));
    assert!(negative != written_short);
}

#[test]
fn equality_is_by_number_where_scales_are_far_apart() {
    let ten_to_25: i128 = 10_000_000_000_000_000_000_000_000;
    assert!(Money::of(wide_decimal(ten_to_25, 25), yen()) == yen_of(1));
    assert!(yen_of(1) == Money::of(wide_decimal(ten_to_25, 25), yen()));
    assert!(Money::of(wide_decimal(ten_to_25 + 1, 25), yen()) != yen_of(1));
    assert!(Money::of(wide_decimal(3 * ten_to_25, 25), yen()) == yen_of(3));
    assert!(Money::of(decimal(1, i64::MAX), yen()) != Money::of(decimal(1, i64::MIN), yen()));
    assert!(Money::of(decimal(0, i64::MAX), yen()) == Money::of(decimal(0, i64::MIN), yen()));
    assert!(Money::of(decimal(0, 7), yen()) != Money::of(decimal(1, 7), yen()));
    assert!(Money::of(decimal(-1, 7), yen()) != Money::of(decimal(1, 7), yen()));
}

#[test]
fn amounts_know_their_sign() {
    assert!(decimal(-1, 0).is_negative());
    assert!(decimal(-1125, 3).is_negative());
    assert!(!decimal(0, 0).is_negative());
    assert!(!decimal(128, 0).is_negative());
    assert!(!Amount::new(Vec::new(), 0).is_negative());
    assert!(Amount::new(vec![0, 0, 128], 0).is_negative());
}

#[test]
fn order_goes_by_the_scales_where_they_are_far_apart() {
    let small = Money::of(decimal(1, i64::MAX), yen());
    let large = Money::of(decimal(1, i64::MIN), yen());
    assert_eq!(small.partial_cmp(&large), Some(Ordering::Less));
    assert_eq!(large.partial_cmp(&small), Some(Ordering::Greater));
    let below = Money::of(decimal(-1, i64::MIN), yen());
    let above = Money::of(decimal(-1, i64::MAX), yen());
    assert_eq!(below.partial_cmp(&above), Some(Ordering::Less));
    assert_eq!(above.partial_cmp(&small), Some(Ordering::Less));
    assert_eq!(Money::zero(yen()).partial_cmp(&below), Some(Ordering::Greater));
}

#[test]
fn amounts_keep_their_bytes_and_scale() {
    let amount = Amount::new(vec![155, 251], 2);
    assert_eq!(amount.unscaled(), &[155, 251]);
    assert_eq!(amount.scale(), 2);
    assert_eq!(amount.clone().unscaled(), &[155, 251]);
    assert_eq!(decimal(-1125, 2).unscaled(), &[155, 251]);
    assert_eq!(decimal(0, 0).unscaled(), &[0]);
    assert_eq!(decimal(128, 0).unscaled(), &[128, 0]);
    assert_eq!(decimal(-128, 0).unscaled(), &[128]);
}

#[test]
fn one_and_zero() {
    assert_eq!(Money::one(yen()).amount().unscaled(), &[1]);
    assert_eq!(Money::one(yen()).amount().scale(), 0);
    assert_eq!(Money::zero(yen()).amount().unscaled(), &[0]);
    assert_eq!(Money::zero(yen()).amount().scale(), 0);
    assert_eq!(*Money::one(dollar()).currency(), dollar());
    assert!(Money::zero(yen()).is_zero());
    assert!(!Money::zero(yen()).is_non_zero());
    assert!(Money::one(yen()).is_non_zero());
    assert!(!Money::one(yen()).is_zero());
    assert!(Money::of(decimal(0, 5), yen()).is_zero());
}

#[test]
fn money_of_a_whole_number() {
    let money = yen_of(-1125);
    assert_eq!(money.amount().unscaled(), &[155, 251]);
    assert_eq!(money.amount().scale(), 0);
    assert_eq!(*money.currency(), yen());
    assert_eq!(yen_of(i64::MAX).amount().unscaled(), &i64::MAX.to_le_bytes());
    assert_eq!(yen_of(i64::MIN).amount().unscaled(), &i64::MIN.to_le_bytes());
}

#[test]
fn equality_is_by_currency_and_number() {
    assert!(yen_of(5) == yen_of(5));
    assert!(yen_of(5) != yen_of(6));
    assert!(yen_of(5) != Money::of(5i64, dollar()));
    assert!(Money::of(decimal(50, 1), yen()) == yen_of(5));
    assert!(Money::of(decimal(51, 1), yen()) != yen_of(5));
    assert!(yen_of(5).clone() == yen_of(5));
}

#[test]
fn negated_and_abs() {
    assert!(yen_of(5).negated() == yen_of(-5));
    assert!(yen_of(-5).negated() == yen_of(5));
    assert!(yen_of(0).negated() == yen_of(0));
    assert!(yen_of(1).negated() == yen_of(-1));
    assert!(yen_of(-7).abs() == yen_of(7));
    assert!(yen_of(7).abs() == yen_of(7));
    assert_eq!(Money::of(decimal(-125, 2), yen()).abs().amount().scale(), 2);
    assert_eq!(Money::of(decimal(-125, 2), yen()).abs().amount().unscaled(), &[125]);
    assert_eq!(*yen_of(5).negated().currency(), yen());
}

#[test]
fn sum_and_difference() {
    assert!(yen_of(3) + yen_of(4) == yen_of(7));
    assert!(yen_of(3) - yen_of(4) == yen_of(-1));
    assert!(yen_of(10) - yen_of(10) == Money::zero(yen()));
    let sum = Money::of(decimal(125, 2), yen()) + Money::of(decimal(5, 1), yen());
    assert!(sum == Money::of(decimal(175, 2), yen()));
    assert_eq!(sum.amount().scale(), 2);
    assert_eq!(sum.amount().unscaled(), &[175, 0]);
}

#[test]
fn product_and_remainder() {
    assert!(yen_of(6) * decimal(7, 0) == yen_of(42));
    assert!(yen_of(6) * decimal(15, 1) == yen_of(9));
    assert!(yen_of(6) * decimal(1, 0) == yen_of(6));
    assert!(yen_of(1) * decimal(-3, 0) == yen_of(-3));
    assert!(yen_of(17).rem(decimal(5, 0)) == yen_of(2));
    assert!(yen_of(-17).rem(decimal(5, 0)) == yen_of(-2));
    let halves = Money::of(decimal(75, 1), yen()).rem(decimal(2, 0));
    assert!(halves == Money::of(decimal(15, 1), yen()));
    assert_eq!(*(yen_of(6) * decimal(7, 0)).currency(), yen());
}

#[test]
fn results_are_written_at_the_expected_scale() {
    let product = yen_of(6) * decimal(15, 1);
    assert_eq!(product.amount().unscaled(), &[90]);
    assert_eq!(product.amount().scale(), 1);
    let by_one = Money::of(decimal(10, 1), yen()) * decimal(7, 3);
    assert_eq!(by_one.amount().unscaled(), &[7]);
    assert_eq!(by_one.amount().scale(), 3);
    let ten_to_38: i128 = 100_000_000_000_000_000_000_000_000_000_000_000_000;
    let by_long_one = Money::of(wide_decimal(ten_to_38, 38), yen()) * decimal(7, 3);
    assert_eq!(by_long_one.amount().unscaled(), &[7]);
    assert_eq!(by_long_one.amount().scale(), 3);
    let one_of_one = Money::of(decimal(10, 1), yen()).negated();
    assert_eq!(one_of_one.amount().unscaled(), &[255]);
    assert_eq!(one_of_one.amount().scale(), 0);
    let times_one = Money::of(decimal(7, 3), yen()) * decimal(1, 0);
    assert_eq!(times_one.amount().unscaled(), &[7]);
    assert_eq!(times_one.amount().scale(), 3);
    let negated = Money::of(decimal(125, 2), yen()).negated();
    assert_eq!(negated.amount().unscaled(), &[131]);
    assert_eq!(negated.amount().scale(), 2);
    let remainder = Money::of(decimal(-75, 1), yen()).rem(decimal(2, 0));
    assert_eq!(remainder.amount().unscaled(), &[241]);
    assert_eq!(remainder.amount().scale(), 1);
    let with_zero = Money::of(decimal(0, 3), yen()) + Money::of(decimal(5, 1), yen());
    assert_eq!(with_zero.amount().unscaled(), &[244, 1]);
    assert_eq!(with_zero.amount().scale(), 3);
    let difference = Money::of(decimal(5, 0), yen()) - Money::of(decimal(25, 1), yen());
    assert_eq!(difference.amount().unscaled(), &[25]);
    assert_eq!(difference.amount().scale(), 1);
}

/// `digits` written in more bytes than are compared across scales.
fn long_decimal(digits: i64, scale: i64) -> Amount {
    let fill = if digits < 0 { 255 } else { 0 };
    let mut bytes = digits.to_le_bytes().to_vec();
    bytes.resize(LONGEST_COMPARED + 1, fill);
    Amount::new(bytes, scale)
}

#[test]
fn a_long_number_equals_the_same_number_at_another_scale() {
    let one = Money::of(long_decimal(1, 0), yen());
    assert_eq!(one.amount().unscaled().len(), LONGEST_COMPARED + 1);
    assert!(one == Money::of(decimal(10, 1), yen()));
    assert!(Money::of(wide_decimal(10_000_000_000_000_000_000_000_000, 25), yen()) == one);
}

#[test]
fn a_long_number_differs_from_another_number_at_another_scale() {
    let one = Money::of(long_decimal(1, 0), yen());
    assert!(one != Money::of(decimal(11, 1), yen()));
    assert!(Money::of(wide_decimal(10_000_000_000_000_000_000_000_001, 25), yen()) != one);
}

#[test]
fn a_long_number_is_ordered_at_the_larger_scale() {
    let one = Money::of(long_decimal(1, 0), yen());
    assert_eq!(one.partial_cmp(&Money::of(decimal(10, 1), yen())), Some(Ordering::Equal));
    assert_eq!(one.partial_cmp(&Money::of(decimal(11, 1), yen())), Some(Ordering::Less));
    assert_eq!(Money::of(decimal(9, 1), yen()).partial_cmp(&one), Some(Ordering::Less));
}

#[test]
fn a_long_negative_number_is_compared_at_the_larger_scale() {
    let minus_one = Money::of(long_decimal(-1, 0), yen());
    assert!(minus_one == Money::of(decimal(-1000, 3), yen()));
    assert_eq!(minus_one.partial_cmp(&Money::of(decimal(-999, 3), yen())), Some(Ordering::Less));
}

#[test]
fn quotients_that_need_no_division() {
    let of_zero = Money::of(decimal(0, 3), yen()) / decimal(7, 1);
    assert_eq!(of_zero.amount().unscaled(), &[0]);
    assert_eq!(of_zero.amount().scale(), 3);
    let by_one = Money::of(decimal(75, 1), yen()) / decimal(10, 1);
    assert_eq!(by_one.amount().unscaled(), &[75]);
    assert_eq!(by_one.amount().scale(), 1);
    let by_itself = Money::of(decimal(75, 3), yen()) / decimal(75, 1);
    assert_eq!(by_itself.amount().unscaled(), &[1]);
    assert_eq!(by_itself.amount().scale(), 2);
    let by_its_opposite = Money::of(decimal(75, 3), yen()) / decimal(-75, 1);
    assert!(by_its_opposite == Money::of(decimal(-1, 2), yen()));
}

#[test]
fn quotient_keeps_the_currency() {
    let half = yen_of(1) / decimal(2, 0);
    assert_eq!(*half.currency(), yen());
    assert!(half == Money::of(decimal(5, 1), yen()));
    assert!(yen_of(42) / decimal(7, 0) == yen_of(6));
    assert!(yen_of(-9) / decimal(15, 1) == yen_of(-6));
    assert!(yen_of(0) / decimal(3, 0) == yen_of(0));
    let third = yen_of(1) / decimal(3, 0);
    assert!(third != yen_of(0));
    assert_eq!(third.partial_cmp(&Money::of(decimal(34, 2), yen())), Some(Ordering::Less));
    assert_eq!(third.partial_cmp(&Money::of(decimal(33, 2), yen())), Some(Ordering::Greater));
}

#[test]
fn order_is_by_number() {
    assert_eq!(yen_of(3).partial_cmp(&yen_of(4)), Some(Ordering::Less));
    assert_eq!(yen_of(4).partial_cmp(&yen_of(3)), Some(Ordering::Greater));
    assert_eq!(yen_of(4).partial_cmp(&yen_of(4)), Some(Ordering::Equal));
    assert_eq!(
        Money::of(decimal(40, 1), yen()).partial_cmp(&yen_of(4)),
        Some(Ordering::Equal)
    );
    assert_eq!(yen_of(-4).partial_cmp(&Money::of(decimal(-39, 1), yen())), Some(Ordering::Less));
}
