use financ::amount::DecimalAmount;
use financ::utils::DenominatedValue;

fn dec(mantissa: i128, scale: u32) -> DecimalAmount {
    DecimalAmount { mantissa, scale }
}

#[test]
fn amounts_of_one_value_are_equal_whatever_their_scale() {
    assert!(dec(1000, 2).is_equal(&dec(10, 0)));
    assert!(dec(10, 0).is_equal(&dec(1000, 2)));
    assert!(dec(-4250, 2).is_equal(&dec(-425, 1)));
    assert!(dec(0, 0).is_equal(&dec(0, 5)));
}

#[test]
fn amounts_that_differ_in_the_last_place_are_not_equal() {
    assert!(!dec(1000, 2).is_equal(&dec(10001, 3)));
    assert!(!dec(10001, 3).is_equal(&dec(1000, 2)));
    assert!(!dec(10, 0).is_equal(&dec(-10, 0)));
    assert!(!dec(1, 0).is_equal(&dec(1, 1)));
}

#[test]
fn amounts_far_apart_in_scale_are_compared_without_overflow() {
    assert!(!dec(1, 0).is_equal(&dec(1, 60)));
    assert!(!dec(i128::MAX, 0).is_equal(&dec(i128::MAX, 1)));
    assert!(dec(0, 0).is_equal(&dec(0, u32::MAX)));
    assert!(!dec(1, 0).is_equal(&dec(0, u32::MAX)));
}

#[test]
fn rescaled_widens_the_mantissa() {
    assert_eq!(dec(-425, 1).rescaled(3), Some(-42500));
    assert_eq!(dec(7, 0).rescaled(0), Some(7));
    assert_eq!(dec(7, 2).rescaled(1), None);
    assert_eq!(dec(1, 0).rescaled(39), None);
    assert_eq!(dec(0, 0).rescaled(4_000_000_000), Some(0));
}

#[test]
fn from_ratio_divides_exactly_where_it_can() {
    let q = DecimalAmount::from_ratio(-4250, 100).unwrap();
    assert!(q.is_equal(&dec(-4250, 2)));
    let half = DecimalAmount::from_ratio(1, 2).unwrap();
    assert!(half.is_equal(&dec(5, 1)));
    let whole = DecimalAmount::from_ratio(7, 1).unwrap();
    assert!(whole.is_equal(&dec(7, 0)));
}

#[test]
fn from_ratio_by_zero_is_none() {
    assert_eq!(DecimalAmount::from_ratio(1, 0), None);
    assert_eq!(DecimalAmount::from_ratio(0, 0), None);
}

#[test]
fn from_scientific_reads_an_exponent() {
    let a = DecimalAmount::from_scientific("4.25e1").unwrap();
    assert!(a.is_equal(&dec(425, 1)));
    let b = DecimalAmount::from_scientific("9.7e-7").unwrap();
    assert!(b.is_equal(&dec(97, 8)));
    assert_eq!(DecimalAmount::from_scientific("42.50"), None);
    assert_eq!(DecimalAmount::from_scientific("abc"), None);
}

#[test]
fn to_text_writes_every_decimal_place() {
    assert_eq!(dec(-4250, 2).to_text(), Some("-42.50".to_string()));
    assert_eq!(dec(42, 0).to_text(), Some("42".to_string()));
    assert_eq!(dec(5, 3).to_text(), Some("0.005".to_string()));
}

#[test]
fn to_text_of_what_the_decimal_library_cannot_hold_is_none() {
    assert_eq!(dec(1, 29).to_text(), None);
    assert_eq!(dec(i128::MAX, 0).to_text(), None);
}

#[test]
fn signs_of_amounts() {
    assert!(dec(-1, 2).is_sign_negative());
    assert!(!dec(-1, 2).is_sign_positive());
    assert!(dec(0, 2).is_sign_positive());
    assert!(!dec(0, 2).is_sign_negative());
    assert!(dec(0, 2).is_zero());
    assert!(!dec(1, 2).is_zero());
}

#[test]
fn from_i64_has_no_decimal_places() {
    assert_eq!(DecimalAmount::from_i64(-17), dec(-17, 0));
}

#[test]
fn checked_neg_changes_the_sign() {
    assert_eq!(dec(-4250, 2).checked_neg(), Some(dec(4250, 2)));
    assert_eq!(dec(0, 1).checked_neg(), Some(dec(0, 1)));
    assert_eq!(dec(i128::MIN, 0).checked_neg(), None);
}

#[test]
fn checked_sub_is_exact_at_the_larger_scale() {
    assert_eq!(dec(4250, 2).checked_sub(&dec(5, 1)), Some(dec(4200, 2)));
    assert_eq!(dec(1, 0).checked_sub(&dec(1, 3)), Some(dec(999, 3)));
    assert_eq!(dec(-1, 0).checked_sub(&dec(0, 0)), Some(dec(-1, 0)));
}

#[test]
fn checked_sub_that_does_not_fit_is_none() {
    assert_eq!(dec(i128::MAX, 0).checked_sub(&dec(-1, 0)), None);
    assert_eq!(dec(i128::MAX, 0).checked_sub(&dec(1, 1)), None);
    assert_eq!(dec(1, 1).checked_sub(&dec(i128::MIN, 0)), None);
}

#[test]
fn denominate_decimal_counts_whole_units() {
    assert_eq!(
        DenominatedValue::denominate_decimal(dec(-4250, 2), 100),
        Some(DenominatedValue::new(-4250, 100))
    );
    assert_eq!(
        DenominatedValue::denominate_decimal(dec(15, 1), 1000),
        Some(DenominatedValue { value: 1500, denom: 1000 })
    );
}

#[test]
fn denominate_decimal_rounds_a_half_to_the_even_neighbour() {
    let units = |m: i128, s: u32, d: i32| DenominatedValue::denominate_decimal(dec(m, s), d).unwrap().value;
    assert_eq!(units(125, 3, 100), 12);
    assert_eq!(units(135, 3, 100), 14);
    assert_eq!(units(-125, 3, 100), -12);
    assert_eq!(units(-135, 3, 100), -14);
    assert_eq!(units(5, 1, 1), 0);
    assert_eq!(units(15, 1, 1), 2);
    assert_eq!(units(25, 1, 1), 2);
    assert_eq!(units(-5, 1, 1), 0);
    assert_eq!(units(-15, 1, 1), -2);
}

#[test]
fn denominate_decimal_rounds_to_the_nearest_unit() {
    let units = |m: i128, s: u32, d: i32| DenominatedValue::denominate_decimal(dec(m, s), d).unwrap().value;
    assert_eq!(units(1249, 4, 100), 12);
    assert_eq!(units(1251, 4, 100), 13);
    assert_eq!(units(-1249, 4, 100), -12);
    assert_eq!(units(-1251, 4, 100), -13);
    assert_eq!(units(1, 3, 100), 0);
    assert_eq!(units(-1, 3, 100), 0);
}

#[test]
fn denominate_decimal_of_many_decimal_places_is_zero() {
    assert_eq!(
        DenominatedValue::denominate_decimal(dec(i128::MAX, 39), 1),
        Some(DenominatedValue { value: 0, denom: 1 })
    );
    assert_eq!(
        DenominatedValue::denominate_decimal(dec(i128::MIN, 4_000_000_000), 1),
        Some(DenominatedValue { value: 0, denom: 1 })
    );
    assert_eq!(
        DenominatedValue::denominate_decimal(dec(1, 38), 1),
        Some(DenominatedValue { value: 0, denom: 1 })
    );
}

#[test]
fn denominate_decimal_that_does_not_fit_is_none() {
    assert_eq!(DenominatedValue::denominate_decimal(dec(i128::MAX, 0), 2), None);
    assert_eq!(DenominatedValue::denominate_decimal(dec(i64::MAX as i128 + 1, 0), 1), None);
    assert_eq!(DenominatedValue::denominate_decimal(dec(i64::MIN as i128 - 1, 0), 1), None);
    assert_eq!(
        DenominatedValue::denominate_decimal(dec(i64::MAX as i128, 0), 1),
        Some(DenominatedValue { value: i64::MAX, denom: 1 })
    );
    assert_eq!(
        DenominatedValue::denominate_decimal(dec(i64::MIN as i128, 0), 1),
        Some(DenominatedValue { value: i64::MIN, denom: 1 })
    );
}

#[test]
fn checked_mul_round_with_a_negative_factor() {
    assert_eq!(dec(125, 3).checked_mul_round(-100), Some(-12));
    assert_eq!(dec(135, 3).checked_mul_round(-100), Some(-14));
    assert_eq!(dec(7, 0).checked_mul_round(0), Some(0));
}

#[test]
fn checked_add_is_exact_at_the_larger_scale() {
    assert_eq!(dec(4250, 2).checked_add(&dec(5, 1)), Some(dec(4300, 2)));
    assert_eq!(dec(-1, 0).checked_add(&dec(1, 3)), Some(dec(-999, 3)));
    assert_eq!(dec(i128::MAX, 0).checked_add(&dec(1, 0)), None);
    assert_eq!(dec(i128::MAX, 0).checked_add(&dec(0, 1)), None);
}

#[test]
fn an_amount_its_opposite_and_nothing_add_up_to_zero() {
    let amount = dec(-4250, 2);
    let fee = dec(5, 1);
    let counter = amount.checked_neg().unwrap().checked_sub(&fee).unwrap();
    let sum = amount.checked_add(&counter).unwrap().checked_add(&fee).unwrap();
    assert!(sum.is_zero());
}
