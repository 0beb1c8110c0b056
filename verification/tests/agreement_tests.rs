use chrono::{Datelike, Duration, NaiveDate, Timelike};
use rust_decimal::prelude::ToPrimitive;
use rust_decimal::Decimal;

use financ::amount::DecimalAmount;
use financ::dates::{Date, DateTime};
use financ::text::{cleanup_string, int_to_text, replace_pairs};
use financ::utils::{parse_number, DenominatedValue};

fn dec(mantissa: i128, scale: u32) -> DecimalAmount {
    DecimalAmount { mantissa, scale }
}

fn decimal(a: DecimalAmount) -> Decimal {
    Decimal::from_i128_with_scale(a.mantissa, a.scale)
}

fn samples() -> Vec<DecimalAmount> {
    let mut out = Vec::new();
    for mantissa in [
        0i128, 1, -1, 5, -5, 10, 15, -15, 25, 125, -125, 135, 1249, 1251, -1251, 4250, -4250, 9999,
        10000, 10001, 123456789, -987654321, 500, 1500, 2500, -2500, 49, 50, 51, -49, -50, -51,
    ] {
        for scale in [0u32, 1, 2, 3, 4, 7] {
            out.push(dec(mantissa, scale));
        }
    }
    out
}

#[test]
fn equality_is_that_of_the_decimal_library() {
    for a in samples() {
        for b in samples() {
            assert_eq!(a.is_equal(&b), decimal(a) == decimal(b), "{:?} {:?}", a, b);
            assert_eq!(a.is_equal(&b), decimal(a).normalize() == decimal(b), "{:?} {:?}", a, b);
        }
    }
}

#[test]
fn differences_and_sums_are_those_of_the_decimal_library() {
    for a in samples() {
        for b in samples() {
            let difference = a.checked_sub(&b).expect("fits");
            assert_eq!(decimal(difference), decimal(a) - decimal(b), "{:?} {:?}", a, b);
            let sum = a.checked_add(&b).expect("fits");
            assert_eq!(decimal(sum), decimal(a) + decimal(b), "{:?} {:?}", a, b);
        }
        assert_eq!(decimal(a.checked_neg().expect("fits")), -decimal(a));
    }
}

#[test]
fn denominating_is_multiplying_and_rounding_in_the_decimal_library() {
    for a in samples() {
        for denom in [1i32, 2, 3, 10, 100, 1000, 10000, 7, -100] {
            let expected = (decimal(a) * Decimal::from(denom)).round().to_i64();
            let got = DenominatedValue::denominate_decimal(a, denom).map(|d| d.value);
            assert_eq!(got, expected, "{:?} {}", a, denom);
        }
    }
}

#[test]
fn signs_are_those_of_the_decimal_library_but_for_zero() {
    for a in samples() {
        if a.mantissa != 0 {
            assert_eq!(a.is_sign_negative(), decimal(a).is_sign_negative());
            assert_eq!(a.is_sign_positive(), decimal(a).is_sign_positive());
        }
        assert_eq!(a.is_zero(), decimal(a).is_zero());
    }
}

#[test]
fn moving_a_date_is_adding_days_in_chrono() {
    for (y, m, d) in [(2024, 1, 10), (2023, 12, 31), (2024, 2, 28), (2024, 2, 29), (1999, 3, 1), (1, 1, 1)] {
        let ours = Date::from_ymd_opt(y, m, d).unwrap();
        let theirs = NaiveDate::from_ymd_opt(y, m, d).unwrap();
        assert_eq!(ours.days, theirs.num_days_from_ce());
        for delta in -400i64..=400 {
            let moved = theirs.checked_add_signed(Duration::days(delta)).unwrap();
            assert_eq!(
                ours.checked_add_days(delta),
                Some(Date { days: moved.num_days_from_ce() }),
                "{}-{}-{} {}",
                y,
                m,
                d,
                delta
            );
            assert_eq!(ours.checked_add_days(delta), Date::from_ymd_opt(moved.year(), moved.month(), moved.day()));
        }
    }
}

#[test]
fn a_time_of_day_is_that_of_chrono() {
    let ours = Date::from_ymd_opt(2024, 1, 10).unwrap();
    let theirs = NaiveDate::from_ymd_opt(2024, 1, 10).unwrap();
    for hour in [0u32, 1, 12, 23, 24, 25] {
        for min in [0u32, 1, 30, 59, 60] {
            for sec in [0u32, 1, 59, 60, 61] {
                let expected = theirs.and_hms_opt(hour, min, sec).map(|t| DateTime {
                    date: ours,
                    seconds: t.time().num_seconds_from_midnight(),
                    nanos: t.time().nanosecond(),
                });
                assert_eq!(ours.and_hms_opt(hour, min, sec), expected);
            }
        }
    }
}

#[test]
fn whole_numbers_are_written_as_the_standard_library_writes_them() {
    for n in [0i64, 1, -1, 9, 10, 11, 99, 100, 101, -100, 12345, i64::MAX, i64::MIN, i64::MIN + 1] {
        assert_eq!(int_to_text(n), n.to_string());
    }
    for n in -1000i64..1000 {
        assert_eq!(int_to_text(n), n.to_string());
    }
}

#[test]
fn digits_are_read_as_the_standard_library_reads_them() {
    for text in ["0", "7", "42", "007", "2016", "4294967295", "4294967296", "", "x", "1x", "١٢"] {
        assert_eq!(parse_number(text), text.parse::<u32>().ok(), "{}", text);
    }
}

#[test]
fn pairs_are_replaced_as_the_standard_library_replaces_them() {
    for text in ["", "a", "a'", "'a", "a'a'", "aa''", "a''a'", "xa'ya'z", "''", "a:a'"] {
        assert_eq!(replace_pairs(text, 'a', '\'', '\u{e1}'), text.replace("a'", "\u{e1}"), "{}", text);
    }
    assert_eq!(replace_pairs("aaa", 'a', 'a', 'b'), "aaa".replace("aa", "b"));
    assert_eq!(replace_pairs("aaaa", 'a', 'a', 'b'), "aaaa".replace("aa", "b"));
}

#[test]
fn names_are_cleaned_as_by_replacing_one_pair_after_the_other() {
    let by_std = |input: &str| -> String {
        let casefix = if input.to_uppercase() == input { input.to_lowercase() } else { input.to_owned() };
        casefix
            .replace("A'", "\u{c1}")
            .replace("I'", "\u{cd}")
            .replace("E'", "\u{c9}")
            .replace("O'", "\u{d3}")
            .replace("U'", "\u{da}")
            .replace("U:", "\u{dc}")
            .replace("O:", "\u{d6}")
            .replace("a'", "\u{e1}")
            .replace("i'", "\u{ed}")
            .replace("e'", "\u{e9}")
            .replace("o'", "\u{f3}")
            .replace("u'", "\u{fa}")
            .replace("u:", "\u{fc}")
            .replace("o:", "\u{f6}")
    };
    for text in ["", "KOVA'CS JA'NOS", "Ko:ru:t", "O'ra", "a''", "U:U'", "NAGY E'VA", "plain", "MiXeD A'"] {
        assert_eq!(cleanup_string(text), by_std(text), "{}", text);
    }
}
