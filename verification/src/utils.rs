//! Dates as the ledger stores them, identifiers, and fixed-point values.

use crate::amount::DecimalAmount;
use crate::dates::{Date, DateTime};
use crate::text::{
    chars_of, lowercase_of, remove_char, text_view, to_lowercase, without_char,
};
use vstd::prelude::*;
use vstd::string::StringExecFns;

verus! {

/// What the `regex` crate captures in `text` with the regular expression
/// `pattern`: for the leftmost match the text of each group, the whole
/// match first, with `None` for a group that took no part. `None` where
/// nothing matches or the pattern is no regular expression.
pub uninterp spec fn regex_captures(pattern: Seq<char>, text: Seq<char>) -> Option<
    Seq<Option<Seq<char>>>,
>;

/// Compiles `pattern` with `regex::Regex::new`, calls `Regex::captures` on
/// `text` and copies the groups. Trusted: that what is captured depends on
/// the two strings alone.
#[verifier::external_body]
fn regex_first_captures(pattern: &str, text: &str) -> (r: Option<Vec<Option<String>>>)
    ensures
        match r {
            Some(groups) => regex_captures(pattern@, text@) == Some(groups.deep_view()),
            None => regex_captures(pattern@, text@) is None,
        },
{
    let re = regex::Regex::new(pattern).ok()?;
    let caps = re.captures(text)?;
    let mut groups: Vec<Option<String>> = Vec::new();
    for group in caps.iter() {
        groups.push(group.map(|m| m.as_str().to_owned()));
    }
    Some(groups)
}

/// The `chrono` format of a plain date: year, month and day with hyphens.
pub open spec fn date_format() -> Seq<char> {
    "%Y-%m-%d"@
}

/// The format in which the ledger writes a date and time.
pub open spec fn sqlite_date_format() -> Seq<char> {
    "%Y-%m-%d %H:%M:%S"@
}

/// The older format of the ledger: fourteen digits without separators.
pub open spec fn compact_date_format() -> Seq<char> {
    "%Y%m%d%H%M%S"@
}

/// The date that `date_string` holds in the form `2024-01-10`, if it holds one.
pub fn to_date(date_string: Option<String>) -> (r: Option<Date>)
    ensures
        r == match date_string {
            Some(text) => Date::spec_parse(text@, date_format()),
            None => None,
        },
{
    match date_string {
        Some(text) => Date::parse_from_str(text.as_str(), "%Y-%m-%d"),
        None => None,
    }
}

/// What [`to_string`] writes.
pub open spec fn spec_to_string(date: Option<Date>) -> Seq<char> {
    match date {
        Some(d) => match crate::dates::formatted_day_number(d.days, date_format()) {
            Some(text) => text,
            None => Seq::empty(),
        },
        None => Seq::empty(),
    }
}

/// The date in the form `2024-01-10`; empty for no date, and for a day that
/// the calendar cannot name.
pub fn to_string(date: Option<Date>) -> (r: String)
    ensures
        r@ == spec_to_string(date),
{
    match date {
        Some(d) => match d.format("%Y-%m-%d") {
            Some(text) => text,
            None => String::new(),
        },
        None => String::new(),
    }
}

/// What [`parse_sqlite_date`] reads from one string: the compact form is
/// tried first, then the form with separators.
pub open spec fn spec_parse_sqlite_text(text: Seq<char>) -> Option<DateTime> {
    match DateTime::spec_parse(text, compact_date_format()) {
        Some(t) => Some(t),
        None => DateTime::spec_parse(text, sqlite_date_format()),
    }
}

/// The day and time that a date column of the ledger holds, in either of the
/// two forms `20161020203213` and `2016-10-20 20:32:13`.
pub fn parse_sqlite_date(value: &Option<String>) -> (r: Option<DateTime>)
    ensures
        r == match *value {
            Some(text) => spec_parse_sqlite_text(text@),
            None => None,
        },
{
    match value {
        Some(text) => parse_date_2_format(text.as_str()),
        None => None,
    }
}

fn parse_date_2_format(value: &str) -> (r: Option<DateTime>)
    ensures
        r == spec_parse_sqlite_text(value@),
{
    match DateTime::parse_from_str(value, "%Y%m%d%H%M%S") {
        Some(t) => Some(t),
        None => DateTime::parse_from_str(value, "%Y-%m-%d %H:%M:%S"),
    }
}

/// What [`format_sqlite_date`] writes.
pub open spec fn spec_format_sqlite_date(t: DateTime) -> Seq<char> {
    match t.spec_format(sqlite_date_format()) {
        Some(text) => text,
        None => Seq::empty(),
    }
}

/// The day and time in the form `2016-10-20 20:32:13`; empty for one that
/// the calendar cannot name.
pub fn format_sqlite_date(ndt: &DateTime) -> (r: String)
    ensures
        r@ == spec_format_sqlite_date(*ndt),
{
    match ndt.format("%Y-%m-%d %H:%M:%S") {
        Some(text) => text,
        None => String::new(),
    }
}

/// The regular expression of a date in a description: four digits, two
/// digits and two digits with a full stop between them.
pub open spec fn dotted_date_pattern() -> Seq<char> {
    "(\\d{4})\\.(\\d{2})\\.(\\d{2})"@
}

/// The number that the decimal digits `0` to `9` in `digits` write.
pub open spec fn digits_number(digits: Seq<char>) -> int
    decreases digits.len(),
{
    if digits.len() == 0 {
        0
    } else {
        10 * digits_number(digits.drop_last()) + (digits.last() as int - '0' as int)
    }
}

/// Whether `digits` is made of the digits `0` to `9` and of nothing else.
pub open spec fn all_digits(digits: Seq<char>) -> bool {
    forall|i: int| 0 <= i < digits.len() ==> '0' <= #[trigger] digits[i] <= '9'
}

/// What [`parse_number`] reads.
pub open spec fn spec_parse_number(digits: Seq<char>) -> Option<u32> {
    if digits.len() > 0 && all_digits(digits) && digits_number(digits) <= u32::MAX {
        Some(digits_number(digits) as u32)
    } else {
        None
    }
}

proof fn lemma_digits_number_grows(digits: Seq<char>, n: int)
    requires
        all_digits(digits),
        0 <= n <= digits.len(),
    ensures
        0 <= digits_number(digits.take(n)) <= digits_number(digits),
    decreases digits.len() - n,
{
    if n < digits.len() {
        lemma_digits_number_grows(digits, n + 1);
        let longer = digits.take(n + 1);
        assert(longer.drop_last() == digits.take(n));
        assert(longer.last() == digits[n]);
        lemma_digits_number_nonnegative(digits.take(n));
    } else {
        assert(digits.take(n) == digits);
        lemma_digits_number_nonnegative(digits);
    }
}

proof fn lemma_digits_number_nonnegative(digits: Seq<char>)
    requires
        all_digits(digits),
    ensures
        0 <= digits_number(digits),
    decreases digits.len(),
{
    if digits.len() > 0 {
        let shorter = digits.drop_last();
        assert forall|i: int| 0 <= i < shorter.len() implies '0' <= #[trigger] shorter[i] <= '9' by {
            assert(shorter[i] == digits[i]);
        }
        lemma_digits_number_nonnegative(shorter);
    }
}

/// The number written in `text` with the digits `0` to `9`; `None` for an
/// empty text, for any other character, and for a number beyond `u32`.
pub fn parse_number(text: &str) -> (r: Option<u32>)
    ensures
        r == spec_parse_number(text@),
{
    let digits = chars_of(text);
    if digits.len() == 0 {
        return None;
    }
    let mut value: u32 = 0;
    let mut i: usize = 0;
    while i < digits.len()
        invariant
            i <= digits.len(),
            digits@ == text@,
            all_digits(digits@.take(i as int)),
            value == digits_number(digits@.take(i as int)),
        decreases digits.len() - i,
    {
        let c = digits[i];
        let ghost longer = digits@.take(i + 1);
        proof {
            assert(longer.drop_last() == digits@.take(i as int));
            assert(longer.last() == c);
        }
        if c < '0' || c > '9' {
            assert(!all_digits(digits@)) by {
                assert(digits@[i as int] == c);
            }
            return None;
        }
        assert(all_digits(longer)) by {
            assert forall|k: int| 0 <= k < longer.len() implies '0' <= #[trigger] longer[k]
                <= '9' by {
                if k < i {
                    assert(longer[k] == digits@.take(i as int)[k]);
                }
            }
        }
        let digit: u32 = (c as u32) - ('0' as u32);
        let next = match value.checked_mul(10) {
            Some(tens) => tens.checked_add(digit),
            None => None,
        };
        match next {
            Some(v) => {
                value = v;
            },
            None => {
                proof {
                    assert(digits_number(longer) > u32::MAX);
                    if all_digits(digits@) {
                        lemma_digits_number_grows(digits@, i + 1);
                    }
                }
                return None;
            },
        }
        i = i + 1;
    }
    proof {
        assert(digits@.take(i as int) == digits@);
    }
    Some(value)
}

/// The date that three captured strings of digits name: year, month and day.
pub open spec fn spec_date_from_parts(year: Seq<char>, month: Seq<char>, day: Seq<char>) -> Option<
    Date,
> {
    match (spec_parse_number(year), spec_parse_number(month), spec_parse_number(day)) {
        (Some(y), Some(m), Some(d)) => if y <= i32::MAX {
            Date::spec_from_ymd(y as i32, m, d)
        } else {
            None
        },
        _ => None,
    }
}

/// The date that the groups of a match of the date pattern name: the
/// groups behind the whole match are year, month and day.
pub open spec fn spec_date_from_captures(groups: Seq<Option<Seq<char>>>) -> Option<Date> {
    if groups.len() == 4 {
        match (groups[1], groups[2], groups[3]) {
            (Some(year), Some(month), Some(day)) => spec_date_from_parts(year, month, day),
            _ => None,
        }
    } else {
        None
    }
}

/// The date that the captured groups name, if they are the whole match and
/// three groups of digits that are year, month and day of a date.
pub fn date_from_captures(groups: &Vec<Option<String>>) -> (r: Option<Date>)
    ensures
        r == spec_date_from_captures(groups.deep_view()),
{
    if groups.len() != 4 {
        return None;
    }
    assert(groups.deep_view()[1] == groups@[1].deep_view());
    assert(groups.deep_view()[2] == groups@[2].deep_view());
    assert(groups.deep_view()[3] == groups@[3].deep_view());
    match (&groups[1], &groups[2], &groups[3]) {
        (Some(year), Some(month), Some(day)) => {
            let y = parse_number(year.as_str());
            let m = parse_number(month.as_str());
            let d = parse_number(day.as_str());
            match (y, m, d) {
                (Some(y), Some(m), Some(d)) => {
                    if y <= 0x7fff_ffff {
                        Date::from_ymd_opt(y as i32, m, d)
                    } else {
                        None
                    }
                },
                _ => None,
            }
        },
        _ => None,
    }
}

/// What [`extract_date`] finds in a text.
pub open spec fn spec_extract_date(text: Option<Seq<char>>) -> Option<Date> {
    match text {
        Some(text) => match regex_captures(dotted_date_pattern(), text) {
            Some(groups) => spec_date_from_captures(groups),
            None => None,
        },
        None => None,
    }
}

/// The first date written in `string` in the form `2016.10.20`, if the
/// calendar has that day.
pub fn extract_date(string: &Option<String>) -> (r: Option<Date>)
    ensures
        r == spec_extract_date(text_view(*string)),
{
    match string {
        Some(text) => match regex_first_captures("(\\d{4})\\.(\\d{2})\\.(\\d{2})", text.as_str()) {
            Some(groups) => date_from_captures(&groups),
            None => None,
        },
        None => None,
    }
}

/// What [`format_guid`] makes of an identifier: lower case, hyphens removed.
pub open spec fn spec_format_guid(guid: Seq<char>) -> Seq<char> {
    without_char(lowercase_of(guid), '-')
}

/// The identifier in the ledger's form: lower case and without hyphens.
pub fn format_guid(guid: &str) -> (r: String)
    ensures
        r@ == spec_format_guid(guid@),
{
    let lower = to_lowercase(guid);
    remove_char(lower.as_str(), '-')
}

/// The string in `opt`, or the empty string.
pub fn get_value_or_empty(opt: &Option<String>) -> (r: &str)
    ensures
        r@ == match *opt {
            Some(x) => x@,
            None => Seq::<char>::empty(),
        },
{
    match opt {
        Some(x) => x.as_str(),
        None => {
            proof {
                reveal_strlit("");
            }
            assert(""@.len() == 0);
            assert(""@ =~= Seq::<char>::empty());
            ""
        },
    }
}

/// The pattern by which the ledger is asked for a column that holds
/// `text` anywhere: the text between two percent signs.
pub fn like_pattern(text: &str) -> (r: String)
    ensures
        r@ == "%"@ + text@ + "%"@,
{
    let mut out = String::new();
    out.append("%");
    out.append(text);
    out.append("%");
    assert(out@ =~= "%"@ + text@ + "%"@);
    out
}

/// A value as the ledger stores it: a whole number of units of `1 / denom`.
#[derive(Clone, Copy, Debug, PartialEq, Eq, Structural)]
pub struct DenominatedValue {
    pub value: i64,
    pub denom: i64,
}

impl DenominatedValue {
    pub fn new(value: i64, denom: i64) -> (r: Self)
        ensures
            r == (DenominatedValue { value, denom }),
    {
        Self { value, denom }
    }

    /// The amount `value` in units of `1 / denom`, rounded to the nearest
    /// unit and a half to the even neighbour. There is none where the
    /// product of the amount's mantissa and `denom` leaves `i128`, or the
    /// number of units leaves `i64`.
    pub fn denominate_decimal(value: DecimalAmount, denom: i32) -> (r: Option<Self>)
        ensures
            r is Some <==> (i128::MIN <= value.mantissa * denom <= i128::MAX && i64::MIN
                <= value.times_rounded(denom as int) <= i64::MAX),
            r matches Some(d) ==> d.value == value.times_rounded(denom as int) && d.denom == denom,
    {
        match value.checked_mul_round(denom) {
            Some(units) => Some(Self { value: units, denom: denom as i64 }),
            None => None,
        }
    }
}

} // verus!
