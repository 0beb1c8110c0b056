use financ::amount::DecimalAmount;
use financ::dates::{Date, DateTime};
use financ::external_models::{pick_sheet_name, ExternalTransaction, Matching};
use financ::formats::{create_format, SheetFormat};
use financ::sheets::{
    cell_to_date, cell_to_date_raw, cell_to_datetime, cell_to_decimal, cell_to_english_date,
    cell_to_german_date, cell_to_iso_date, cell_to_string, Cell,
};
use financ::text::{cleanup_string, int_to_text, remove_char, replace_pairs};

fn dec(mantissa: i128, scale: u32) -> DecimalAmount {
    DecimalAmount { mantissa, scale }
}

fn day(year: i32, month: u32, day: u32) -> Option<Date> {
    Some(Date::from_ymd_opt(year, month, day).expect("a day of the calendar"))
}

fn text(s: &str) -> Cell {
    Cell::Text(s.to_string())
}

fn float(mantissa: i128, scale: u32) -> Cell {
    Cell::Float(Some(dec(mantissa, scale)))
}

fn some(s: &str) -> Option<String> {
    Some(s.to_string())
}

fn empty_row(width: usize) -> Vec<Cell> {
    (0..width).map(|_| Cell::Empty).collect()
}

fn row_with(width: usize, cells: Vec<(usize, Cell)>) -> Vec<Cell> {
    let mut row = empty_row(width);
    for (at, cell) in cells {
        row[at] = cell;
    }
    row
}

#[test]
fn create_format_knows_the_six_layouts() {
    assert_eq!(create_format(&some("otp")), Some(SheetFormat::Otp));
    assert_eq!(create_format(&some("otp2020")), Some(SheetFormat::Otp2020));
    assert_eq!(create_format(&some("granit")), Some(SheetFormat::Granit));
    assert_eq!(create_format(&some("bankaustria")), Some(SheetFormat::BankAustria));
    assert_eq!(create_format(&some("transferwise")), Some(SheetFormat::Transferwise));
    assert_eq!(create_format(&some("magnet")), Some(SheetFormat::Magnet));
}

#[test]
fn create_format_does_not_mind_the_case() {
    assert_eq!(create_format(&some("OTP")), Some(SheetFormat::Otp));
    assert_eq!(create_format(&some("BankAustria")), Some(SheetFormat::BankAustria));
    assert_eq!(create_format(&some("TransferWise")), Some(SheetFormat::Transferwise));
}

#[test]
fn create_format_without_a_name_is_the_first_layout() {
    assert_eq!(create_format(&None), Some(SheetFormat::Otp));
}

#[test]
fn create_format_of_an_unknown_name_is_none() {
    assert_eq!(create_format(&some("revolut")), None);
    assert_eq!(create_format(&some("")), None);
    assert_eq!(create_format(&some("otp ")), None);
}

#[test]
fn cells_as_dates() {
    assert_eq!(cell_to_date(&text("2016.10.20.")), day(2016, 10, 20));
    assert_eq!(cell_to_iso_date(&text("2016-10-20")), day(2016, 10, 20));
    assert_eq!(cell_to_german_date(&text("20.10.2016")), day(2016, 10, 20));
    assert_eq!(cell_to_english_date(&text("20-10-2016")), day(2016, 10, 20));
    assert_eq!(cell_to_date_raw(&text("2016/10/20"), "%Y/%m/%d"), day(2016, 10, 20));
    assert_eq!(cell_to_date(&text("2016-10-20")), None);
    assert_eq!(cell_to_date(&Cell::Int(42)), None);
    assert_eq!(cell_to_date(&Cell::Empty), None);
}

#[test]
fn an_iso_cell_is_a_date_under_every_format() {
    let cell = Cell::DateTimeIso("2016-10-20".to_string());
    assert_eq!(cell_to_date(&cell), day(2016, 10, 20));
    assert_eq!(cell_to_german_date(&cell), day(2016, 10, 20));
    assert_eq!(cell_to_german_date(&Cell::DateTimeIso("20.10.2016".to_string())), None);
}

#[test]
fn cells_as_day_and_time() {
    let d = Date::from_ymd_opt(2016, 10, 20).unwrap();
    assert_eq!(
        cell_to_datetime(&text("2016.10.20. 20:32:13")),
        Some(DateTime { date: d, seconds: 20 * 3600 + 32 * 60 + 13, nanos: 0 })
    );
    assert_eq!(cell_to_datetime(&text("2016.10.20.")), None);
    assert_eq!(cell_to_datetime(&Cell::DateTimeIso("2016.10.20. 20:32:13".to_string())), None);
}

#[test]
fn cells_as_text() {
    assert_eq!(cell_to_string(&text("abc")), some("abc"));
    assert_eq!(cell_to_string(&text("")), None);
    assert_eq!(cell_to_string(&Cell::Int(1)), None);
    assert_eq!(cell_to_string(&Cell::DateTimeIso("2016-10-20".to_string())), None);
}

#[test]
fn cells_as_amounts() {
    assert_eq!(cell_to_decimal(&float(-4250, 2)), Some(dec(-4250, 2)));
    assert_eq!(cell_to_decimal(&Cell::Float(None)), None);
    assert_eq!(cell_to_decimal(&Cell::Int(-17)), Some(dec(-17, 0)));
    assert!(cell_to_decimal(&text("4.25e1")).unwrap().is_equal(&dec(425, 1)));
    assert_eq!(cell_to_decimal(&text("42.50")), None);
    assert_eq!(cell_to_decimal(&Cell::Bool(true)), None);
    assert_eq!(cell_to_decimal(&Cell::Empty), None);
}

#[test]
fn kinds_of_cells() {
    assert!(float(1, 0).is_float());
    assert!(Cell::Float(None).is_float());
    assert!(!Cell::Int(1).is_float());
    assert!(Cell::Empty.is_empty());
    assert!(!text("").is_empty());
}

#[test]
fn a_row_of_otp() {
    let row = row_with(
        9,
        vec![
            (0, text("x")),
            (1, text("card")),
            (2, text("2016.10.22.")),
            (3, text("2016.10.23.")),
            (4, float(-4250, 2)),
            (6, text("117-42")),
            (7, text("Shop")),
            (8, text("XYZ. PD.  2016.10.20 4488620465")),
        ],
    );
    assert!(SheetFormat::Otp.can_parse_row(&row));
    assert!(SheetFormat::Otp.holds_transaction(&row));
    assert_eq!(
        SheetFormat::Otp.parse_row(&row),
        ExternalTransaction {
            date: day(2016, 10, 22),
            booking_date: day(2016, 10, 23),
            amount: Some(dec(-4250, 2)),
            category: some("card"),
            description: some("XYZ. PD.  2016.10.20 4488620465"),
            other_account: some("117-42"),
            other_account_name: some("Shop"),
            textual_date: day(2016, 10, 20),
            transaction_fee: None,
        }
    );
    let parsed = SheetFormat::Otp.parse_row(&row);
    assert_eq!(parsed.get_matching_date(Matching::BySpending), day(2016, 10, 20));
}

#[test]
fn a_row_of_otp2020() {
    let row = row_with(
        8,
        vec![
            (0, Cell::Int(1)),
            (1, text("card")),
            (2, text("2020.03.04. 10:11:12")),
            (3, text("2020.03.05.")),
            (4, Cell::Int(-500)),
            (5, text("117-42")),
            (6, text("Shop")),
            (7, text("bought")),
        ],
    );
    assert_eq!(
        SheetFormat::Otp2020.parse_row(&row),
        ExternalTransaction {
            date: day(2020, 3, 4),
            booking_date: day(2020, 3, 5),
            amount: Some(dec(-500, 0)),
            category: some("card"),
            description: some("bought"),
            other_account: some("117-42"),
            other_account_name: some("Shop"),
            textual_date: None,
            transaction_fee: None,
        }
    );
}

#[test]
fn a_row_of_granit() {
    let row = row_with(
        12,
        vec![
            (1, float(1500, 0)),
            (4, text("2021-05-06")),
            (6, text("transfer")),
            (9, text("KOVA'CS JA'NOS")),
            (8, text("117-42")),
            (11, text("rent")),
        ],
    );
    assert_eq!(
        SheetFormat::Granit.parse_row(&row),
        ExternalTransaction {
            date: day(2021, 5, 6),
            booking_date: None,
            amount: Some(dec(1500, 0)),
            category: some("transfer"),
            description: some("kov\u{e1}cs j\u{e1}nos rent"),
            other_account: some("117-42"),
            other_account_name: some("kov\u{e1}cs j\u{e1}nos"),
            textual_date: None,
            transaction_fee: None,
        }
    );
}

#[test]
fn a_row_of_granit_takes_the_first_name_that_is_there() {
    let row = row_with(
        12,
        vec![(1, float(1, 0)), (7, text("First")), (9, text("Second"))],
    );
    let parsed = SheetFormat::Granit.parse_row(&row);
    assert_eq!(parsed.other_account_name, some("First"));
    assert_eq!(parsed.description, some("First"));
}

#[test]
fn a_row_of_bank_austria_takes_the_account_by_the_sign() {
    let spent = row_with(
        13,
        vec![
            (1, text("06.05.2021")),
            (3, text("  groceries \t")),
            (6, float(-4250, 2)),
            (9, text("payer")),
            (12, text("payee")),
        ],
    );
    assert_eq!(
        SheetFormat::BankAustria.parse_row(&spent),
        ExternalTransaction {
            date: day(2021, 5, 6),
            booking_date: day(2021, 5, 6),
            amount: Some(dec(-4250, 2)),
            category: None,
            description: some("groceries"),
            other_account: some("payee"),
            other_account_name: None,
            textual_date: None,
            transaction_fee: None,
        }
    );
    let got = row_with(
        10,
        vec![(1, text("06.05.2021")), (6, float(4250, 2)), (9, text("payer"))],
    );
    assert!(SheetFormat::BankAustria.can_parse_row(&got));
    assert_eq!(SheetFormat::BankAustria.parse_row(&got).other_account, some("payer"));
}

#[test]
fn a_row_of_transferwise_keeps_a_fee_that_is_not_negative() {
    let row = row_with(
        15,
        vec![
            (1, text("06-05-2021")),
            (2, float(-1000, 2)),
            (4, text(" card payment ")),
            (11, text("payee")),
            (12, text("IBAN")),
            (14, float(25, 2)),
        ],
    );
    assert_eq!(
        SheetFormat::Transferwise.parse_row(&row),
        ExternalTransaction {
            date: day(2021, 5, 6),
            booking_date: None,
            amount: Some(dec(-1000, 2)),
            category: None,
            description: some("card payment"),
            other_account: some("IBAN"),
            other_account_name: some("payee"),
            textual_date: None,
            transaction_fee: Some(dec(25, 2)),
        }
    );
    let negative = row_with(15, vec![(2, float(1, 0)), (13, text("merchant")), (14, float(-25, 2))]);
    let parsed = SheetFormat::Transferwise.parse_row(&negative);
    assert_eq!(parsed.transaction_fee, None);
    assert_eq!(parsed.other_account_name, some("merchant"));
    let zero = row_with(15, vec![(2, float(1, 0)), (14, float(0, 2))]);
    assert_eq!(SheetFormat::Transferwise.parse_row(&zero).transaction_fee, Some(dec(0, 2)));
}

#[test]
fn a_row_of_magnet() {
    let row = row_with(
        7,
        vec![
            (1, text("2021.05.06.")),
            (2, text("2021.05.07.")),
            (3, text("Shop")),
            (4, text("117-42")),
            (5, text("bought")),
            (6, float(-300, 0)),
        ],
    );
    assert_eq!(
        SheetFormat::Magnet.parse_row(&row),
        ExternalTransaction {
            date: day(2021, 5, 6),
            booking_date: day(2021, 5, 7),
            amount: Some(dec(-300, 0)),
            category: None,
            description: some("Shop bought"),
            other_account: some("117-42"),
            other_account_name: some("Shop"),
            textual_date: None,
            transaction_fee: None,
        }
    );
}

#[test]
fn a_sheet_of_otp_leaves_out_rows_that_begin_empty() {
    let rows = vec![
        row_with(9, vec![(0, text("a")), (4, Cell::Int(1))]),
        empty_row(9),
        row_with(9, vec![(0, text("b")), (4, Cell::Int(2))]),
        vec![Cell::Empty],
    ];
    assert!(SheetFormat::Otp.can_parse_sheet(&rows));
    let parsed = SheetFormat::Otp.parse_sheet(&rows);
    assert_eq!(parsed.len(), 2);
    assert_eq!(parsed[0].amount, Some(dec(1, 0)));
    assert_eq!(parsed[1].amount, Some(dec(2, 0)));
}

#[test]
fn a_sheet_of_magnet_leaves_out_the_heading() {
    let rows = vec![
        vec![text("heading")],
        row_with(7, vec![(6, float(1, 0))]),
        row_with(7, vec![(6, text("not a number"))]),
        row_with(7, vec![(6, float(2, 0))]),
    ];
    assert!(SheetFormat::Magnet.can_parse_sheet(&rows));
    let parsed = SheetFormat::Magnet.parse_sheet(&rows);
    assert_eq!(parsed.len(), 2);
    assert_eq!(parsed[0].amount, Some(dec(1, 0)));
    assert_eq!(parsed[1].amount, Some(dec(2, 0)));
}

#[test]
fn a_heading_that_looks_like_a_row_is_still_left_out() {
    let rows = vec![row_with(7, vec![(6, float(9, 0))]), row_with(7, vec![(6, float(1, 0))])];
    let parsed = SheetFormat::Magnet.parse_sheet(&rows);
    assert_eq!(parsed.len(), 1);
    assert_eq!(parsed[0].amount, Some(dec(1, 0)));
}

#[test]
fn an_empty_sheet_has_no_transactions() {
    for format in [
        SheetFormat::Otp,
        SheetFormat::Otp2020,
        SheetFormat::Granit,
        SheetFormat::BankAustria,
        SheetFormat::Transferwise,
        SheetFormat::Magnet,
    ] {
        assert!(format.can_parse_sheet(&vec![]));
        assert_eq!(format.parse_sheet(&vec![]), vec![]);
    }
}

#[test]
fn rows_that_cannot_be_read_are_told_apart() {
    assert!(!SheetFormat::Otp.can_parse_row(&vec![]));
    assert!(SheetFormat::Otp.can_parse_row(&vec![Cell::Empty]));
    assert!(!SheetFormat::Otp.can_parse_row(&vec![text("a")]));
    assert!(!SheetFormat::Otp.can_parse_row(&row_with(9, vec![(0, text("a")), (2, Cell::DateTime)])));
    assert!(!SheetFormat::Otp.can_parse_row(&row_with(9, vec![(0, text("a")), (3, Cell::DateTime)])));
    assert!(SheetFormat::Otp2020.can_parse_row(&row_with(8, vec![(0, text("a")), (2, Cell::DateTime)])));
    assert!(!SheetFormat::Otp2020.can_parse_row(&row_with(8, vec![(0, text("a")), (3, Cell::DateTime)])));
    assert!(!SheetFormat::Granit.can_parse_row(&row_with(11, vec![(1, float(1, 0))])));
    assert!(SheetFormat::Granit.can_parse_row(&row_with(2, vec![(1, Cell::Int(1))])));
    assert!(!SheetFormat::BankAustria.can_parse_row(&row_with(13, vec![(6, Cell::Float(None))])));
    assert!(!SheetFormat::BankAustria.can_parse_row(&row_with(12, vec![(6, float(-1, 0))])));
    assert!(SheetFormat::BankAustria.can_parse_row(&row_with(10, vec![(6, float(0, 0))])));
    assert!(!SheetFormat::BankAustria.can_parse_row(&row_with(9, vec![(6, float(1, 0))])));
    assert!(!SheetFormat::Transferwise.can_parse_row(&row_with(14, vec![(2, float(1, 0))])));
    assert!(!SheetFormat::Magnet.can_parse_row(&row_with(7, vec![(6, float(1, 0)), (1, Cell::DateTime)])));
    assert!(!SheetFormat::Magnet.can_parse_row(&empty_row(6)));
}

#[test]
fn a_sheet_with_a_row_that_cannot_be_read_is_refused() {
    let rows = vec![vec![text("heading")], row_with(7, vec![(6, float(1, 0)), (2, Cell::DateTime)])];
    assert!(!SheetFormat::Magnet.can_parse_sheet(&rows));
    let heading_only = vec![vec![Cell::DateTime]];
    assert!(SheetFormat::Magnet.can_parse_sheet(&heading_only));
    assert!(!SheetFormat::Otp.can_parse_sheet(&vec![vec![]]));
}

#[test]
fn cleanup_string_puts_capitals_in_lower_case() {
    assert_eq!(cleanup_string("SHOP"), "shop");
    assert_eq!(cleanup_string("Shop"), "Shop");
    assert_eq!(cleanup_string("shop"), "shop");
}

#[test]
fn cleanup_string_restores_accents() {
    assert_eq!(cleanup_string("Ja'nos"), "J\u{e1}nos");
    assert_eq!(
        cleanup_string("a'i'e'o'u'u:o:"),
        "\u{e1}\u{ed}\u{e9}\u{f3}\u{fa}\u{fc}\u{f6}"
    );
    assert_eq!(
        cleanup_string("xA'I'E'O'U'U:O:"),
        "x\u{c1}\u{cd}\u{c9}\u{d3}\u{da}\u{dc}\u{d6}"
    );
    assert_eq!(cleanup_string("a:i:e:"), "a:i:e:");
    assert_eq!(cleanup_string("'a"), "'a");
    assert_eq!(cleanup_string(""), "");
}

#[test]
fn replace_pairs_takes_pairs_from_the_left() {
    assert_eq!(replace_pairs("aaa", 'a', 'a', 'b'), "ba");
    assert_eq!(replace_pairs("abab", 'a', 'b', 'c'), "cc");
    assert_eq!(replace_pairs("a", 'a', 'b', 'c'), "a");
    assert_eq!(replace_pairs("ba", 'a', 'b', 'c'), "ba");
    assert_eq!(replace_pairs("", 'a', 'b', 'c'), "");
}

#[test]
fn remove_char_leaves_the_rest_in_order() {
    assert_eq!(remove_char("a-b--c", '-'), "abc");
    assert_eq!(remove_char("abc", '-'), "abc");
}

#[test]
fn concat_joins_with_a_blank() {
    assert_eq!(financ::text::concat(&some("a"), &some("b")), some("a b"));
    assert_eq!(financ::text::concat(&some("a"), &None), some("a"));
    assert_eq!(financ::text::concat(&None, &some("b")), some("b"));
    assert_eq!(financ::text::concat(&None, &None), None);
}

#[test]
fn int_to_text_writes_whole_numbers() {
    assert_eq!(int_to_text(0), "0");
    assert_eq!(int_to_text(7), "7");
    assert_eq!(int_to_text(100), "100");
    assert_eq!(int_to_text(-42), "-42");
    assert_eq!(int_to_text(i64::MAX), "9223372036854775807");
    assert_eq!(int_to_text(i64::MIN), "-9223372036854775808");
}

#[test]
fn pick_sheet_name_takes_the_given_name_or_the_first_sheet() {
    let names = vec!["first".to_string(), "second".to_string()];
    assert_eq!(pick_sheet_name(some("second"), &names), some("second"));
    assert_eq!(pick_sheet_name(some("other"), &names), some("other"));
    assert_eq!(pick_sheet_name(None, &names), some("first"));
    assert_eq!(pick_sheet_name(None, &vec![]), None);
}

#[test]
fn matching_by_flag() {
    assert_eq!(Matching::from_booking_flag(true), Matching::ByBooking);
    assert_eq!(Matching::from_booking_flag(false), Matching::BySpending);
}

#[test]
fn try_parse_sheet_reads_what_can_be_read() {
    let good = vec![vec![text("heading")], row_with(7, vec![(6, float(1, 0))])];
    assert_eq!(SheetFormat::Magnet.try_parse_sheet(&good).map(|found| found.len()), Some(1));
    let bad = vec![vec![text("heading")], row_with(7, vec![(6, float(1, 0)), (1, Cell::DateTime)])];
    assert_eq!(SheetFormat::Magnet.try_parse_sheet(&bad), None);
}
