use financ::amount::DecimalAmount;
use financ::correlator::{run_matching, run_pass, try_pairing, TransactionCorrelator, MAX_DATE_OFFSET};
use financ::dates::Date;
use financ::external_models::{
    find_min_max, ExternalTransaction, ExternalTransactionList, Matching, RowProblem,
    TransactionPairing,
};
use financ::index::TransactionIndex;
use financ::models::{Split, Transaction};

fn dec(mantissa: i128, scale: u32) -> DecimalAmount {
    DecimalAmount { mantissa, scale }
}

fn day(year: i32, month: u32, day: u32) -> Date {
    Date::from_ymd_opt(year, month, day).expect("a day of the calendar")
}

fn split(guid: &str, quantity_num: i64, quantity_denom: i64) -> Split {
    Split {
        guid: guid.to_string(),
        tx_guid: format!("tx-{}", guid),
        account_guid: "account".to_string(),
        memo: "".to_string(),
        action: "".to_string(),
        reconcile_state: "n".to_string(),
        reconcile_date: None,
        value_num: quantity_num,
        value_denom: quantity_denom,
        quantity_num,
        quantity_denom,
        lot_guid: None,
    }
}

fn transaction(guid: &str, post_date: Option<&str>) -> Transaction {
    Transaction {
        guid: format!("tx-{}", guid),
        currency_guid: "eur".to_string(),
        num: "".to_string(),
        post_date: post_date.map(|d| d.to_string()),
        enter_date: None,
        description: None,
    }
}

fn row(guid: &str, post_date: &str, quantity_num: i64, quantity_denom: i64) -> (Split, Transaction) {
    (split(guid, quantity_num, quantity_denom), transaction(guid, Some(post_date)))
}

fn external(date: Option<Date>, amount: Option<DecimalAmount>, description: &str) -> ExternalTransaction {
    ExternalTransaction {
        date,
        booking_date: None,
        amount,
        category: None,
        description: Some(description.to_string()),
        other_account: None,
        other_account_name: None,
        textual_date: None,
        transaction_fee: None,
    }
}

fn correlator(externals: Vec<ExternalTransaction>, rows: Vec<(Split, Transaction)>) -> TransactionCorrelator {
    let list = ExternalTransactionList::new(externals, Matching::ByBooking);
    let mut c = TransactionCorrelator::new(list, "account".to_string(), Matching::ByBooking);
    let rejected = c.build_mapping(rows);
    assert!(rejected.is_empty());
    c
}

fn partner(c: &TransactionCorrelator, position: usize) -> Option<String> {
    c.transaction_map
        .get(position)
        .and_then(|e| e.external.as_ref())
        .and_then(|x| x.description.clone())
}

#[test]
fn an_entry_of_the_same_day_and_amount_is_matched_at_once() {
    let x = external(Some(day(2024, 1, 10)), Some(dec(-4250, 2)), "x");
    let mut c = correlator(vec![x.clone()], vec![row("a", "2024-01-10 00:00:00", -4250, 100)]);
    let left = c.match_transactions_with_delta_day(0, &[x.clone()]);
    assert_eq!(left, vec![]);
    assert_eq!(c.get_unmatched().len(), 0);
    assert_eq!(c.transaction_map.get(0).unwrap().external, Some(x));
}

#[test]
fn the_whole_run_counts_one_match_for_the_same_day() {
    let x = external(Some(day(2024, 1, 10)), Some(dec(-4250, 2)), "x");
    let mut c = correlator(vec![x], vec![row("a", "2024-01-10 00:00:00", -4250, 100)]);
    let result = c.correlate();
    assert_eq!(result.matched_count, 1);
    assert_eq!(result.unmatched_external, vec![]);
    assert_eq!(c.get_unmatched().len(), 0);
}

#[test]
fn a_transaction_three_days_later_is_matched_on_the_pass_three_days_back() {
    let x = external(Some(day(2024, 1, 13)), Some(dec(-4250, 2)), "x");
    let mut c = correlator(vec![x.clone()], vec![row("a", "2024-01-10 00:00:00", -4250, 100)]);
    let mut left = vec![x.clone()];
    for delta in [0i64, 1, -1, 2, -2, 3] {
        left = c.match_transactions_with_delta_day(delta, &left);
        assert_eq!(left, vec![x.clone()]);
        assert!(c.transaction_map.get(0).unwrap().is_not_matched());
    }
    left = c.match_transactions_with_delta_day(-3, &left);
    assert_eq!(left, vec![]);
    assert_eq!(c.transaction_map.get(0).unwrap().external, Some(x));
}

#[test]
fn the_whole_run_finds_a_transaction_three_days_later() {
    assert_eq!(MAX_DATE_OFFSET, 10);
    let x = external(Some(day(2024, 1, 13)), Some(dec(-4250, 2)), "x");
    let mut c = correlator(vec![x.clone()], vec![row("a", "2024-01-10 00:00:00", -4250, 100)]);
    let result = c.correlate();
    assert_eq!(result.matched_count, 1);
    assert_eq!(result.unmatched_external, vec![]);
    assert_eq!(c.get_unmatched().len(), 0);
    assert_eq!(c.transaction_map.get(0).unwrap().external, Some(x));
}

#[test]
fn a_transaction_without_dates_is_never_matched() {
    let x = external(None, Some(dec(-1000, 2)), "x");
    let mut c = correlator(vec![x.clone()], vec![row("a", "2024-02-01 00:00:00", -1000, 100)]);
    assert_eq!(c.get_min_date(), None);
    assert_eq!(c.get_max_date(), None);
    let result = c.correlate();
    assert_eq!(result.matched_count, 0);
    assert_eq!(result.unmatched_external, vec![x]);
    let ledger = c.get_unmatched();
    assert_eq!(ledger.len(), 1);
    assert_eq!(ledger[0].split.guid, "a");
    assert!(ledger[0].is_not_matched());
}

#[test]
fn a_transaction_without_amount_is_never_matched() {
    let x = external(Some(day(2024, 2, 1)), None, "x");
    let mut c = correlator(vec![x.clone()], vec![row("a", "2024-02-01 00:00:00", 0, 100)]);
    assert_eq!(c.match_transactions(), vec![x]);
    assert!(c.transaction_map.get(0).unwrap().is_not_matched());
}

#[test]
fn a_transaction_beyond_the_largest_distance_stays_unmatched() {
    let near = external(Some(day(2024, 1, 20)), Some(dec(5, 0)), "ten days");
    let far = external(Some(day(2024, 1, 21)), Some(dec(7, 0)), "eleven days");
    let mut c = correlator(
        vec![near.clone(), far.clone()],
        vec![row("a", "2024-01-10 00:00:00", 5, 1), row("b", "2024-01-10 00:00:00", 7, 1)],
    );
    assert_eq!(c.match_transactions(), vec![far]);
    assert_eq!(partner(&c, 0), Some("ten days".to_string()));
    assert_eq!(partner(&c, 1), None);
}

#[test]
fn the_later_day_is_tried_before_the_earlier_one() {
    // One transaction, one entry a day before and one a day after it.
    let x = external(Some(day(2024, 1, 10)), Some(dec(5, 0)), "x");
    let mut c = correlator(
        vec![x],
        vec![row("before", "2024-01-09 00:00:00", 5, 1), row("after", "2024-01-11 00:00:00", 5, 1)],
    );
    assert_eq!(c.match_transactions(), vec![]);
    assert_eq!(c.transaction_map.get(0).unwrap().split.guid, "before");
    assert_eq!(partner(&c, 0), None);
    assert_eq!(partner(&c, 1), Some("x".to_string()));
}

#[test]
fn the_nearer_transaction_takes_the_entry_wherever_it_stands() {
    let far = external(Some(day(2024, 1, 15)), Some(dec(5, 0)), "five days");
    let near = external(Some(day(2024, 1, 13)), Some(dec(5, 0)), "three days");
    let mut c = correlator(vec![far.clone(), near], vec![row("a", "2024-01-10 00:00:00", 5, 1)]);
    assert_eq!(c.match_transactions(), vec![far]);
    assert_eq!(partner(&c, 0), Some("three days".to_string()));
}

#[test]
fn of_two_entries_of_one_day_the_first_loaded_is_taken_first() {
    let x = external(Some(day(2024, 1, 10)), Some(dec(5, 0)), "x");
    let y = external(Some(day(2024, 1, 10)), Some(dec(5, 0)), "y");
    let mut c = correlator(
        vec![x, y],
        vec![row("first", "2024-01-10 00:00:00", 5, 1), row("second", "2024-01-10 09:00:00", 5, 1)],
    );
    assert_eq!(c.match_transactions(), vec![]);
    assert_eq!(c.transaction_map.get(0).unwrap().split.guid, "first");
    assert_eq!(partner(&c, 0), Some("x".to_string()));
    assert_eq!(partner(&c, 1), Some("y".to_string()));
}

#[test]
fn an_amount_that_differs_in_the_third_place_is_no_match() {
    let x = external(Some(day(2024, 1, 10)), Some(dec(10001, 3)), "x");
    let mut c = correlator(vec![x.clone()], vec![row("a", "2024-01-10 00:00:00", 1000, 100)]);
    assert_eq!(c.match_transactions(), vec![x]);
    assert!(c.transaction_map.get(0).unwrap().is_not_matched());
}

#[test]
fn an_amount_with_more_zeros_is_a_match() {
    let x = external(Some(day(2024, 1, 10)), Some(dec(10000, 3)), "x");
    let mut c = correlator(vec![x], vec![row("a", "2024-01-10 00:00:00", 1000, 100)]);
    assert_eq!(c.match_transactions(), vec![]);
    assert_eq!(partner(&c, 0), Some("x".to_string()));
}

#[test]
fn a_run_on_nothing_changes_nothing() {
    let mut c = correlator(vec![], vec![row("a", "2024-01-10 00:00:00", 5, 1)]);
    let result = c.correlate();
    assert_eq!(result.matched_count, 0);
    assert_eq!(result.unmatched_external, vec![]);
    assert_eq!(c.transaction_map.len(), 1);
    assert!(c.transaction_map.get(0).unwrap().is_not_matched());
    assert_eq!(c.get_unmatched().len(), 1);
}

#[test]
fn a_second_run_leaves_the_pairs_of_the_first() {
    let x = external(Some(day(2024, 1, 10)), Some(dec(5, 0)), "first run");
    let mut c = correlator(vec![x], vec![row("a", "2024-01-10 00:00:00", 5, 1)]);
    assert_eq!(c.match_transactions(), vec![]);
    let again = external(Some(day(2024, 1, 10)), Some(dec(5, 0)), "second run");
    let left = run_matching(&mut c.transaction_map, Matching::ByBooking, &[again.clone()], 10);
    assert_eq!(left, vec![again]);
    assert_eq!(partner(&c, 0), Some("first run".to_string()));
}

#[test]
fn pair_with_pairs_only_once() {
    let mut entry = TransactionPairing::new(row("a", "2024-01-10 00:00:00", 5, 1)).unwrap();
    let x = external(None, None, "x");
    let y = external(None, None, "y");
    assert!(entry.is_not_matched());
    assert!(entry.pair_with(&x));
    assert!(!entry.is_not_matched());
    assert!(!entry.pair_with(&y));
    assert_eq!(entry.external, Some(x));
}

#[test]
fn mark_matched_pairs_only_once_and_only_what_is_there() {
    let mut index = TransactionIndex::new();
    index.insert(TransactionPairing::new(row("a", "2024-01-10 00:00:00", 5, 1)).unwrap());
    let x = external(None, None, "x");
    let y = external(None, None, "y");
    assert!(!index.mark_matched(1, &x));
    assert!(index.mark_matched(0, &x));
    assert!(!index.mark_matched(0, &y));
    assert_eq!(index.get(0).unwrap().external, Some(x));
    assert_eq!(index.get(1), None);
}

#[test]
fn try_pairing_tells_the_position_of_the_entry() {
    let mut index = TransactionIndex::new();
    index.insert(TransactionPairing::new(row("a", "2024-01-10 00:00:00", 5, 1)).unwrap());
    index.insert(TransactionPairing::new(row("b", "2024-01-12 00:00:00", 5, 1)).unwrap());
    let x = external(Some(day(2024, 1, 10)), Some(dec(5, 0)), "x");
    assert_eq!(try_pairing(&mut index, Matching::ByBooking, 1, &x), None);
    assert_eq!(try_pairing(&mut index, Matching::ByBooking, 2, &x), Some(1));
    assert_eq!(try_pairing(&mut index, Matching::ByBooking, 2, &x), None);
    assert_eq!(try_pairing(&mut index, Matching::ByBooking, 0, &x), Some(0));
}

#[test]
fn try_pairing_at_the_end_of_the_day_numbers_finds_nothing() {
    let mut index = TransactionIndex::new();
    let x = external(Some(Date { days: i32::MAX }), Some(dec(5, 0)), "x");
    assert_eq!(try_pairing(&mut index, Matching::ByBooking, 1, &x), None);
}

#[test]
fn run_pass_keeps_the_order_of_what_is_left() {
    let mut index = TransactionIndex::new();
    index.insert(TransactionPairing::new(row("a", "2024-01-10 00:00:00", 5, 1)).unwrap());
    let x = external(Some(day(2024, 1, 9)), Some(dec(5, 0)), "x");
    let y = external(Some(day(2024, 1, 10)), Some(dec(5, 0)), "y");
    let z = external(Some(day(2024, 1, 10)), Some(dec(5, 0)), "z");
    let left = run_pass(&mut index, Matching::ByBooking, 0, &[x.clone(), y, z.clone()]);
    assert_eq!(left, vec![x, z]);
}

#[test]
fn by_spending_the_date_of_the_description_comes_first() {
    let mut x = external(Some(day(2024, 1, 12)), Some(dec(5, 0)), "x");
    x.textual_date = Some(day(2024, 1, 10));
    assert_eq!(x.get_matching_date(Matching::ByBooking), Some(day(2024, 1, 12)));
    assert_eq!(x.get_matching_date(Matching::BySpending), Some(day(2024, 1, 10)));
    x.textual_date = None;
    assert_eq!(x.get_matching_date(Matching::BySpending), Some(day(2024, 1, 12)));
    x.date = None;
    assert_eq!(x.get_matching_date(Matching::BySpending), None);
}

#[test]
fn the_index_is_ordered_by_date_and_keeps_the_order_of_a_day() {
    let c = correlator(
        vec![],
        vec![
            row("c", "2024-01-12 00:00:00", 1, 1),
            row("a1", "2024-01-10 00:00:00", 1, 1),
            row("b", "20240111000000", 1, 1),
            row("a2", "2024-01-10 08:00:00", 1, 1),
        ],
    );
    let guids: Vec<String> = (0..c.transaction_map.len())
        .map(|i| c.transaction_map.get(i).unwrap().split.guid.clone())
        .collect();
    assert_eq!(guids, vec!["a1", "a2", "b", "c"]);
}

#[test]
fn rows_that_cannot_become_entries_are_reported() {
    let list = ExternalTransactionList::new(vec![], Matching::ByBooking);
    let mut c = TransactionCorrelator::new(list, "account".to_string(), Matching::ByBooking);
    let rejected = c.build_mapping(vec![
        (split("a", 1, 1), transaction("a", None)),
        row("b", "2024-01-10 00:00:00", 1, 1),
        row("c", "10.01.2024", 1, 1),
        row("d", "2024-01-10 00:00:00", 1, 0),
    ]);
    assert_eq!(
        rejected,
        vec![
            (0, RowProblem::MissingPostDate),
            (2, RowProblem::MalformedPostDate),
            (3, RowProblem::NoQuantity),
        ]
    );
    assert_eq!(c.transaction_map.len(), 1);
    assert_eq!(c.transaction_map.get(0).unwrap().split.guid, "b");
}

#[test]
fn a_new_entry_has_the_day_and_the_quantity_of_its_row() {
    let entry = TransactionPairing::new(row("a", "2024-01-10 21:30:00", -4250, 100)).unwrap();
    assert_eq!(entry.posting_date, day(2024, 1, 10));
    assert!(entry.is_equal_amount(dec(-425, 1)));
    assert!(!entry.is_equal_amount(dec(-4251, 2)));
    assert!(entry.is_not_matched());
}

#[test]
fn the_range_of_matching_dates_is_found() {
    let xs = vec![
        external(Some(day(2024, 1, 12)), None, "a"),
        external(None, None, "b"),
        external(Some(day(2024, 1, 10)), None, "c"),
        external(Some(day(2024, 1, 11)), None, "d"),
    ];
    assert_eq!(
        find_min_max(&xs, Matching::ByBooking),
        (Some(day(2024, 1, 10)), Some(day(2024, 1, 12)))
    );
    assert_eq!(find_min_max(&vec![], Matching::ByBooking), (None, None));
    assert_eq!(find_min_max(&vec![external(None, None, "b")], Matching::BySpending), (None, None));
}

#[test]
fn unmatched_entries_are_reported_within_the_range_of_the_export() {
    let x = external(Some(day(2024, 1, 10)), Some(dec(1, 0)), "x");
    let y = external(Some(day(2024, 1, 12)), Some(dec(9, 0)), "y");
    let mut c = correlator(
        vec![x, y.clone()],
        vec![
            row("early", "2024-01-09 00:00:00", 2, 1),
            row("first", "2024-01-10 00:00:00", 1, 1),
            row("inside", "2024-01-11 00:00:00", 3, 1),
            row("last", "2024-01-12 00:00:00", 4, 1),
            row("late", "2024-01-13 00:00:00", 5, 1),
        ],
    );
    assert_eq!(c.match_transactions(), vec![y]);
    let guids: Vec<String> = c.get_unmatched().iter().map(|e| e.split.guid.clone()).collect();
    assert_eq!(guids, vec!["inside", "last"]);
    let all: Vec<String> = c
        .transaction_map
        .unmatched_within(None, Some(day(2024, 1, 12)))
        .iter()
        .map(|e| e.split.guid.clone())
        .collect();
    assert_eq!(all, vec!["early", "inside", "last", "late"]);
}

#[test]
fn an_entry_outside_the_range_of_the_export_can_still_be_matched() {
    let x = external(Some(day(2024, 1, 10)), Some(dec(1, 0)), "x");
    let mut c = correlator(vec![x], vec![row("early", "2024-01-08 00:00:00", 1, 1)]);
    assert_eq!(c.match_transactions(), vec![]);
    assert_eq!(partner(&c, 0), Some("x".to_string()));
}

#[test]
fn find_first_fit_passes_over_entries_that_are_paired() {
    let mut index = TransactionIndex::new();
    index.insert(TransactionPairing::new(row("a", "2024-01-10 00:00:00", 5, 1)).unwrap());
    index.insert(TransactionPairing::new(row("b", "2024-01-10 00:00:00", 5, 1)).unwrap());
    assert_eq!(index.find_first_fit(day(2024, 1, 10), dec(50, 1)), Some(0));
    assert!(index.mark_matched(0, &external(None, None, "x")));
    assert_eq!(index.find_first_fit(day(2024, 1, 10), dec(50, 1)), Some(1));
    assert_eq!(index.find_first_fit(day(2024, 1, 11), dec(50, 1)), None);
    assert_eq!(index.find_first_fit(day(2024, 1, 10), dec(51, 1)), None);
}
