//! Pairs external transactions with ledger entries.
//!
//! An external transaction is paired with the first ledger entry, in the
//! order of the index, that was posted on the day looked at, has exactly
//! its amount and is not paired yet. The days looked at are the
//! transaction's own matching date first, then one day later, one day
//! earlier, two days later, and so on up to a largest distance. All
//! transactions are tried at one distance before any is tried at the next.

use crate::amount::DecimalAmount;
use crate::dates::Date;
use crate::external_models::{
    ExternalTransaction, ExternalTransactionList, Matching, RowProblem, TransactionPairing,
};
use crate::index::{
    first_fit, insertion_point, lemma_first_fit_from, lemma_insert_keeps_days,
    lemma_insert_keeps_order, pointed_to, posted_on, sorted_by_date, unmatched_test,
    TransactionIndex,
};
use crate::matching_laws::{
    keeps_pairs, lemma_matching_keeps_pairs, lemma_matching_leftover_len, lemma_pass, lemma_try,
};
use crate::models::{Split, Transaction};
use vstd::prelude::*;

verus! {

/// The largest distance in days between an external transaction's matching
/// date and the posting date of the entry it is paired with.
pub const MAX_DATE_OFFSET: i64 = 10;

/// The day and the amount that are looked for when `transaction` is tried
/// `delta` days from its matching date. There is nothing to look for
/// without a matching date or without an amount.
pub open spec fn target(transaction: ExternalTransaction, matching: Matching, delta: int) -> Option<
    (Date, DecimalAmount),
> {
    match (transaction.matching_date(matching), transaction.amount) {
        (Some(date), Some(amount)) => if i32::MIN <= date.days + delta <= i32::MAX {
            Some((Date { days: (date.days + delta) as i32 }, amount))
        } else {
            None
        },
        _ => None,
    }
}

/// The position of the entry that `transaction` is paired with when it is
/// tried `delta` days from its matching date, if there is one.
pub open spec fn pairing_position(
    entries: Seq<TransactionPairing>,
    matching: Matching,
    delta: int,
    transaction: ExternalTransaction,
) -> Option<int> {
    match target(transaction, matching, delta) {
        Some((date, amount)) => first_fit(entries, date, amount),
        None => None,
    }
}

/// The entries after `transaction` has been tried `delta` days from its
/// matching date.
pub open spec fn after_try(
    entries: Seq<TransactionPairing>,
    matching: Matching,
    delta: int,
    transaction: ExternalTransaction,
) -> Seq<TransactionPairing> {
    match pairing_position(entries, matching, delta, transaction) {
        Some(p) => entries.update(p, entries[p].paired(transaction)),
        None => entries,
    }
}

/// One pass: every transaction of `working_set` is tried in turn, `delta`
/// days from its matching date. The result holds the entries after the pass
/// and the transactions that found no entry, in their order.
pub open spec fn after_pass(
    entries: Seq<TransactionPairing>,
    matching: Matching,
    delta: int,
    working_set: Seq<ExternalTransaction>,
) -> (Seq<TransactionPairing>, Seq<ExternalTransaction>)
    decreases working_set.len(),
{
    if working_set.len() == 0 {
        (entries, Seq::empty())
    } else {
        let earlier = after_pass(entries, matching, delta, working_set.drop_last());
        let transaction = working_set.last();
        (
            after_try(earlier.0, matching, delta, transaction),
            if pairing_position(earlier.0, matching, delta, transaction) is Some {
                earlier.1
            } else {
                earlier.1.push(transaction)
            },
        )
    }
}

/// The passes at the distances `done + 1` to `max`: at each distance first
/// the later day, then the earlier one. They end when no transaction is left.
pub open spec fn after_rings(
    entries: Seq<TransactionPairing>,
    matching: Matching,
    working_set: Seq<ExternalTransaction>,
    done: int,
    max: int,
) -> (Seq<TransactionPairing>, Seq<ExternalTransaction>)
    decreases max - done,
{
    if working_set.len() == 0 || done >= max {
        (entries, working_set)
    } else {
        let later = after_pass(entries, matching, done + 1, working_set);
        let earlier = after_pass(later.0, matching, -(done + 1), later.1);
        after_rings(earlier.0, matching, earlier.1, done + 1, max)
    }
}

/// The whole run: the pass on the matching dates themselves, then the
/// passes at the distances 1 to `max`.
pub open spec fn after_matching(
    entries: Seq<TransactionPairing>,
    matching: Matching,
    working_set: Seq<ExternalTransaction>,
    max: int,
) -> (Seq<TransactionPairing>, Seq<ExternalTransaction>) {
    let first = after_pass(entries, matching, 0, working_set);
    after_rings(first.0, matching, first.1, 0, max)
}

/// Tries one transaction `delta_day` days from its matching date, and
/// returns the position of the entry that it was paired with.
pub fn try_pairing(
    index: &mut TransactionIndex,
    matching: Matching,
    delta_day: i64,
    external_transaction: &ExternalTransaction,
) -> (r: Option<usize>)
    ensures
        final(index)@ == after_try(old(index)@, matching, delta_day as int, *external_transaction),
        match r {
            Some(p) => pairing_position(old(index)@, matching, delta_day as int, *external_transaction)
                == Some(p as int),
            None => pairing_position(old(index)@, matching, delta_day as int, *external_transaction)
                is None,
        },
        keeps_pairs(old(index)@, final(index)@),
        old(index).wf() ==> final(index).wf(),
{
    proof {
        lemma_try(index@, matching, delta_day as int, *external_transaction);
    }
    let date = match external_transaction.get_matching_date(matching) {
        Some(date) => date,
        None => {
            return None;
        },
    };
    let actual_date = match date.checked_add_days(delta_day) {
        Some(actual) => actual,
        None => {
            return None;
        },
    };
    let amount = match external_transaction.get_amount() {
        Some(amount) => amount,
        None => {
            return None;
        },
    };
    match index.find_first_fit(actual_date, amount) {
        Some(position) => {
            proof {
                lemma_first_fit_from(index@, actual_date, amount, 0);
            }
            let paired = index.mark_matched(position, external_transaction);
            assert(paired);
            Some(position)
        },
        None => None,
    }
}

/// Tries every transaction of `transactions`, in their order, `delta_day`
/// days from its matching date, and returns those that found no entry.
pub fn run_pass(
    index: &mut TransactionIndex,
    matching: Matching,
    delta_day: i64,
    transactions: &[ExternalTransaction],
) -> (r: Vec<ExternalTransaction>)
    ensures
        (final(index)@, r@) == after_pass(old(index)@, matching, delta_day as int, transactions@),
        keeps_pairs(old(index)@, final(index)@),
        old(index).wf() ==> final(index).wf(),
{
    proof {
        lemma_pass(index@, matching, delta_day as int, transactions@);
    }
    let mut result: Vec<ExternalTransaction> = Vec::new();
    let mut i: usize = 0;
    while i < transactions.len()
        invariant
            i <= transactions.len(),
            (index@, result@) == after_pass(
                old(index)@,
                matching,
                delta_day as int,
                transactions@.take(i as int),
            ),
            old(index).wf() ==> index.wf(),
        decreases transactions.len() - i,
    {
        proof {
            let next = transactions@.take(i + 1);
            assert(next.drop_last() == transactions@.take(i as int));
            assert(next.last() == transactions@[i as int]);
        }
        let external_transaction = &transactions[i];
        if try_pairing(index, matching, delta_day, external_transaction).is_none() {
            result.push(external_transaction.clone());
        }
        i = i + 1;
    }
    proof {
        assert(transactions@.take(i as int) == transactions@);
    }
    result
}

/// The whole run on `transactions` with the largest distance `max_offset`:
/// pairs what can be paired and returns the transactions that stay without
/// an entry, in their order.
pub fn run_matching(
    index: &mut TransactionIndex,
    matching: Matching,
    transactions: &[ExternalTransaction],
    max_offset: i64,
) -> (r: Vec<ExternalTransaction>)
    ensures
        (final(index)@, r@) == after_matching(old(index)@, matching, transactions@, max_offset as int),
        keeps_pairs(old(index)@, final(index)@),
        old(index).wf() ==> final(index).wf(),
{
    proof {
        lemma_matching_keeps_pairs(index@, matching, transactions@, max_offset as int);
    }
    let mut working_set = run_pass(index, matching, 0, transactions);
    let mut delta_day: i64 = 0;
    while !working_set.is_empty() && delta_day < max_offset
        invariant
            0 <= delta_day,
            after_rings(index@, matching, working_set@, delta_day as int, max_offset as int)
                == after_matching(old(index)@, matching, transactions@, max_offset as int),
            old(index).wf() ==> index.wf(),
        decreases max_offset - delta_day,
    {
        delta_day = delta_day + 1;
        working_set = run_pass(index, matching, delta_day, working_set.as_slice());
        working_set = run_pass(index, matching, -delta_day, working_set.as_slice());
    }
    working_set
}

/// The index and the rejected rows after `rows` have been loaded: a row
/// with a posting date and a quantity becomes an entry, put behind the
/// entries of its day; every other row is listed with its number and the reason.
pub open spec fn after_load(
    entries: Seq<TransactionPairing>,
    rows: Seq<(Split, Transaction)>,
) -> (Seq<TransactionPairing>, Seq<(usize, RowProblem)>)
    decreases rows.len(),
{
    if rows.len() == 0 {
        (entries, Seq::empty())
    } else {
        let earlier = after_load(entries, rows.drop_last());
        match TransactionPairing::spec_new(rows.last()) {
            Ok(entry) => (
                earlier.0.insert(insertion_point(earlier.0, entry.posting_date), entry),
                earlier.1,
            ),
            Err(problem) => (earlier.0, earlier.1.push(((rows.len() - 1) as usize, problem))),
        }
    }
}

/// The entries that the rows become, in the order of the rows.
pub open spec fn accepted_entries(rows: Seq<(Split, Transaction)>) -> Seq<TransactionPairing>
    decreases rows.len(),
{
    if rows.len() == 0 {
        Seq::empty()
    } else {
        match TransactionPairing::spec_new(rows.last()) {
            Ok(entry) => accepted_entries(rows.drop_last()).push(entry),
            Err(_) => accepted_entries(rows.drop_last()),
        }
    }
}

/// Loading keeps the index ordered by date, and the entries of one day in
/// the order in which they came: those that were there first, then those
/// of the rows in the order of the rows.
pub proof fn lemma_load_keeps_order(
    entries: Seq<TransactionPairing>,
    rows: Seq<(Split, Transaction)>,
    day: Date,
)
    requires
        sorted_by_date(entries),
    ensures
        sorted_by_date(after_load(entries, rows).0),
        after_load(entries, rows).0.filter(posted_on(day)) == entries.filter(posted_on(day))
            + accepted_entries(rows).filter(posted_on(day)),
    decreases rows.len(),
{
    let test = posted_on(day);
    if rows.len() == 0 {
        assert(accepted_entries(rows).filter(test) == Seq::<TransactionPairing>::empty()) by {
            reveal(Seq::filter);
        }
        assert(entries.filter(test) + Seq::<TransactionPairing>::empty() == entries.filter(test));
    } else {
        let earlier = after_load(entries, rows.drop_last());
        lemma_load_keeps_order(entries, rows.drop_last(), day);
        match TransactionPairing::spec_new(rows.last()) {
            Ok(entry) => {
                lemma_insert_keeps_order(earlier.0, entry);
                lemma_insert_keeps_days(earlier.0, entry, day);
                let accepted = accepted_entries(rows.drop_last());
                accepted.lemma_filter_push(entry, test);
                if entry.posting_date == day {
                    assert((entries.filter(test) + accepted.filter(test)).push(entry)
                        == entries.filter(test) + accepted.filter(test).push(entry));
                }
            },
            Err(_) => {},
        }
    }
}

/// What a run of the correlator reports besides the index itself.
#[derive(Debug)]
pub struct CorrelationResult {
    /// How many external transactions were paired in this run.
    pub matched_count: usize,
    /// The external transactions that no ledger entry was found for.
    pub unmatched_external: Vec<ExternalTransaction>,
}

/// The external transactions of one export, the ledger entries of one
/// account, and the rule by which the two are compared.
pub struct TransactionCorrelator {
    pub external_transactions: ExternalTransactionList,
    pub account: String,
    pub matching: Matching,
    pub transaction_map: TransactionIndex,
}

impl TransactionCorrelator {
    /// A correlator for the given external transactions, with an empty index.
    pub fn new(
        external_transactions: ExternalTransactionList,
        account: String,
        matching: Matching,
    ) -> (r: Self)
        ensures
            r.external_transactions == external_transactions,
            r.account == account,
            r.matching == matching,
            r.transaction_map@ == Seq::<TransactionPairing>::empty(),
            r.transaction_map.wf(),
    {
        TransactionCorrelator {
            external_transactions,
            account,
            matching,
            transaction_map: TransactionIndex::new(),
        }
    }

    /// Whether `other` differs from `self` in nothing but the index.
    pub open spec fn same_setting(self, other: TransactionCorrelator) -> bool {
        &&& self.external_transactions == other.external_transactions
        &&& self.account == other.account
        &&& self.matching == other.matching
    }

    pub fn get_min_date(&self) -> (r: Option<Date>)
        ensures
            r == self.external_transactions.1,
    {
        self.external_transactions.1
    }

    pub fn get_max_date(&self) -> (r: Option<Date>)
        ensures
            r == self.external_transactions.2,
    {
        self.external_transactions.2
    }

    /// Loads the rows of the ledger into the index, in their order, and
    /// returns the rows that could not become entries.
    pub fn build_mapping(&mut self, rows: Vec<(Split, Transaction)>) -> (rejected: Vec<
        (usize, RowProblem),
    >)
        ensures
            (final(self).transaction_map@, rejected@) == after_load(
                old(self).transaction_map@,
                rows@,
            ),
            old(self).transaction_map.wf() ==> final(self).transaction_map.wf(),
            final(self).same_setting(*old(self)),
    {
        let mut rejected: Vec<(usize, RowProblem)> = Vec::new();
        let ghost all = rows@;
        let total = rows.len();
        let mut number: usize = 0;
        for row in it: rows.into_iter()
            invariant
                it.seq() == all,
                all.len() == total,
                number == it.index(),
                (self.transaction_map@, rejected@) == after_load(
                    old(self).transaction_map@,
                    all.take(it.index() as int),
                ),
                old(self).transaction_map.wf() ==> self.transaction_map.wf(),
                self.same_setting(*old(self)),
        {
            proof {
                let next = all.take(number + 1);
                assert(next.drop_last() == all.take(number as int));
                assert(next.last() == row);
            }
            match TransactionPairing::new(row) {
                Ok(entry) => {
                    self.transaction_map.insert(entry);
                },
                Err(problem) => {
                    rejected.push((number, problem));
                },
            }
            number = number + 1;
        }
        proof {
            assert(all.take(all.len() as int) == all);
        }
        rejected
    }

    /// The ledger entries that are not paired and were posted within the
    /// range of the external transactions' matching dates; every unpaired
    /// entry where that range is not known. They come in the order of their
    /// posting dates, those of one day in the order in which they were loaded.
    pub fn get_unmatched(&self) -> (r: Vec<&TransactionPairing>)
        ensures
            pointed_to(r@) == self.transaction_map@.filter(
                unmatched_test(self.external_transactions.1, self.external_transactions.2),
            ),
            self.transaction_map.wf() ==> sorted_by_date(pointed_to(r@)),
    {
        self.transaction_map.unmatched_within(self.get_min_date(), self.get_max_date())
    }

    /// Pairs the external transactions with ledger entries, trying the
    /// matching date itself and then the days up to [`MAX_DATE_OFFSET`]
    /// away, and returns the transactions that stay without an entry.
    pub fn match_transactions(&mut self) -> (r: Vec<ExternalTransaction>)
        ensures
            (final(self).transaction_map@, r@) == after_matching(
                old(self).transaction_map@,
                old(self).matching,
                old(self).external_transactions.0@,
                MAX_DATE_OFFSET as int,
            ),
            keeps_pairs(old(self).transaction_map@, final(self).transaction_map@),
            old(self).transaction_map.wf() ==> final(self).transaction_map.wf(),
            final(self).same_setting(*old(self)),
    {
        run_matching(
            &mut self.transaction_map,
            self.matching,
            self.external_transactions.0.as_slice(),
            MAX_DATE_OFFSET,
        )
    }

    /// Runs [`TransactionCorrelator::match_transactions`] and counts: how many
    /// external transactions were paired, and which ones were not.
    pub fn correlate(&mut self) -> (r: CorrelationResult)
        ensures
            (final(self).transaction_map@, r.unmatched_external@) == after_matching(
                old(self).transaction_map@,
                old(self).matching,
                old(self).external_transactions.0@,
                MAX_DATE_OFFSET as int,
            ),
            r.matched_count + r.unmatched_external@.len() == old(self).external_transactions.0@.len(),
            keeps_pairs(old(self).transaction_map@, final(self).transaction_map@),
            old(self).transaction_map.wf() ==> final(self).transaction_map.wf(),
            final(self).same_setting(*old(self)),
    {
        proof {
            lemma_matching_leftover_len(
                self.transaction_map@,
                self.matching,
                self.external_transactions.0@,
                MAX_DATE_OFFSET as int,
            );
        }
        let unmatched_external = self.match_transactions();
        let matched_count = self.external_transactions.0.len() - unmatched_external.len();
        CorrelationResult { matched_count, unmatched_external }
    }

    /// One pass over `transactions`, each tried `delta_day` days from its
    /// matching date. Returns the transactions that found no entry.
    pub fn match_transactions_with_delta_day(
        &mut self,
        delta_day: i64,
        transactions: &[ExternalTransaction],
    ) -> (r: Vec<ExternalTransaction>)
        ensures
            (final(self).transaction_map@, r@) == after_pass(
                old(self).transaction_map@,
                old(self).matching,
                delta_day as int,
                transactions@,
            ),
            keeps_pairs(old(self).transaction_map@, final(self).transaction_map@),
            old(self).transaction_map.wf() ==> final(self).transaction_map.wf(),
            final(self).same_setting(*old(self)),
    {
        run_pass(&mut self.transaction_map, self.matching, delta_day, transactions)
    }

    /// Tries one transaction `delta_day` days from its matching date, and
    /// returns the position in the index of the entry it was paired with.
    pub fn add_transaction(&mut self, delta_day: i64, external_transaction: &ExternalTransaction) -> (r:
        Option<usize>)
        ensures
            final(self).transaction_map@ == after_try(
                old(self).transaction_map@,
                old(self).matching,
                delta_day as int,
                *external_transaction,
            ),
            match r {
                Some(p) => pairing_position(
                    old(self).transaction_map@,
                    old(self).matching,
                    delta_day as int,
                    *external_transaction,
                ) == Some(p as int),
                None => pairing_position(
                    old(self).transaction_map@,
                    old(self).matching,
                    delta_day as int,
                    *external_transaction,
                ) is None,
            },
            keeps_pairs(old(self).transaction_map@, final(self).transaction_map@),
            old(self).transaction_map.wf() ==> final(self).transaction_map.wf(),
            final(self).same_setting(*old(self)),
    {
        try_pairing(&mut self.transaction_map, self.matching, delta_day, external_transaction)
    }
}

} // verus!
