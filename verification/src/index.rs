//! The ledger entries of one account, kept in the order of their posting
//! dates; entries of one day stay in the order in which they were added.

use crate::amount::DecimalAmount;
use crate::dates::Date;
use crate::external_models::{ExternalTransaction, TransactionPairing};
use vstd::prelude::*;

verus! {

/// Whether the entries are in the order of their posting dates.
pub open spec fn sorted_by_date(entries: Seq<TransactionPairing>) -> bool {
    forall|i: int, j: int|
        0 <= i <= j < entries.len() ==> (#[trigger] entries[i]).posting_date.days <= (
        #[trigger] entries[j]).posting_date.days
}

/// Where an entry posted on `date` is put: behind every entry of that day
/// or an earlier one, in front of every later one.
pub open spec fn is_insertion_point(
    entries: Seq<TransactionPairing>,
    date: Date,
    position: int,
) -> bool {
    &&& 0 <= position <= entries.len()
    &&& forall|i: int|
        0 <= i < position ==> (#[trigger] entries[i]).posting_date.days <= date.days
    &&& forall|i: int|
        position <= i < entries.len() ==> (#[trigger] entries[i]).posting_date.days > date.days
}

/// The number of entries at the front of `entries`, up to the last one
/// posted on `date` or earlier. In an index ordered by date this is the
/// one insertion point for `date`.
pub open spec fn insertion_point(entries: Seq<TransactionPairing>, date: Date) -> int
    decreases entries.len(),
{
    if entries.len() == 0 {
        0
    } else if entries.last().posting_date.days <= date.days {
        entries.len() as int
    } else {
        insertion_point(entries.drop_last(), date)
    }
}

/// In an index ordered by date, [`insertion_point`] is an insertion point,
/// and there is no other.
pub proof fn lemma_insertion_point(entries: Seq<TransactionPairing>, date: Date, position: int)
    requires
        sorted_by_date(entries),
    ensures
        is_insertion_point(entries, date, insertion_point(entries, date)),
        is_insertion_point(entries, date, position) ==> position == insertion_point(entries, date),
    decreases entries.len(),
{
    if entries.len() == 0 {
    } else if entries.last().posting_date.days <= date.days {
        let n = entries.len() as int;
        assert forall|i: int| 0 <= i < n implies (#[trigger] entries[i]).posting_date.days
            <= date.days by {
            assert(entries[i].posting_date.days <= entries[n - 1].posting_date.days);
        }
        if is_insertion_point(entries, date, position) && position < n {
            assert(entries[n - 1].posting_date.days > date.days);
        }
    } else {
        let shorter = entries.drop_last();
        assert(sorted_by_date(shorter)) by {
            assert forall|i: int, j: int| 0 <= i <= j < shorter.len() implies (
            #[trigger] shorter[i]).posting_date.days <= (#[trigger] shorter[j]).posting_date.days by {
                assert(shorter[i] == entries[i]);
                assert(shorter[j] == entries[j]);
            }
        }
        let p = insertion_point(shorter, date);
        if is_insertion_point(entries, date, position) {
            if position == entries.len() {
                assert(entries[position - 1].posting_date.days <= date.days);
            }
            assert(is_insertion_point(shorter, date, position)) by {
                assert forall|i: int| 0 <= i < position implies (#[trigger] shorter[i]).posting_date.days
                    <= date.days by {
                    assert(shorter[i] == entries[i]);
                }
                assert forall|i: int| position <= i < shorter.len() implies (
                #[trigger] shorter[i]).posting_date.days > date.days by {
                    assert(shorter[i] == entries[i]);
                }
            }
        }
        lemma_insertion_point(shorter, date, position);
        assert(is_insertion_point(entries, date, p)) by {
            assert forall|i: int| 0 <= i < p implies (#[trigger] entries[i]).posting_date.days
                <= date.days by {
                assert(shorter[i] == entries[i]);
            }
            assert forall|i: int| p <= i < entries.len() implies (#[trigger] entries[i]).posting_date.days
                > date.days by {
                if i < shorter.len() {
                    assert(shorter[i] == entries[i]);
                }
            }
        }
    }
}

/// An ordered index stays ordered when an entry is put at its insertion point.
pub proof fn lemma_insert_keeps_order(entries: Seq<TransactionPairing>, entry: TransactionPairing)
    requires
        sorted_by_date(entries),
    ensures
        sorted_by_date(entries.insert(insertion_point(entries, entry.posting_date), entry)),
{
    let position = insertion_point(entries, entry.posting_date);
    lemma_insertion_point(entries, entry.posting_date, position);
    let after = entries.insert(position, entry);
    assert forall|i: int, j: int| 0 <= i <= j < after.len() implies (#[trigger] after[i]).posting_date.days
        <= (#[trigger] after[j]).posting_date.days by {
        if i < position && j > position {
            assert(after[i] == entries[i]);
            assert(after[j] == entries[j - 1]);
        } else if i < position && j < position {
            assert(after[i] == entries[i]);
            assert(after[j] == entries[j]);
        } else if i > position {
            assert(after[i] == entries[i - 1]);
            assert(after[j] == entries[j - 1]);
        } else if i == position && j > position {
            assert(after[j] == entries[j - 1]);
        } else if i < position && j == position {
            assert(after[i] == entries[i]);
        }
    }
}

/// Whether the entry is one that an external transaction of the given date
/// and amount can be paired with: posted that day, of exactly that amount,
/// and not paired yet.
pub open spec fn is_candidate(entry: TransactionPairing, date: Date, amount: DecimalAmount) -> bool {
    &&& entry.posting_date == date
    &&& entry.amount.same_value(amount)
    &&& entry.external is None
}

/// The first candidate at or behind `start`, if there is any.
pub open spec fn first_fit_from(
    entries: Seq<TransactionPairing>,
    date: Date,
    amount: DecimalAmount,
    start: int,
) -> Option<int>
    decreases entries.len() - start,
{
    if start < 0 || start >= entries.len() {
        None
    } else if is_candidate(entries[start], date, amount) {
        Some(start)
    } else {
        first_fit_from(entries, date, amount, start + 1)
    }
}

/// The position of the first candidate among the entries, if there is any.
pub open spec fn first_fit(entries: Seq<TransactionPairing>, date: Date, amount: DecimalAmount) -> Option<
    int,
> {
    first_fit_from(entries, date, amount, 0)
}

/// `first_fit_from` finds a candidate that no candidate precedes, and finds
/// none only where there is none.
pub proof fn lemma_first_fit_from(
    entries: Seq<TransactionPairing>,
    date: Date,
    amount: DecimalAmount,
    start: int,
)
    requires
        0 <= start,
    ensures
        match first_fit_from(entries, date, amount, start) {
            Some(p) => {
                &&& start <= p < entries.len()
                &&& is_candidate(entries[p], date, amount)
                &&& forall|i: int| start <= i < p ==> !is_candidate(#[trigger] entries[i], date, amount)
            },
            None => forall|i: int|
                start <= i < entries.len() ==> !is_candidate(#[trigger] entries[i], date, amount),
        },
    decreases entries.len() - start,
{
    if start < entries.len() && !is_candidate(entries[start], date, amount) {
        lemma_first_fit_from(entries, date, amount, start + 1);
    }
}

/// Whether `entry` is still unpaired and posted within the two days, both
/// included; without one of the two days every unpaired entry counts.
pub open spec fn is_unmatched_within(
    entry: TransactionPairing,
    min: Option<Date>,
    max: Option<Date>,
) -> bool {
    &&& entry.external is None
    &&& match (min, max) {
        (Some(lo), Some(hi)) => lo.days <= entry.posting_date.days <= hi.days,
        _ => true,
    }
}

/// The test of [`is_unmatched_within`] for given days.
pub open spec fn unmatched_test(min: Option<Date>, max: Option<Date>) -> spec_fn(
    TransactionPairing,
) -> bool {
    |entry: TransactionPairing| is_unmatched_within(entry, min, max)
}

/// The test "was posted on `day`".
pub open spec fn posted_on(day: Date) -> spec_fn(TransactionPairing) -> bool {
    |entry: TransactionPairing| entry.posting_date == day
}

/// An entry that is put into an ordered index comes behind the entries of
/// its day, and the entries of every other day stay as they are.
pub proof fn lemma_insert_keeps_days(
    entries: Seq<TransactionPairing>,
    entry: TransactionPairing,
    day: Date,
)
    requires
        sorted_by_date(entries),
    ensures
        entries.insert(insertion_point(entries, entry.posting_date), entry).filter(posted_on(day))
            == if entry.posting_date == day {
            entries.filter(posted_on(day)).push(entry)
        } else {
            entries.filter(posted_on(day))
        },
{
    let test = posted_on(day);
    let position = insertion_point(entries, entry.posting_date);
    lemma_insertion_point(entries, entry.posting_date, position);
    let front = entries.take(position);
    let back = entries.skip(position);
    let one = seq![entry];
    assert(entries == front + back);
    assert(entries.insert(position, entry) == front + one + back);
    Seq::filter_distributes_over_add(front, back, test);
    Seq::filter_distributes_over_add(front + one, back, test);
    Seq::filter_distributes_over_add(front, one, test);
    assert(one.filter(test) == if test(entry) {
        one
    } else {
        Seq::<TransactionPairing>::empty()
    }) by {
        reveal_with_fuel(Seq::filter, 2);
        assert(one.drop_last() == Seq::<TransactionPairing>::empty());
        assert(one.last() == entry);
        assert(Seq::<TransactionPairing>::empty().push(entry) == one);
    }
    if entry.posting_date == day {
        assert forall|i: int| 0 <= i < back.len() implies !test(#[trigger] back[i]) by {
            assert(back[i] == entries[position + i]);
            assert(entries[position + i].posting_date.days > entry.posting_date.days);
        }
        assert(back.all(|x: TransactionPairing| !test(x)));
        back.lemma_all_neg_filter_empty(test);
        assert(back.filter(test) == Seq::<TransactionPairing>::empty());
        assert(front.filter(test) + one + Seq::<TransactionPairing>::empty() == front.filter(
            test,
        ).push(entry));
        assert(front.filter(test) + Seq::<TransactionPairing>::empty() == front.filter(test));
    } else {
        assert(front.filter(test) + Seq::<TransactionPairing>::empty() == front.filter(test));
    }
}

/// What is picked out of an ordered index is ordered.
pub proof fn lemma_filter_keeps_order(
    entries: Seq<TransactionPairing>,
    test: spec_fn(TransactionPairing) -> bool,
)
    requires
        sorted_by_date(entries),
    ensures
        sorted_by_date(entries.filter(test)),
    decreases entries.len(),
{
    reveal(Seq::filter);
    if entries.len() > 0 {
        let shorter = entries.drop_last();
        assert forall|i: int, j: int| 0 <= i <= j < shorter.len() implies (#[trigger] shorter[i]).posting_date.days
            <= (#[trigger] shorter[j]).posting_date.days by {
            assert(shorter[i] == entries[i]);
            assert(shorter[j] == entries[j]);
        }
        lemma_filter_keeps_order(shorter, test);
        let picked = shorter.filter(test);
        let all = entries.filter(test);
        assert forall|i: int, j: int| 0 <= i <= j < all.len() implies (#[trigger] all[i]).posting_date.days
            <= (#[trigger] all[j]).posting_date.days by {
            if j < picked.len() {
                assert(all[i] == picked[i]);
                assert(all[j] == picked[j]);
            } else if i < picked.len() {
                assert(all[i] == picked[i]);
                assert(all[j] == entries.last());
                shorter.lemma_filter_contains_rev(test, picked[i]);
                let k = choose|k: int| 0 <= k < shorter.len() && shorter[k] == picked[i];
                assert(entries[k] == shorter[k]);
                assert(entries[k].posting_date.days <= entries[entries.len() - 1].posting_date.days);
            }
        }
    }
}

/// The entries that references in `found` point to.
pub open spec fn pointed_to(found: Seq<&TransactionPairing>) -> Seq<TransactionPairing> {
    found.map_values(|e: &TransactionPairing| *e)
}

/// The ledger entries of one account, ordered by posting date.
pub struct TransactionIndex {
    entries: Vec<TransactionPairing>,
}

impl View for TransactionIndex {
    type V = Seq<TransactionPairing>;

    closed spec fn view(&self) -> Seq<TransactionPairing> {
        self.entries@
    }
}

impl TransactionIndex {
    /// The order that every index made by this module keeps: by posting date.
    pub open spec fn wf(&self) -> bool {
        sorted_by_date(self@)
    }

    /// An index without entries.
    pub fn new() -> (r: Self)
        ensures
            r@ == Seq::<TransactionPairing>::empty(),
            r.wf(),
    {
        TransactionIndex { entries: Vec::new() }
    }

    pub fn len(&self) -> (r: usize)
        ensures
            r == self@.len(),
    {
        self.entries.len()
    }

    /// The entry at `position`, counted in the order of posting dates.
    pub fn get(&self, position: usize) -> (r: Option<&TransactionPairing>)
        ensures
            r is Some <==> position < self@.len(),
            r matches Some(e) ==> *e == self@[position as int],
    {
        if position < self.entries.len() {
            Some(&self.entries[position])
        } else {
            None
        }
    }

    /// Adds an entry behind the last entry of its day or of an earlier day.
    /// In an index ordered by date that is behind every entry of its day
    /// and of earlier days and in front of every later one, and the index
    /// stays ordered.
    pub fn insert(&mut self, entry: TransactionPairing)
        ensures
            final(self)@ == old(self)@.insert(
                insertion_point(old(self)@, entry.posting_date),
                entry,
            ),
            old(self).wf() ==> final(self).wf() && is_insertion_point(
                old(self)@,
                entry.posting_date,
                insertion_point(old(self)@, entry.posting_date),
            ),
    {
        let mut position: usize = self.entries.len();
        proof {
            assert(self@.take(position as int) == self@);
        }
        while position > 0 && self.entries[position - 1].posting_date.days > entry.posting_date.days
            invariant
                position <= self.entries.len(),
                self.entries@ == old(self).entries@,
                insertion_point(self@, entry.posting_date) == insertion_point(
                    self@.take(position as int),
                    entry.posting_date,
                ),
            decreases position,
        {
            proof {
                let front = self@.take(position as int);
                assert(front.last() == self@[position - 1]);
                assert(front.drop_last() == self@.take(position - 1));
            }
            position = position - 1;
        }
        proof {
            let before = self@;
            let front = before.take(position as int);
            if position > 0 {
                assert(front.last() == before[position - 1]);
            }
            assert(insertion_point(before, entry.posting_date) == position);
            if sorted_by_date(before) {
                lemma_insertion_point(before, entry.posting_date, position as int);
                lemma_insert_keeps_order(before, entry);
            }
        }
        self.entries.insert(position, entry);
    }

    /// The position of the first entry posted on `date` with exactly the
    /// amount `amount` that is not paired yet.
    pub fn find_first_fit(&self, date: Date, amount: DecimalAmount) -> (r: Option<usize>)
        ensures
            match r {
                Some(p) => first_fit(self@, date, amount) == Some(p as int),
                None => first_fit(self@, date, amount) is None,
            },
    {
        let mut i: usize = 0;
        while i < self.entries.len()
            invariant
                i <= self.entries.len(),
                first_fit(self@, date, amount) == first_fit_from(self@, date, amount, i as int),
            decreases self.entries.len() - i,
        {
            let entry = &self.entries[i];
            if entry.posting_date.days == date.days && entry.is_not_matched()
                && entry.is_equal_amount(amount) {
                return Some(i);
            }
            i = i + 1;
        }
        None
    }

    /// Pairs the entry at `position` with `external` if it is not paired
    /// yet. An entry that is paired stays as it is, and so does every other.
    /// Returns whether it did pair.
    pub fn mark_matched(&mut self, position: usize, external: &ExternalTransaction) -> (r: bool)
        ensures
            r == (position < old(self)@.len() && old(self)@[position as int].external is None),
            r ==> final(self)@ == old(self)@.update(
                position as int,
                old(self)@[position as int].paired(*external),
            ),
            !r ==> final(self)@ == old(self)@,
            old(self).wf() ==> final(self).wf(),
    {
        if position >= self.entries.len() {
            return false;
        }
        let ghost before = self.entries@;
        let paired = self.entries[position].pair_with(external);
        proof {
            let after = self.entries@;
            if sorted_by_date(before) {
                assert forall|i: int, j: int| 0 <= i <= j < after.len() implies (
                #[trigger] after[i]).posting_date.days <= (#[trigger] after[j]).posting_date.days by {
                    assert(after[i].posting_date == before[i].posting_date);
                    assert(after[j].posting_date == before[j].posting_date);
                }
            }
        }
        paired
    }

    /// The entries that are not paired and were posted from `min` to `max`,
    /// both days included, in the order of the index. Without one of the
    /// two days, every entry that is not paired.
    pub fn unmatched_within(&self, min: Option<Date>, max: Option<Date>) -> (r: Vec<
        &TransactionPairing,
    >)
        ensures
            pointed_to(r@) == self@.filter(unmatched_test(min, max)),
            self.wf() ==> sorted_by_date(pointed_to(r@)),
    {
        proof {
            if self.wf() {
                lemma_filter_keeps_order(self@, unmatched_test(min, max));
            }
        }
        let mut found: Vec<&TransactionPairing> = Vec::new();
        let ghost test = unmatched_test(min, max);
        let mut i: usize = 0;
        proof {
            assert(self@.take(0).filter(test) =~= Seq::<TransactionPairing>::empty()) by {
                reveal(Seq::filter);
            }
            assert(pointed_to(found@) =~= Seq::<TransactionPairing>::empty());
        }
        while i < self.entries.len()
            invariant
                i <= self.entries.len(),
                test == unmatched_test(min, max),
                pointed_to(found@) == self@.take(i as int).filter(test),
            decreases self.entries.len() - i,
        {
            let entry = &self.entries[i];
            let within = match (min, max) {
                (Some(lo), Some(hi)) => lo.days <= entry.posting_date.days
                    && entry.posting_date.days <= hi.days,
                _ => true,
            };
            proof {
                let done = self@.take(i as int);
                assert(self@.take(i + 1) == done.push(self@[i as int]));
                done.lemma_filter_push(self@[i as int], test);
            }
            if within && entry.is_not_matched() {
                let ghost earlier = found@;
                found.push(entry);
                assert(pointed_to(found@) =~= pointed_to(earlier).push(*entry));
            }
            i = i + 1;
        }
        proof {
            assert(self@.take(i as int) == self@);
        }
        found
    }
}

} // verus!
