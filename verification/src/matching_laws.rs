//! What holds of every run of the correlator.
//!
//! The statements are about [`after_pass`] and [`after_matching`], the
//! functions by which the correlator's operations are specified.

use crate::correlator::{after_matching, after_pass, after_rings, after_try, pairing_position, target};
use crate::external_models::{ExternalTransaction, Matching, TransactionPairing};
use crate::index::{is_candidate, lemma_first_fit_from};
use vstd::prelude::*;

verus! {

/// Whether `transaction`, tried `delta` days from its matching date, looks
/// for the day and the amount of `entry`.
pub open spec fn reaches(
    transaction: ExternalTransaction,
    matching: Matching,
    delta: int,
    entry: TransactionPairing,
) -> bool {
    match target(transaction, matching, delta) {
        Some((date, amount)) => entry.posting_date == date && entry.amount.same_value(amount),
        None => false,
    }
}

/// Whether `entry` is not paired and `transaction` reaches it.
pub open spec fn can_claim(
    transaction: ExternalTransaction,
    matching: Matching,
    delta: int,
    entry: TransactionPairing,
) -> bool {
    entry.external is None && reaches(transaction, matching, delta, entry)
}

/// Whether the entry at `position` had no partner in `before` and has one in `after`.
pub open spec fn newly_paired(
    before: Seq<TransactionPairing>,
    after: Seq<TransactionPairing>,
    position: int,
) -> bool {
    &&& 0 <= position < before.len()
    &&& position < after.len()
    &&& before[position].external is None
    &&& after[position].external is Some
}

/// Whether `after` holds the entries of `before`, each one either as it
/// was or, if it had no partner, paired: no partner is taken away or replaced.
pub open spec fn keeps_pairs(before: Seq<TransactionPairing>, after: Seq<TransactionPairing>) -> bool {
    &&& after.len() == before.len()
    &&& forall|p: int|
        0 <= p < before.len() ==> {
            ||| #[trigger] after[p] == before[p]
            ||| (before[p].external is None && after[p].external is Some && after[p] == before[p].paired(
                after[p].external.unwrap(),
            ))
        }
}

/// Whether each element of `part` is an element of `whole`.
pub open spec fn drawn_from(part: Seq<ExternalTransaction>, whole: Seq<ExternalTransaction>) -> bool {
    forall|i: int| 0 <= i < part.len() ==> whole.contains(#[trigger] part[i])
}

/// No partner is taken away or replaced over two stretches if none is over each.
pub proof fn lemma_keeps_pairs_transitive(
    a: Seq<TransactionPairing>,
    b: Seq<TransactionPairing>,
    c: Seq<TransactionPairing>,
)
    requires
        keeps_pairs(a, b),
        keeps_pairs(b, c),
    ensures
        keeps_pairs(a, c),
{
    assert forall|p: int| 0 <= p < a.len() implies {
        ||| #[trigger] c[p] == a[p]
        ||| (a[p].external is None && c[p].external is Some && c[p] == a[p].paired(
            c[p].external.unwrap(),
        ))
    } by {
        assert(b[p] == a[p] || b[p] == a[p].paired(b[p].external.unwrap()));
        assert(c[p] == b[p] || c[p] == b[p].paired(c[p].external.unwrap()));
    }
}

/// One try pairs the transaction with the first free entry that it reaches,
/// and changes nothing where there is none.
pub proof fn lemma_try(
    entries: Seq<TransactionPairing>,
    matching: Matching,
    delta: int,
    transaction: ExternalTransaction,
)
    ensures
        keeps_pairs(entries, after_try(entries, matching, delta, transaction)),
        match pairing_position(entries, matching, delta, transaction) {
            Some(p) => {
                &&& 0 <= p < entries.len()
                &&& can_claim(transaction, matching, delta, entries[p])
                &&& after_try(entries, matching, delta, transaction) == entries.update(
                    p,
                    entries[p].paired(transaction),
                )
                &&& forall|q: int|
                    0 <= q < p ==> !can_claim(transaction, matching, delta, #[trigger] entries[q])
            },
            None => {
                &&& after_try(entries, matching, delta, transaction) == entries
                &&& forall|q: int|
                    0 <= q < entries.len() ==> !can_claim(
                        transaction,
                        matching,
                        delta,
                        #[trigger] entries[q],
                    )
            },
        },
{
    match target(transaction, matching, delta) {
        Some((date, amount)) => {
            lemma_first_fit_from(entries, date, amount, 0);
            assert forall|q: int| 0 <= q < entries.len() implies can_claim(
                transaction,
                matching,
                delta,
                #[trigger] entries[q],
            ) == is_candidate(entries[q], date, amount) by {}
        },
        None => {},
    }
}

/// What one pass does.
///
/// No partner is taken away or replaced. An entry gets a partner only from
/// the working set, and only one that reaches it at the distance of the
/// pass. What is left over comes from the working set, and no transaction
/// is left over while a free entry that it reaches is left. A transaction
/// that reaches no free entry is left over.
pub proof fn lemma_pass(
    entries: Seq<TransactionPairing>,
    matching: Matching,
    delta: int,
    working_set: Seq<ExternalTransaction>,
)
    ensures
        keeps_pairs(entries, after_pass(entries, matching, delta, working_set).0),
        forall|p: int| #[trigger]
            newly_paired(entries, after_pass(entries, matching, delta, working_set).0, p) ==> {
                let partner = after_pass(entries, matching, delta, working_set).0[p].external.unwrap();
                working_set.contains(partner) && reaches(partner, matching, delta, entries[p])
            },
        drawn_from(after_pass(entries, matching, delta, working_set).1, working_set),
        forall|i: int, p: int|
            0 <= i < after_pass(entries, matching, delta, working_set).1.len() && 0 <= p
                < entries.len() ==> !can_claim(
                #[trigger] after_pass(entries, matching, delta, working_set).1[i],
                matching,
                delta,
                #[trigger] after_pass(entries, matching, delta, working_set).0[p],
            ),
        forall|j: int|
            0 <= j < working_set.len() && (forall|p: int|
                0 <= p < entries.len() ==> !can_claim(
                    working_set[j],
                    matching,
                    delta,
                    #[trigger] entries[p],
                )) ==> after_pass(entries, matching, delta, working_set).1.contains(
                #[trigger] working_set[j],
            ),
    decreases working_set.len(),
{
    let result = after_pass(entries, matching, delta, working_set);
    if working_set.len() == 0 {
        assert(result.0 == entries);
    } else {
        let shorter = working_set.drop_last();
        let last = working_set.last();
        let earlier = after_pass(entries, matching, delta, shorter);
        lemma_pass(entries, matching, delta, shorter);
        lemma_try(earlier.0, matching, delta, last);
        lemma_keeps_pairs_transitive(entries, earlier.0, result.0);
        assert(working_set[working_set.len() - 1] == last);
        assert forall|j: int| 0 <= j < shorter.len() implies working_set.contains(
            #[trigger] shorter[j],
        ) by {
            assert(working_set[j] == shorter[j]);
        }
        // An entry's day and amount are what they were.
        assert forall|p: int, x: ExternalTransaction| 0 <= p < entries.len() implies (
        #[trigger] reaches(x, matching, delta, earlier.0[p])) == reaches(
            x,
            matching,
            delta,
            entries[p],
        ) by {
            assert(earlier.0[p] == entries[p] || earlier.0[p] == entries[p].paired(
                earlier.0[p].external.unwrap(),
            ));
        }
        assert forall|p: int, x: ExternalTransaction| 0 <= p < entries.len() implies (
        #[trigger] reaches(x, matching, delta, result.0[p])) == reaches(
            x,
            matching,
            delta,
            entries[p],
        ) by {
            assert(result.0[p] == entries[p] || result.0[p] == entries[p].paired(
                result.0[p].external.unwrap(),
            ));
        }
        assert forall|p: int| #[trigger] newly_paired(entries, result.0, p) implies {
            let partner = result.0[p].external.unwrap();
            working_set.contains(partner) && reaches(partner, matching, delta, entries[p])
        } by {
            if newly_paired(entries, earlier.0, p) {
                let partner = earlier.0[p].external.unwrap();
                assert(shorter.contains(partner));
                let j = choose|j: int| 0 <= j < shorter.len() && shorter[j] == partner;
                assert(working_set[j] == partner);
                assert(result.0[p] == earlier.0[p]);
            } else {
                assert(earlier.0[p] == entries[p]);
                assert(result.0[p].external == Some(last));
                assert(reaches(last, matching, delta, earlier.0[p]));
            }
        }
        assert forall|i: int| 0 <= i < result.1.len() implies working_set.contains(
            #[trigger] result.1[i],
        ) by {
            if i < earlier.1.len() {
                assert(result.1[i] == earlier.1[i]);
                let j = choose|j: int| 0 <= j < shorter.len() && shorter[j] == earlier.1[i];
                assert(working_set[j] == shorter[j]);
            } else {
                assert(result.1[i] == last);
            }
        }
        assert forall|i: int, p: int| 0 <= i < result.1.len() && 0 <= p < entries.len() implies !can_claim(
            #[trigger] result.1[i],
            matching,
            delta,
            #[trigger] result.0[p],
        ) by {
            if i < earlier.1.len() {
                assert(result.1[i] == earlier.1[i]);
                assert(!can_claim(earlier.1[i], matching, delta, earlier.0[p]));
                assert(result.0[p] == earlier.0[p] || result.0[p].external is Some);
            } else {
                assert(result.1[i] == last);
                assert(result.0 == earlier.0);
                assert(!can_claim(last, matching, delta, earlier.0[p]));
            }
        }
        assert forall|j: int|
            0 <= j < working_set.len() && (forall|p: int|
                0 <= p < entries.len() ==> !can_claim(
                    working_set[j],
                    matching,
                    delta,
                    #[trigger] entries[p],
                )) implies result.1.contains(#[trigger] working_set[j]) by {
            if j < shorter.len() {
                assert(shorter[j] == working_set[j]);
                assert(earlier.1.contains(shorter[j]));
                let i = choose|i: int| 0 <= i < earlier.1.len() && earlier.1[i] == shorter[j];
                assert(result.1[i] == earlier.1[i]);
            } else {
                assert(working_set[j] == last);
                assert forall|p: int| 0 <= p < earlier.0.len() implies !can_claim(
                    last,
                    matching,
                    delta,
                    #[trigger] earlier.0[p],
                ) by {
                    assert(earlier.0[p] == entries[p] || earlier.0[p].external is Some);
                    assert(!can_claim(last, matching, delta, entries[p]));
                }
                assert(pairing_position(earlier.0, matching, delta, last) is None);
                assert(result.1 == earlier.1.push(last));
                assert(result.1[earlier.1.len() as int] == last);
            }
        }
    }
}

/// The distance, with its sign, of the pass number `n`: the passes go
/// `0, +1, -1, +2, -2` and so on.
pub open spec fn ring_delta(n: nat) -> int {
    if n % 2 == 1 {
        ((n + 1) / 2) as int
    } else {
        -(n / 2)
    }
}

/// The number of the pass at the distance `delta`.
pub open spec fn pass_number(delta: int) -> nat {
    if delta > 0 {
        (2 * delta - 1) as nat
    } else {
        (-2 * delta) as nat
    }
}

/// Each distance has one pass, and each pass one distance.
pub proof fn lemma_pass_number(delta: int, n: nat)
    ensures
        ring_delta(pass_number(delta)) == delta,
        pass_number(ring_delta(n)) == n,
{
}

/// Entries and working set after the first `n` passes, none left out.
pub open spec fn after_passes(
    entries: Seq<TransactionPairing>,
    matching: Matching,
    working_set: Seq<ExternalTransaction>,
    n: nat,
) -> (Seq<TransactionPairing>, Seq<ExternalTransaction>)
    decreases n,
{
    if n == 0 {
        (entries, working_set)
    } else {
        let earlier = after_passes(entries, matching, working_set, (n - 1) as nat);
        after_pass(earlier.0, matching, ring_delta((n - 1) as nat), earlier.1)
    }
}

/// A pass over no transactions changes nothing.
pub proof fn lemma_empty_pass(entries: Seq<TransactionPairing>, matching: Matching, delta: int)
    ensures
        after_pass(entries, matching, delta, Seq::empty()) == (
            entries,
            Seq::<ExternalTransaction>::empty(),
        ),
{
}

/// Passes on an empty working set change nothing.
proof fn lemma_passes_on_nothing(
    entries: Seq<TransactionPairing>,
    matching: Matching,
    working_set: Seq<ExternalTransaction>,
    from: nat,
    to: nat,
)
    requires
        from <= to,
        after_passes(entries, matching, working_set, from).1.len() == 0,
    ensures
        after_passes(entries, matching, working_set, to) == after_passes(
            entries,
            matching,
            working_set,
            from,
        ),
    decreases to - from,
{
    if from < to {
        lemma_passes_on_nothing(entries, matching, working_set, from, (to - 1) as nat);
        let earlier = after_passes(entries, matching, working_set, (to - 1) as nat);
        assert(earlier.1 =~= Seq::<ExternalTransaction>::empty());
    }
}

/// The passes at the distances beyond `done`, begun after the first
/// `2 * done + 1` passes, end where the first `2 * max + 1` passes end.
proof fn lemma_rings_are_passes(
    entries: Seq<TransactionPairing>,
    matching: Matching,
    working_set: Seq<ExternalTransaction>,
    done: nat,
    max: nat,
)
    requires
        done <= max,
    ensures
        ({
            let begun = after_passes(entries, matching, working_set, 2 * done + 1);
            after_rings(begun.0, matching, begun.1, done as int, max as int)
        }) == after_passes(entries, matching, working_set, 2 * max + 1),
    decreases max - done,
{
    let begun = after_passes(entries, matching, working_set, 2 * done + 1);
    if begun.1.len() == 0 {
        lemma_passes_on_nothing(entries, matching, working_set, 2 * done + 1, 2 * max + 1);
    } else if done < max {
        let later = after_pass(begun.0, matching, (done + 1) as int, begun.1);
        assert(ring_delta(2 * done + 1) == done + 1);
        assert(after_passes(entries, matching, working_set, 2 * done + 2) == later);
        let earlier = after_pass(later.0, matching, -(done + 1), later.1);
        assert(ring_delta(2 * done + 2) == -(done + 1));
        assert(after_passes(entries, matching, working_set, 2 * done + 3) == earlier);
        assert(2 * (done + 1) + 1 == 2 * done + 3);
        lemma_rings_are_passes(entries, matching, working_set, done + 1, max);
    }
}

/// The whole run with the largest distance `max` is the first `2 * max + 1` passes.
pub proof fn lemma_matching_is_passes(
    entries: Seq<TransactionPairing>,
    matching: Matching,
    working_set: Seq<ExternalTransaction>,
    max: nat,
)
    ensures
        after_matching(entries, matching, working_set, max as int) == after_passes(
            entries,
            matching,
            working_set,
            2 * max + 1,
        ),
{
    assert(after_passes(entries, matching, working_set, 0) == (entries, working_set));
    assert(ring_delta(0) == 0);
    assert(after_passes(entries, matching, working_set, 1) == after_pass(
        entries,
        matching,
        0,
        working_set,
    ));
    lemma_rings_are_passes(entries, matching, working_set, 0, max);
}

/// What any number of passes does.
///
/// No partner is taken away or replaced. An entry gets a partner only from
/// the working set, and only one that reaches it at the distance of one of
/// the passes. What is left over comes from the working set, and no
/// transaction is left over while a free entry is left that it reaches at
/// the distance of one of the passes.
pub proof fn lemma_passes(
    entries: Seq<TransactionPairing>,
    matching: Matching,
    working_set: Seq<ExternalTransaction>,
    n: nat,
)
    ensures
        keeps_pairs(entries, after_passes(entries, matching, working_set, n).0),
        forall|p: int| #[trigger]
            newly_paired(entries, after_passes(entries, matching, working_set, n).0, p) ==> {
                let partner = after_passes(entries, matching, working_set, n).0[p].external.unwrap();
                working_set.contains(partner) && exists|m: nat|
                    m < n && #[trigger] reaches(partner, matching, ring_delta(m), entries[p])
            },
        drawn_from(after_passes(entries, matching, working_set, n).1, working_set),
        forall|i: int, p: int, m: nat|
            0 <= i < after_passes(entries, matching, working_set, n).1.len() && 0 <= p
                < entries.len() && m < n ==> !#[trigger] can_claim(
                after_passes(entries, matching, working_set, n).1[i],
                matching,
                ring_delta(m),
                after_passes(entries, matching, working_set, n).0[p],
            ),
    decreases n,
{
    let result = after_passes(entries, matching, working_set, n);
    if n == 0 {
    } else {
        let earlier = after_passes(entries, matching, working_set, (n - 1) as nat);
        let delta = ring_delta((n - 1) as nat);
        lemma_passes(entries, matching, working_set, (n - 1) as nat);
        lemma_pass(earlier.0, matching, delta, earlier.1);
        lemma_keeps_pairs_transitive(entries, earlier.0, result.0);
        assert forall|p: int, x: ExternalTransaction, d: int| 0 <= p < entries.len() implies (
        #[trigger] reaches(x, matching, d, earlier.0[p])) == reaches(x, matching, d, entries[p]) by {
            assert(earlier.0[p] == entries[p] || earlier.0[p] == entries[p].paired(
                earlier.0[p].external.unwrap(),
            ));
        }
        assert forall|p: int| #[trigger] newly_paired(entries, result.0, p) implies {
            let partner = result.0[p].external.unwrap();
            working_set.contains(partner) && exists|m: nat|
                m < n && #[trigger] reaches(partner, matching, ring_delta(m), entries[p])
        } by {
            let partner = result.0[p].external.unwrap();
            if newly_paired(entries, earlier.0, p) {
                assert(result.0[p] == earlier.0[p]);
                let m = choose|m: nat|
                    m < n - 1 && #[trigger] reaches(partner, matching, ring_delta(m), entries[p]);
                assert(m < n && reaches(partner, matching, ring_delta(m), entries[p]));
            } else {
                assert(earlier.0[p] == entries[p]);
                assert(newly_paired(earlier.0, result.0, p));
                assert(earlier.1.contains(partner));
                let i = choose|i: int| 0 <= i < earlier.1.len() && earlier.1[i] == partner;
                assert(working_set.contains(earlier.1[i]));
                assert(reaches(partner, matching, ring_delta((n - 1) as nat), entries[p]));
            }
        }
        assert forall|i: int| 0 <= i < result.1.len() implies working_set.contains(
            #[trigger] result.1[i],
        ) by {
            assert(earlier.1.contains(result.1[i]));
            let k = choose|k: int| 0 <= k < earlier.1.len() && earlier.1[k] == result.1[i];
            assert(working_set.contains(earlier.1[k]));
        }
        assert forall|i: int, p: int, m: nat|
            0 <= i < result.1.len() && 0 <= p < entries.len() && m < n implies !#[trigger] can_claim(
            result.1[i],
            matching,
            ring_delta(m),
            result.0[p],
        ) by {
            if m < n - 1 {
                assert(earlier.1.contains(result.1[i]));
                let k = choose|k: int| 0 <= k < earlier.1.len() && earlier.1[k] == result.1[i];
                assert(!can_claim(earlier.1[k], matching, ring_delta(m), earlier.0[p]));
                assert(result.0[p] == earlier.0[p] || result.0[p].external is Some);
            } else {
                assert(!can_claim(result.1[i], matching, delta, result.0[p]));
            }
        }
    }
}

/// A pass leaves over no more transactions than it was given.
pub proof fn lemma_pass_leftover_len(
    entries: Seq<TransactionPairing>,
    matching: Matching,
    delta: int,
    working_set: Seq<ExternalTransaction>,
)
    ensures
        after_pass(entries, matching, delta, working_set).1.len() <= working_set.len(),
    decreases working_set.len(),
{
    if working_set.len() > 0 {
        lemma_pass_leftover_len(entries, matching, delta, working_set.drop_last());
    }
}

/// A run reports no more transactions as unmatched than it was given.
pub proof fn lemma_matching_leftover_len(
    entries: Seq<TransactionPairing>,
    matching: Matching,
    working_set: Seq<ExternalTransaction>,
    max: int,
)
    ensures
        after_matching(entries, matching, working_set, max).1.len() <= working_set.len(),
{
    let first = after_pass(entries, matching, 0, working_set);
    lemma_pass_leftover_len(entries, matching, 0, working_set);
    lemma_rings_leftover_len(first.0, matching, first.1, 0, max);
}

proof fn lemma_rings_leftover_len(
    entries: Seq<TransactionPairing>,
    matching: Matching,
    working_set: Seq<ExternalTransaction>,
    done: int,
    max: int,
)
    ensures
        after_rings(entries, matching, working_set, done, max).1.len() <= working_set.len(),
    decreases max - done,
{
    if working_set.len() != 0 && done < max {
        let later = after_pass(entries, matching, done + 1, working_set);
        lemma_pass_leftover_len(entries, matching, done + 1, working_set);
        let earlier = after_pass(later.0, matching, -(done + 1), later.1);
        lemma_pass_leftover_len(later.0, matching, -(done + 1), later.1);
        lemma_rings_leftover_len(earlier.0, matching, earlier.1, done + 1, max);
    }
}

/// A transaction reaches an entry at one distance only.
pub proof fn lemma_one_distance(
    transaction: ExternalTransaction,
    matching: Matching,
    entry: TransactionPairing,
    first: int,
    second: int,
)
    requires
        reaches(transaction, matching, first, entry),
        reaches(transaction, matching, second, entry),
    ensures
        first == second,
{
}

/// A pass pairs an entry with the transaction that alone reaches it, if
/// the entry is free and the transaction reaches no other free entry.
proof fn lemma_pass_claims(
    entries: Seq<TransactionPairing>,
    matching: Matching,
    delta: int,
    working_set: Seq<ExternalTransaction>,
    p: int,
    x: ExternalTransaction,
)
    requires
        0 <= p < entries.len(),
        entries[p].external is None,
        working_set.contains(x),
        reaches(x, matching, delta, entries[p]),
        forall|q: int|
            0 <= q < entries.len() && q != p ==> !can_claim(x, matching, delta, #[trigger] entries[q]),
        forall|j: int|
            0 <= j < working_set.len() && reaches(
                #[trigger] working_set[j],
                matching,
                delta,
                entries[p],
            ) ==> working_set[j] == x,
    ensures
        after_pass(entries, matching, delta, working_set).0[p] == entries[p].paired(x),
    decreases working_set.len(),
{
    let result = after_pass(entries, matching, delta, working_set);
    let shorter = working_set.drop_last();
    let last = working_set.last();
    let earlier = after_pass(entries, matching, delta, shorter);
    lemma_pass(entries, matching, delta, shorter);
    lemma_try(earlier.0, matching, delta, last);
    assert forall|j: int| 0 <= j < shorter.len() implies working_set[j] == #[trigger] shorter[j] by {}
    if shorter.contains(x) {
        lemma_pass_claims(entries, matching, delta, shorter, p, x);
        assert(result.0[p] == earlier.0[p]);
    } else {
        let j = choose|j: int| 0 <= j < working_set.len() && working_set[j] == x;
        if j < shorter.len() {
            assert(shorter[j] == x);
        }
        assert(last == x);
        if newly_paired(entries, earlier.0, p) {
            let partner = earlier.0[p].external.unwrap();
            assert(shorter.contains(partner));
            let k = choose|k: int| 0 <= k < shorter.len() && shorter[k] == partner;
            assert(working_set[k] == partner);
        }
        assert(earlier.0[p] == entries[p]);
        assert(can_claim(x, matching, delta, earlier.0[p]));
        assert forall|q: int| 0 <= q < entries.len() && q != p implies !can_claim(
            x,
            matching,
            delta,
            #[trigger] earlier.0[q],
        ) by {
            assert(earlier.0[q] == entries[q] || earlier.0[q].external is Some);
        }
        assert(pairing_position(earlier.0, matching, delta, x) == Some(p));
    }
}

/// A pass leaves a free entry free if no transaction of the working set
/// reaches it, and leaves a transaction over if it reaches no free entry.
proof fn lemma_pass_leaves(
    entries: Seq<TransactionPairing>,
    matching: Matching,
    delta: int,
    working_set: Seq<ExternalTransaction>,
    p: int,
    x: ExternalTransaction,
)
    requires
        0 <= p < entries.len(),
        entries[p].external is None,
        working_set.contains(x),
        forall|q: int| 0 <= q < entries.len() ==> !can_claim(x, matching, delta, #[trigger] entries[q]),
        forall|j: int|
            0 <= j < working_set.len() ==> !reaches(
                #[trigger] working_set[j],
                matching,
                delta,
                entries[p],
            ),
    ensures
        after_pass(entries, matching, delta, working_set).0[p] == entries[p],
        after_pass(entries, matching, delta, working_set).1.contains(x),
{
    let result = after_pass(entries, matching, delta, working_set);
    lemma_pass(entries, matching, delta, working_set);
    let j = choose|j: int| 0 <= j < working_set.len() && working_set[j] == x;
    assert(result.1.contains(working_set[j]));
    if newly_paired(entries, result.0, p) {
        let partner = result.0[p].external.unwrap();
        let k = choose|k: int| 0 <= k < working_set.len() && working_set[k] == partner;
        assert(!reaches(working_set[k], matching, delta, entries[p]));
    }
    assert(result.0[p] == entries[p]);
}

/// Whether, on the passes up to the one at the distance `delta`, the
/// transaction `x` reaches no free entry but the one at `p`, and no other
/// transaction of the working set reaches that entry.
pub open spec fn meant_for_each_other(
    entries: Seq<TransactionPairing>,
    matching: Matching,
    working_set: Seq<ExternalTransaction>,
    p: int,
    x: ExternalTransaction,
    delta: int,
) -> bool {
    &&& 0 <= p < entries.len()
    &&& entries[p].external is None
    &&& working_set.contains(x)
    &&& reaches(x, matching, delta, entries[p])
    &&& forall|q: int, m: nat|
        0 <= q < entries.len() && q != p && m <= pass_number(delta) ==> !#[trigger] can_claim(
            x,
            matching,
            ring_delta(m),
            entries[q],
        )
    &&& forall|j: int, m: nat|
        0 <= j < working_set.len() && m <= pass_number(delta) && #[trigger] reaches(
            working_set[j],
            matching,
            ring_delta(m),
            entries[p],
        ) ==> working_set[j] == x
}

/// Before the pass at their distance, the entry is free and the transaction waits.
proof fn lemma_both_wait(
    entries: Seq<TransactionPairing>,
    matching: Matching,
    working_set: Seq<ExternalTransaction>,
    p: int,
    x: ExternalTransaction,
    delta: int,
    n: nat,
)
    requires
        meant_for_each_other(entries, matching, working_set, p, x, delta),
        n <= pass_number(delta),
    ensures
        after_passes(entries, matching, working_set, n).0[p] == entries[p],
        after_passes(entries, matching, working_set, n).1.contains(x),
    decreases n,
{
    if n > 0 {
        let m = (n - 1) as nat;
        let earlier = after_passes(entries, matching, working_set, m);
        let here = ring_delta(m);
        lemma_both_wait(entries, matching, working_set, p, x, delta, m);
        lemma_passes(entries, matching, working_set, m);
        lemma_pass_number(delta, m);
        assert(here != delta);
        assert forall|q: int| 0 <= q < earlier.0.len() implies !can_claim(
            x,
            matching,
            here,
            #[trigger] earlier.0[q],
        ) by {
            assert(earlier.0[q] == entries[q] || earlier.0[q].external is Some);
            if q == p {
                if reaches(x, matching, here, entries[p]) {
                    lemma_one_distance(x, matching, entries[p], here, delta);
                }
            } else {
                assert(!can_claim(x, matching, ring_delta(m), entries[q]));
            }
        }
        assert forall|j: int| 0 <= j < earlier.1.len() implies !reaches(
            #[trigger] earlier.1[j],
            matching,
            here,
            earlier.0[p],
        ) by {
            assert(working_set.contains(earlier.1[j]));
            let k = choose|k: int| 0 <= k < working_set.len() && working_set[k] == earlier.1[j];
            if reaches(working_set[k], matching, ring_delta(m), entries[p]) {
                lemma_one_distance(x, matching, entries[p], here, delta);
            }
        }
        lemma_pass_leaves(earlier.0, matching, here, earlier.1, p, x);
    }
}

/// From the pass at their distance on, the entry is paired with the transaction.
proof fn lemma_paired_from_then_on(
    entries: Seq<TransactionPairing>,
    matching: Matching,
    working_set: Seq<ExternalTransaction>,
    p: int,
    x: ExternalTransaction,
    delta: int,
    n: nat,
)
    requires
        meant_for_each_other(entries, matching, working_set, p, x, delta),
        n > pass_number(delta),
    ensures
        after_passes(entries, matching, working_set, n).0[p] == entries[p].paired(x),
    decreases n,
{
    let m = (n - 1) as nat;
    let earlier = after_passes(entries, matching, working_set, m);
    let here = ring_delta(m);
    lemma_passes(entries, matching, working_set, m);
    lemma_pass(earlier.0, matching, here, earlier.1);
    if m == pass_number(delta) {
        lemma_both_wait(entries, matching, working_set, p, x, delta, m);
        lemma_pass_number(delta, m);
        assert forall|q: int| 0 <= q < earlier.0.len() && q != p implies !can_claim(
            x,
            matching,
            here,
            #[trigger] earlier.0[q],
        ) by {
            assert(earlier.0[q] == entries[q] || earlier.0[q].external is Some);
            assert(!can_claim(x, matching, ring_delta(m), entries[q]));
        }
        assert forall|j: int|
            0 <= j < earlier.1.len() && reaches(
                #[trigger] earlier.1[j],
                matching,
                here,
                earlier.0[p],
            ) implies earlier.1[j] == x by {
            assert(working_set.contains(earlier.1[j]));
            let k = choose|k: int| 0 <= k < working_set.len() && working_set[k] == earlier.1[j];
            assert(reaches(working_set[k], matching, ring_delta(m), entries[p]));
        }
        lemma_pass_claims(earlier.0, matching, here, earlier.1, p, x);
    } else {
        lemma_paired_from_then_on(entries, matching, working_set, p, x, delta, m);
        let result = after_passes(entries, matching, working_set, n);
        assert(result.0[p] == earlier.0[p]);
    }
}

/// An entry and a transaction that are meant for each other are paired.
///
/// Take a free entry and a transaction of the working set that reaches it
/// at a distance within `max`: the transaction has exactly the entry's
/// amount, and its matching date is that many days from the entry's
/// posting date. If, on the passes up to the one at that distance, the
/// transaction reaches no other free entry and no other transaction reaches
/// the entry, then the run pairs the two. So the pair is made on the pass
/// at their distance, not before, and no transaction that is further away
/// takes the entry first, wherever it stands in the working set.
pub proof fn lemma_paired_at_their_distance(
    entries: Seq<TransactionPairing>,
    matching: Matching,
    working_set: Seq<ExternalTransaction>,
    max: int,
    p: int,
    x: ExternalTransaction,
    delta: int,
)
    requires
        within(delta, max),
        meant_for_each_other(entries, matching, working_set, p, x, delta),
    ensures
        after_matching(entries, matching, working_set, max).0[p] == entries[p].paired(x),
        forall|n: nat|
            n <= pass_number(delta) ==> (#[trigger] after_passes(entries, matching, working_set, n)).0[p]
                == entries[p],
{
    lemma_matching_is_passes(entries, matching, working_set, max as nat);
    lemma_paired_from_then_on(entries, matching, working_set, p, x, delta, (2 * max + 1) as nat);
    assert forall|n: nat| n <= pass_number(delta) implies (#[trigger] after_passes(
        entries,
        matching,
        working_set,
        n,
    )).0[p] == entries[p] by {
        lemma_both_wait(entries, matching, working_set, p, x, delta, n);
    }
}

/// Whether `delta` is one of the distances of a run with the largest
/// distance `max`.
pub open spec fn within(delta: int, max: int) -> bool {
    -max <= delta <= max
}

/// A run takes no partner away and replaces none: an entry that has a
/// partner before the run has the same one after it, whatever the run is
/// given, and every other entry is as it was or has been paired once.
pub proof fn lemma_matching_keeps_pairs(
    entries: Seq<TransactionPairing>,
    matching: Matching,
    working_set: Seq<ExternalTransaction>,
    max: int,
)
    ensures
        keeps_pairs(entries, after_matching(entries, matching, working_set, max).0),
        forall|p: int|
            0 <= p < entries.len() && entries[p].external is Some ==> #[trigger] after_matching(
                entries,
                matching,
                working_set,
                max,
            ).0[p] == entries[p],
{
    let result = after_matching(entries, matching, working_set, max);
    if max >= 0 {
        lemma_matching_is_passes(entries, matching, working_set, max as nat);
        lemma_passes(entries, matching, working_set, (2 * max + 1) as nat);
    } else {
        lemma_pass(entries, matching, 0, working_set);
    }
    assert forall|p: int| 0 <= p < entries.len() && entries[p].external is Some implies #[trigger] result.0[p]
        == entries[p] by {}
}

/// A run on no external transactions leaves the index as it is and
/// reports nothing as unmatched.
pub proof fn lemma_nothing_to_match(entries: Seq<TransactionPairing>, matching: Matching, max: int)
    ensures
        after_matching(entries, matching, Seq::empty(), max) == (
            entries,
            Seq::<ExternalTransaction>::empty(),
        ),
{
    lemma_empty_pass(entries, matching, 0);
}

/// Every pair that a run makes is sound, and no pair within reach is missed.
///
/// An entry that the run pairs gets a transaction of the working set that
/// has exactly the entry's amount and whose matching date is at most `max`
/// days from the entry's posting date. The transactions reported as
/// unmatched come from the working set, and for none of them a free entry
/// of its amount is left within `max` days of its matching date.
pub proof fn lemma_matching_is_sound_and_complete(
    entries: Seq<TransactionPairing>,
    matching: Matching,
    working_set: Seq<ExternalTransaction>,
    max: int,
)
    requires
        max >= 0,
    ensures
        forall|p: int| #[trigger]
            newly_paired(entries, after_matching(entries, matching, working_set, max).0, p) ==> {
                let partner = after_matching(entries, matching, working_set, max).0[p].external.unwrap();
                working_set.contains(partner) && exists|delta: int|
                    within(delta, max) && #[trigger] reaches(partner, matching, delta, entries[p])
            },
        drawn_from(after_matching(entries, matching, working_set, max).1, working_set),
        forall|i: int, p: int, delta: int|
            0 <= i < after_matching(entries, matching, working_set, max).1.len() && 0 <= p
                < entries.len() && within(delta, max) ==> !#[trigger] can_claim(
                after_matching(entries, matching, working_set, max).1[i],
                matching,
                delta,
                after_matching(entries, matching, working_set, max).0[p],
            ),
{
    let n = (2 * max + 1) as nat;
    let result = after_matching(entries, matching, working_set, max);
    lemma_matching_is_passes(entries, matching, working_set, max as nat);
    lemma_passes(entries, matching, working_set, n);
    assert forall|p: int| #[trigger] newly_paired(entries, result.0, p) implies {
        let partner = result.0[p].external.unwrap();
        working_set.contains(partner) && exists|delta: int|
            within(delta, max) && #[trigger] reaches(partner, matching, delta, entries[p])
    } by {
        let partner = result.0[p].external.unwrap();
        let m = choose|m: nat|
            m < n && #[trigger] reaches(partner, matching, ring_delta(m), entries[p]);
        assert(within(ring_delta(m), max));
    }
    assert forall|i: int, p: int, delta: int|
        0 <= i < result.1.len() && 0 <= p < entries.len() && within(delta, max) implies !#[trigger] can_claim(
        result.1[i],
        matching,
        delta,
        result.0[p],
    ) by {
        let m = pass_number(delta);
        lemma_pass_number(delta, m);
        assert(m < n);
        assert(!can_claim(result.1[i], matching, ring_delta(m), result.0[p]));
    }
}

} // verus!
