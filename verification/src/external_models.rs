//! Transactions as a bank's export reports them, and ledger entries as the
//! correlator sees them.

use crate::amount::{decimal_text, DecimalAmount};
use crate::dates::{formatted_day_number, Date};
use crate::models::{Split, Transaction};
use crate::text::{clone_text, text_view};
use vstd::prelude::*;
use vstd::string::StringExecFns;

verus! {

/// Which of an external transaction's dates is compared with the posting
/// dates of the ledger.
#[derive(Clone, Copy, Debug, PartialEq, Eq, Structural)]
pub enum Matching {
    /// The date that the bank reports.
    ByBooking,
    /// The date found in the description, where there is one.
    BySpending,
}

impl Matching {
    /// The rule that the flag "by booking date" selects.
    pub fn from_booking_flag(by_booking_date: bool) -> (r: Matching)
        ensures
            r == if by_booking_date {
                Matching::ByBooking
            } else {
                Matching::BySpending
            },
    {
        if by_booking_date {
            Matching::ByBooking
        } else {
            Matching::BySpending
        }
    }
}

/// The sheet to read: the one that is asked for, or the first of the
/// workbook; none where none is asked for and the workbook has no sheet.
pub fn pick_sheet_name(maybe_sheet_name: Option<String>, sheet_names: &Vec<String>) -> (r: Option<
    String,
>)
    ensures
        r == match maybe_sheet_name {
            Some(name) => Some(name),
            None => if sheet_names@.len() > 0 {
                Some(sheet_names@[0])
            } else {
                None
            },
        },
{
    match maybe_sheet_name {
        Some(name) => Some(name),
        None => {
            if sheet_names.len() > 0 {
                Some(sheet_names[0].clone())
            } else {
                None
            }
        },
    }
}

/// One transaction of the external source.
#[derive(Debug, PartialEq, Eq)]
pub struct ExternalTransaction {
    pub date: Option<Date>,
    pub booking_date: Option<Date>,
    pub amount: Option<DecimalAmount>,
    pub category: Option<String>,
    pub description: Option<String>,
    pub other_account: Option<String>,
    pub other_account_name: Option<String>,
    pub textual_date: Option<Date>,
    pub transaction_fee: Option<DecimalAmount>,
}

/// An external transaction with its texts as sequences of characters.
pub ghost struct ExternalTransactionView {
    pub date: Option<Date>,
    pub booking_date: Option<Date>,
    pub amount: Option<DecimalAmount>,
    pub category: Option<Seq<char>>,
    pub description: Option<Seq<char>>,
    pub other_account: Option<Seq<char>>,
    pub other_account_name: Option<Seq<char>>,
    pub textual_date: Option<Date>,
    pub transaction_fee: Option<DecimalAmount>,
}

impl View for ExternalTransaction {
    type V = ExternalTransactionView;

    open spec fn view(&self) -> ExternalTransactionView {
        ExternalTransactionView {
            date: self.date,
            booking_date: self.booking_date,
            amount: self.amount,
            category: text_view(self.category),
            description: text_view(self.description),
            other_account: text_view(self.other_account),
            other_account_name: text_view(self.other_account_name),
            textual_date: self.textual_date,
            transaction_fee: self.transaction_fee,
        }
    }
}

impl Clone for ExternalTransaction {
    fn clone(&self) -> (r: Self)
        ensures
            r == *self,
    {
        ExternalTransaction {
            date: self.date,
            booking_date: self.booking_date,
            amount: self.amount,
            category: clone_text(&self.category),
            description: clone_text(&self.description),
            other_account: clone_text(&self.other_account),
            other_account_name: clone_text(&self.other_account_name),
            textual_date: self.textual_date,
            transaction_fee: self.transaction_fee,
        }
    }
}

/// A date in the form `2024-01-10`, or ten dashes where there is no date or
/// the calendar cannot name the day.
pub open spec fn day_or_dashes(date: Option<Date>) -> Seq<char> {
    match date {
        Some(d) => match formatted_day_number(d.days, "%Y-%m-%d"@) {
            Some(text) => text,
            None => "----------"@,
        },
        None => "----------"@,
    }
}

/// An amount as text; empty where there is no amount or it cannot be written.
pub open spec fn amount_text(amount: Option<DecimalAmount>) -> Option<Seq<char>> {
    match amount {
        Some(a) => decimal_text(a.mantissa, a.scale),
        None => None,
    }
}

fn push_day_or_dashes(out: &mut String, date: Option<Date>)
    ensures
        final(out)@ == old(out)@ + day_or_dashes(date),
{
    let text = match date {
        Some(d) => d.format("%Y-%m-%d"),
        None => None,
    };
    match text {
        Some(t) => out.append(t.as_str()),
        None => out.append("----------"),
    }
}

impl ExternalTransaction {
    /// The date by which the transaction is matched: the reported date, or,
    /// by spending, the date from the description where there is one.
    pub open spec fn matching_date(self, matching: Matching) -> Option<Date> {
        match matching {
            Matching::ByBooking => self.date,
            Matching::BySpending => match self.textual_date {
                Some(d) => Some(d),
                None => self.date,
            },
        }
    }

    pub fn get_matching_date(&self, matching: Matching) -> (r: Option<Date>)
        ensures
            r == self.matching_date(matching),
    {
        match matching {
            Matching::ByBooking => self.date,
            Matching::BySpending => match self.textual_date {
                Some(d) => Some(d),
                None => self.date,
            },
        }
    }

    /// The description, or the category where there is no description.
    pub fn get_description_or_category(&self) -> (r: Option<String>)
        ensures
            r == match self.description {
                Some(d) => Some(d),
                None => self.category,
            },
    {
        match &self.description {
            Some(d) => Some(d.clone()),
            None => clone_text(&self.category),
        }
    }

    pub fn get_amount(&self) -> (r: Option<DecimalAmount>)
        ensures
            r == self.amount,
    {
        self.amount
    }

    /// What [`ExternalTransaction::get_other_account_desc`] writes.
    pub open spec fn other_account_desc(self) -> Seq<char> {
        match (self.other_account, self.other_account_name) {
            (Some(acc), Some(name)) => acc@ + " - "@ + name@,
            (None, Some(name)) => name@,
            (Some(acc), None) => acc@,
            (None, None) => Seq::empty(),
        }
    }

    /// The other party: account number and name, with a hyphen between them
    /// where both are known.
    pub fn get_other_account_desc(&self) -> (r: String)
        ensures
            r@ == self.other_account_desc(),
    {
        match (&self.other_account, &self.other_account_name) {
            (Some(acc), Some(name)) => {
                let mut res = acc.clone();
                res.append(" - ");
                res.append(name.as_str());
                res
            },
            (None, Some(name)) => name.clone(),
            (Some(acc), None) => acc.clone(),
            (None, None) => String::new(),
        }
    }

    /// What [`ExternalTransaction::to_text`] writes.
    pub open spec fn spec_to_text(self) -> Seq<char> {
        day_or_dashes(self.date) + " "@ + day_or_dashes(self.textual_date) + (match amount_text(
            self.amount,
        ) {
            Some(t) => " "@ + t,
            None => Seq::empty(),
        }) + (match amount_text(self.transaction_fee) {
            Some(t) => " (fee: "@ + t + ")"@,
            None => Seq::empty(),
        }) + (match self.category {
            Some(c) => " ["@ + c@ + "]"@,
            None => Seq::empty(),
        }) + (match self.description {
            Some(d) => " - "@ + d@,
            None => Seq::empty(),
        })
    }

    /// The transaction on one line: its two dates (dashes for a missing
    /// one), then amount, fee, category and description as far as it has them.
    pub fn to_text(&self) -> (r: String)
        ensures
            r@ == self.spec_to_text(),
    {
        let mut out = String::new();
        push_day_or_dashes(&mut out, self.date);
        out.append(" ");
        push_day_or_dashes(&mut out, self.textual_date);
        let amount = match &self.amount {
            Some(a) => a.to_text(),
            None => None,
        };
        match amount {
            Some(t) => {
                out.append(" ");
                out.append(t.as_str());
            },
            None => {},
        }
        let fee = match &self.transaction_fee {
            Some(a) => a.to_text(),
            None => None,
        };
        match fee {
            Some(t) => {
                out.append(" (fee: ");
                out.append(t.as_str());
                out.append(")");
            },
            None => {},
        }
        match &self.category {
            Some(c) => {
                out.append(" [");
                out.append(c.as_str());
                out.append("]");
            },
            None => {},
        }
        match &self.description {
            Some(d) => {
                out.append(" - ");
                out.append(d.as_str());
            },
            None => {},
        }
        assert(out@ =~= self.spec_to_text());
        out
    }
}

/// The transactions of one export, with the earliest and the latest of
/// their matching dates.
#[derive(Debug)]
pub struct ExternalTransactionList(
    pub Vec<ExternalTransaction>,
    pub Option<Date>,
    pub Option<Date>,
);

/// Whether some transaction of `transactions` has the matching date `date`.
pub open spec fn has_matching_date(
    transactions: Seq<ExternalTransaction>,
    matching: Matching,
    date: Date,
) -> bool {
    exists|i: int|
        0 <= i < transactions.len() && #[trigger] transactions[i].matching_date(matching) == Some(
            date,
        )
}

/// Whether `min` and `max` are the earliest and the latest matching date of
/// `transactions`: both absent where no transaction has a matching date.
pub open spec fn is_date_range(
    transactions: Seq<ExternalTransaction>,
    matching: Matching,
    min: Option<Date>,
    max: Option<Date>,
) -> bool {
    &&& (min is None) == (max is None)
    &&& min is None ==> forall|i: int|
        0 <= i < transactions.len() ==> (#[trigger] transactions[i].matching_date(matching))
            is None
    &&& min matches Some(lo) ==> {
        &&& has_matching_date(transactions, matching, lo)
        &&& forall|i: int|
            0 <= i < transactions.len() ==> (#[trigger] transactions[i].matching_date(
                matching,
            ) matches Some(d) ==> lo.days <= d.days)
    }
    &&& max matches Some(hi) ==> {
        &&& has_matching_date(transactions, matching, hi)
        &&& forall|i: int|
            0 <= i < transactions.len() ==> (#[trigger] transactions[i].matching_date(
                matching,
            ) matches Some(d) ==> d.days <= hi.days)
    }
}

impl ExternalTransactionList {
    /// The list of `transactions` with the range of their matching dates.
    pub fn new(transactions: Vec<ExternalTransaction>, matching: Matching) -> (r: Self)
        ensures
            r.0 == transactions,
            is_date_range(transactions@, matching, r.1, r.2),
    {
        let (min, max) = find_min_max(&transactions, matching);
        ExternalTransactionList(transactions, min, max)
    }
}

/// The earliest and the latest matching date among `transactions`.
pub fn find_min_max(transactions: &Vec<ExternalTransaction>, matching: Matching) -> (r: (
    Option<Date>,
    Option<Date>,
))
    ensures
        is_date_range(transactions@, matching, r.0, r.1),
{
    let mut min: Option<Date> = None;
    let mut max: Option<Date> = None;
    let mut i: usize = 0;
    while i < transactions.len()
        invariant
            i <= transactions.len(),
            is_date_range(transactions@.take(i as int), matching, min, max),
        decreases transactions.len() - i,
    {
        let ghost before = transactions@.take(i as int);
        let ghost after = transactions@.take(i + 1);
        proof {
            assert(after.len() == i + 1);
            assert forall|j: int| 0 <= j < i implies #[trigger] after[j] == before[j] by {}
            assert(after[i as int] == transactions@[i as int]);
            if let Some(lo) = min {
                let w = choose|w: int|
                    0 <= w < before.len() && #[trigger] before[w].matching_date(matching) == Some(
                        lo,
                    );
                assert(after[w].matching_date(matching) == Some(lo));
            }
            if let Some(hi) = max {
                let w = choose|w: int|
                    0 <= w < before.len() && #[trigger] before[w].matching_date(matching) == Some(
                        hi,
                    );
                assert(after[w].matching_date(matching) == Some(hi));
            }
        }
        match transactions[i].get_matching_date(matching) {
            Some(d) => {
                proof {
                    assert(after[i as int].matching_date(matching) == Some(d));
                }
                min = match min {
                    Some(lo) => if d.days < lo.days {
                        Some(d)
                    } else {
                        Some(lo)
                    },
                    None => Some(d),
                };
                max = match max {
                    Some(hi) => if d.days > hi.days {
                        Some(d)
                    } else {
                        Some(hi)
                    },
                    None => Some(d),
                };
            },
            None => {},
        }
        i = i + 1;
        proof {
            assert forall|j: int| 0 <= j < after.len() implies (#[trigger] after[j].matching_date(
                matching,
            ) matches Some(d) ==> min matches Some(lo) && max matches Some(hi) && lo.days <= d.days
                <= hi.days) by {
                if j < i - 1 {
                    assert(after[j] == before[j]);
                }
            }
        }
    }
    proof {
        assert(transactions@.take(i as int) == transactions@);
    }
    (min, max)
}

/// Why a row of the ledger cannot become an entry of the index.
#[derive(Clone, Copy, Debug, PartialEq, Eq, Structural)]
pub enum RowProblem {
    /// The transaction has no posting date.
    MissingPostDate,
    /// The posting date is in neither of the ledger's two forms.
    MalformedPostDate,
    /// The quantity has no decimal value; a zero denominator is one cause.
    NoQuantity,
}

/// A ledger split with its transaction, the day it was posted, its quantity
/// as a decimal, and the external transaction it has been paired with.
#[derive(Debug, PartialEq, Eq)]
pub struct TransactionPairing {
    pub transaction: Transaction,
    pub split: Split,
    pub external: Option<ExternalTransaction>,
    pub amount: DecimalAmount,
    pub posting_date: Date,
}

impl TransactionPairing {
    /// What [`TransactionPairing::new`] makes of a row.
    pub open spec fn spec_new(pair: (Split, Transaction)) -> Result<
        TransactionPairing,
        RowProblem,
    > {
        match pair.1.spec_posting() {
            None => Err(
                if pair.1.post_date is None {
                    RowProblem::MissingPostDate
                } else {
                    RowProblem::MalformedPostDate
                },
            ),
            Some(posted) => match DecimalAmount::spec_from_ratio(
                pair.0.quantity_num,
                pair.0.quantity_denom,
            ) {
                None => Err(RowProblem::NoQuantity),
                Some(amount) => Ok(
                    TransactionPairing {
                        transaction: pair.1,
                        split: pair.0,
                        external: None,
                        amount,
                        posting_date: posted.date,
                    },
                ),
            },
        }
    }

    /// The unpaired entry for a split and its transaction, or the reason
    /// why the row has none.
    pub fn new(pair: (Split, Transaction)) -> (r: Result<TransactionPairing, RowProblem>)
        ensures
            r == TransactionPairing::spec_new(pair),
            pair.1.spec_posting() is Some && pair.0.quantity_denom == 0 ==> r == Err::<
                TransactionPairing,
                RowProblem,
            >(RowProblem::NoQuantity),
    {
        let (split, transaction) = pair;
        match transaction.posting() {
            None => {
                if transaction.post_date.is_none() {
                    Err(RowProblem::MissingPostDate)
                } else {
                    Err(RowProblem::MalformedPostDate)
                }
            },
            Some(posted) => match split.get_quantity_as_decimal() {
                None => Err(RowProblem::NoQuantity),
                Some(amount) => Ok(
                    TransactionPairing {
                        transaction,
                        split,
                        external: None,
                        amount,
                        posting_date: posted.date(),
                    },
                ),
            },
        }
    }

    /// Whether the entry's amount is exactly `amount`, as numbers: `10.00`
    /// is `10`, and `10.001` is not.
    pub fn is_equal_amount(&self, amount: DecimalAmount) -> (r: bool)
        ensures
            r == self.amount.same_value(amount),
    {
        proof {
            assert(self.amount.same_value(amount) == amount.same_value(self.amount));
        }
        amount.is_equal(&self.amount)
    }

    pub fn is_not_matched(&self) -> (r: bool)
        ensures
            r == (self.external is None),
    {
        self.external.is_none()
    }

    /// The entry paired with `external_trans`.
    pub open spec fn paired(self, external_trans: ExternalTransaction) -> TransactionPairing {
        TransactionPairing {
            transaction: self.transaction,
            split: self.split,
            external: Some(external_trans),
            amount: self.amount,
            posting_date: self.posting_date,
        }
    }

    /// Pairs the entry with `external_trans` if it is not paired yet, and
    /// leaves it as it is otherwise. Returns whether it did pair.
    pub fn pair_with(&mut self, external_trans: &ExternalTransaction) -> (r: bool)
        ensures
            r == (old(self).external is None),
            r ==> *final(self) == old(self).paired(*external_trans),
            !r ==> *final(self) == *old(self),
    {
        if self.external.is_none() {
            self.external = Some(external_trans.clone());
            true
        } else {
            false
        }
    }
}

} // verus!
