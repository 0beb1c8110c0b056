//! Creating the ledger transactions that are missing.
//!
//! For each external transaction without a ledger entry the operator is
//! asked what to do. The decisions are here, as a step from the state of
//! the dialogue and what happened to the next state; asking and writing
//! are the caller's.

use crate::amount::{
    lemma_pow10_adds, lemma_round_exact, lemma_round_negated, lemma_round_scaled, pow10,
    DecimalAmount,
};
use crate::dates::DateTime;
use crate::dbmodifier::{
    can_denominate, spec_create_split, spec_prepare, NewSplit, NewSplitView, NewTransaction,
    NewTransactionView,
};
use crate::external_models::{ExternalTransaction, Matching};
use crate::models::{Account, Commodities};
use crate::utils::{format_guid, spec_format_guid};
use vstd::prelude::*;

verus! {

/// What the operator answers when asked about one transaction.
#[derive(Clone, Copy, Debug, PartialEq, Eq, Structural)]
pub enum Answer {
    /// Create the transaction.
    Yes,
    /// Leave it out.
    No,
    /// Stop here.
    Abort,
    /// Create this one and all that follow, without asking again.
    All,
}

/// A key that the operator pressed.
#[derive(Clone, Copy, Debug, PartialEq, Eq, Structural)]
pub enum KeyPress {
    Char(char),
    Enter,
    Escape,
    Other,
}

impl Answer {
    /// The answer that a key gives; none for a key without meaning.
    pub open spec fn spec_from_key(key: KeyPress) -> Option<Answer> {
        match key {
            KeyPress::Enter => Some(Answer::Yes),
            KeyPress::Escape => Some(Answer::Abort),
            KeyPress::Char(c) => if c == 'y' || c == 'Y' {
                Some(Answer::Yes)
            } else if c == 'n' || c == 'N' {
                Some(Answer::No)
            } else if c == 'a' || c == 'A' {
                Some(Answer::Abort)
            } else if c == 'l' || c == 'L' {
                Some(Answer::All)
            } else {
                None
            },
            KeyPress::Other => None,
        }
    }

    /// The answer that a key gives: `y` or Enter for yes, `n` for no, `a`
    /// or Escape to stop, `l` for all; the letters in either case.
    pub fn from_key(key: KeyPress) -> (r: Option<Answer>)
        ensures
            r == Answer::spec_from_key(key),
    {
        match key {
            KeyPress::Enter => Some(Answer::Yes),
            KeyPress::Escape => Some(Answer::Abort),
            KeyPress::Char(c) => {
                if c == 'y' || c == 'Y' {
                    Some(Answer::Yes)
                } else if c == 'n' || c == 'N' {
                    Some(Answer::No)
                } else if c == 'a' || c == 'A' {
                    Some(Answer::Abort)
                } else if c == 'l' || c == 'L' {
                    Some(Answer::All)
                } else {
                    None
                }
            },
            KeyPress::Other => None,
        }
    }
}

/// Why no transaction can be created.
#[derive(Clone, Copy, Debug, PartialEq, Eq, Structural)]
pub enum FixError {
    /// The two accounts are not held in the same commodity.
    DifferentCommodities,
    /// The transaction carries a fee, and no fee account is given.
    MissingFeeAccount,
    /// The account has no commodity.
    MissingCommodity,
    /// The transaction has no amount.
    MissingAmount,
    /// An amount is too large to be computed with or to be written.
    AmountOutOfRange,
}

/// What the caller has to do next.
#[derive(Clone, Copy, Debug, PartialEq, Eq, Structural)]
pub enum FixUpState {
    /// Ask the operator about the transaction at `index`.
    Asking { index: usize },
    /// Create the transaction at `index`; `all` says that the operator
    /// asked for all that follow too.
    Creating { index: usize, all: bool },
    /// Nothing is left to do.
    Finished,
    /// The fix-up has stopped with an error.
    Failed { error: FixError },
}

/// What happened since the last step.
#[derive(Clone, Copy, Debug, PartialEq, Eq, Structural)]
pub enum FixUpEvent {
    /// The operator has answered.
    Answered(Answer),
    /// The transaction has been created.
    Created,
}

/// The identifiers of a new transaction and its splits, as they were generated.
#[derive(Debug, PartialEq, Eq)]
pub struct NewIdentifiers {
    pub transaction: String,
    pub main_split: String,
    pub counter_split: String,
    pub fee_split: String,
}

/// A balanced transaction, ready to be written: the transaction and its
/// two or three splits.
#[derive(Debug, PartialEq, Eq)]
pub struct PlannedTransaction {
    pub transaction: NewTransaction,
    pub splits: Vec<NewSplit>,
}

/// What is needed to create the missing transactions of one account.
pub struct AddTransactions<'a> {
    pub unmatched_transactions: &'a Vec<ExternalTransaction>,
    pub only_account: &'a Account,
    pub counter_account: &'a Account,
    pub fee_account: &'a Option<Account>,
}

/// Whether a transaction can be created as far as its fee goes: it has no
/// fee, a fee of zero, or there is a fee account.
pub open spec fn fee_is_configured(transaction: ExternalTransaction, fee_account: Option<Account>) -> bool {
    match transaction.transaction_fee {
        Some(fee) => fee.mantissa == 0 || fee_account is Some,
        None => true,
    }
}

/// The fee of a transaction; zero where it has none.
pub open spec fn fee_of(transaction: ExternalTransaction) -> DecimalAmount {
    match transaction.transaction_fee {
        Some(fee) => fee,
        None => DecimalAmount { mantissa: 0, scale: 0 },
    }
}

/// What is posted to the counterparty's account: the opposite of the
/// amount, less the fee; none where that cannot be computed exactly.
pub open spec fn counter_amount(amount: DecimalAmount, fee: DecimalAmount) -> Option<DecimalAmount> {
    if amount.mantissa != i128::MIN && amount.negated().difference_fits(fee) {
        Some(amount.negated().difference(fee))
    } else {
        None
    }
}

/// The three amounts of a transaction cancel: brought to the scale of the
/// counterparty's amount, the amount, the counterparty's amount and the
/// fee add up to zero.
pub proof fn lemma_amounts_balance(amount: DecimalAmount, fee: DecimalAmount)
    requires
        counter_amount(amount, fee) is Some,
    ensures
        ({
            let counter = counter_amount(amount, fee).unwrap();
            amount.scaled(counter.scale as nat) + counter.mantissa + fee.scaled(counter.scale as nat)
                == 0
        }),
{
    let counter = counter_amount(amount, fee).unwrap();
    let places = counter.scale as nat;
    let p = pow10((places - amount.scale) as nat);
    assert((-amount.mantissa) * p == -(amount.mantissa * p)) by (nonlinear_arith);
}

/// Whether `amount` is a whole number of units of `1 / denom`, so that
/// writing it in those units rounds nothing.
pub open spec fn is_whole_in(amount: DecimalAmount, denom: int) -> bool {
    (amount.mantissa * denom) % pow10(amount.scale as nat) == 0
}

/// The values of a transaction cancel where nothing is rounded.
///
/// If the amount and the fee are whole numbers of units of `1 / denom`,
/// then the numbers of units of the amount, of the counterparty's amount
/// and of the fee add up to zero.
pub proof fn lemma_values_balance(amount: DecimalAmount, fee: DecimalAmount, denom: int)
    requires
        counter_amount(amount, fee) is Some,
        is_whole_in(amount, denom),
        is_whole_in(fee, denom),
    ensures
        amount.times_rounded(denom) + counter_amount(amount, fee).unwrap().times_rounded(denom)
            + fee.times_rounded(denom) == 0,
{
    let counter = counter_amount(amount, fee).unwrap();
    let places = counter.scale as nat;
    let pa = pow10(amount.scale as nat);
    let pf = pow10(fee.scale as nat);
    let ua = pow10((places - amount.scale) as nat);
    let uf = pow10((places - fee.scale) as nat);
    let pp = pow10(places);
    lemma_pow10_adds(amount.scale as nat, (places - amount.scale) as nat);
    lemma_pow10_adds(fee.scale as nat, (places - fee.scale) as nat);
    let na = amount.mantissa * denom;
    let nf = fee.mantissa * denom;
    vstd::arithmetic::div_mod::lemma_fundamental_div_mod(na, pa);
    vstd::arithmetic::div_mod::lemma_fundamental_div_mod(nf, pf);
    let va = na / pa;
    let vf = nf / pf;
    assert(na == pa * va);
    assert(nf == pf * vf);
    assert(va * pa == na) by (nonlinear_arith)
        requires
            na == pa * va,
    ;
    assert(vf * pf == nf) by (nonlinear_arith)
        requires
            nf == pf * vf,
    ;
    lemma_round_exact(va, pa);
    lemma_round_exact(vf, pf);
    assert(amount.times_rounded(denom) == va);
    assert(fee.times_rounded(denom) == vf);
    assert(counter.mantissa == (-amount.mantissa) * ua - fee.mantissa * uf);
    let c = counter.mantissa as int;
    let a = amount.mantissa as int;
    let f = fee.mantissa as int;
    assert(c * denom == -(na * ua) - nf * uf) by (nonlinear_arith)
        requires
            c == (-a) * ua - f * uf,
            na == a * denom,
            nf == f * denom,
    ;
    assert(na * ua == va * pp) by (nonlinear_arith)
        requires
            na == pa * va,
            pp == pa * ua,
    ;
    assert(nf * uf == vf * pp) by (nonlinear_arith)
        requires
            nf == pf * vf,
            pp == pf * uf,
    ;
    assert(-(va * pp) - vf * pp == (-(va + vf)) * pp) by (nonlinear_arith);
    assert(counter.mantissa * denom == (-(va + vf)) * pp);
    lemma_round_exact(-(va + vf), pp);
}

/// Without a fee the values of a transaction cancel, whatever is rounded.
///
/// If the fee is zero, the numbers of units of `1 / denom` of the amount
/// and of the counterparty's amount add up to zero.
pub proof fn lemma_values_balance_without_fee(amount: DecimalAmount, fee: DecimalAmount, denom: int)
    requires
        counter_amount(amount, fee) is Some,
        fee.mantissa == 0,
    ensures
        amount.times_rounded(denom) + counter_amount(amount, fee).unwrap().times_rounded(denom)
            == 0,
{
    let counter = counter_amount(amount, fee).unwrap();
    let places = counter.scale as nat;
    let pa = pow10(amount.scale as nat);
    let ua = pow10((places - amount.scale) as nat);
    let uf = pow10((places - fee.scale) as nat);
    lemma_pow10_adds(amount.scale as nat, (places - amount.scale) as nat);
    let a = amount.mantissa as int;
    assert(fee.mantissa * uf == 0) by (nonlinear_arith)
        requires
            fee.mantissa == 0,
    ;
    assert(counter.mantissa == (-a) * ua);
    assert(counter.mantissa * denom == (-(a * denom)) * ua) by (nonlinear_arith)
        requires
            counter.mantissa == (-a) * ua,
    ;
    lemma_round_scaled(-(a * denom), pa, ua);
    lemma_round_negated(a * denom, pa);
}

impl<'a> AddTransactions<'a> {
    /// Whether the two accounts are held in the same commodity.
    pub open spec fn same_commodity(self) -> bool {
        self.only_account.same_commodity(*self.counter_account)
    }

    /// The state on coming to the transaction at `index`: finished behind
    /// the last one, failed where the fee account is missing, else
    /// creating or asking.
    pub open spec fn entering(self, index: int, all: bool) -> FixUpState {
        if index < 0 || index >= self.unmatched_transactions@.len() {
            FixUpState::Finished
        } else if !fee_is_configured(self.unmatched_transactions@[index], *self.fee_account) {
            FixUpState::Failed { error: FixError::MissingFeeAccount }
        } else if all {
            FixUpState::Creating { index: index as usize, all: true }
        } else {
            FixUpState::Asking { index: index as usize }
        }
    }

    /// The state in which the fix-up begins: failed where the accounts are
    /// held in different commodities.
    pub open spec fn spec_try_to_fix(self) -> FixUpState {
        if !self.same_commodity() {
            FixUpState::Failed { error: FixError::DifferentCommodities }
        } else {
            self.entering(0, false)
        }
    }

    /// The state after `event` has happened in `state`. An event that
    /// does not belong to the state changes nothing.
    pub open spec fn spec_advance(self, state: FixUpState, event: FixUpEvent) -> FixUpState {
        match (state, event) {
            (FixUpState::Asking { index }, FixUpEvent::Answered(answer)) => match answer {
                Answer::Yes => FixUpState::Creating { index, all: false },
                Answer::No => self.entering(index + 1, false),
                Answer::Abort => FixUpState::Finished,
                Answer::All => FixUpState::Creating { index, all: true },
            },
            (FixUpState::Creating { index, all }, FixUpEvent::Created) => self.entering(
                index + 1,
                all,
            ),
            _ => state,
        }
    }

    /// The state after the events, one after the other.
    pub open spec fn after_events(self, state: FixUpState, events: Seq<FixUpEvent>) -> FixUpState
        decreases events.len(),
    {
        if events.len() == 0 {
            state
        } else {
            self.spec_advance(self.after_events(state, events.drop_last()), events.last())
        }
    }

    fn enter(&self, index: usize, all: bool) -> (r: FixUpState)
        ensures
            r == self.entering(index as int, all),
    {
        if index >= self.unmatched_transactions.len() {
            FixUpState::Finished
        } else if self.check_fee_configured(&self.unmatched_transactions[index]).is_err() {
            FixUpState::Failed { error: FixError::MissingFeeAccount }
        } else if all {
            FixUpState::Creating { index, all: true }
        } else {
            FixUpState::Asking { index }
        }
    }

    /// Begins the fix-up. It fails at once, before anything is asked or
    /// created, if the two accounts are held in different commodities.
    pub fn try_to_fix(&self) -> (r: FixUpState)
        ensures
            r == self.spec_try_to_fix(),
            !self.same_commodity() <==> r == (FixUpState::Failed {
                error: FixError::DifferentCommodities,
            }),
    {
        if !self.only_account.has_commodity_of(self.counter_account) {
            FixUpState::Failed { error: FixError::DifferentCommodities }
        } else {
            self.enter(0, false)
        }
    }

    /// The next state, after the operator has answered or the transaction
    /// has been created. A fix-up that has failed or finished stays so.
    pub fn advance(&self, state: FixUpState, event: FixUpEvent) -> (r: FixUpState)
        ensures
            r == self.spec_advance(state, event),
            state is Failed || state is Finished ==> r == state,
    {
        let count = self.unmatched_transactions.len();
        match state {
            FixUpState::Asking { index } => match event {
                FixUpEvent::Answered(answer) => match answer {
                    Answer::Yes => FixUpState::Creating { index, all: false },
                    Answer::No => {
                        if index == usize::MAX {
                            FixUpState::Finished
                        } else {
                            self.enter(index + 1, false)
                        }
                    },
                    Answer::Abort => FixUpState::Finished,
                    Answer::All => FixUpState::Creating { index, all: true },
                },
                FixUpEvent::Created => state,
            },
            FixUpState::Creating { index, all } => match event {
                FixUpEvent::Created => {
                    if index == usize::MAX {
                        FixUpState::Finished
                    } else {
                        self.enter(index + 1, all)
                    }
                },
                FixUpEvent::Answered(_) => state,
            },
            _ => state,
        }
    }

    /// Whether the transaction can be created as far as its fee goes.
    pub fn check_fee_configured(&self, transaction: &ExternalTransaction) -> (r: Result<
        (),
        FixError,
    >)
        ensures
            r is Ok <==> fee_is_configured(*transaction, *self.fee_account),
            r matches Err(error) ==> error == FixError::MissingFeeAccount,
    {
        match (&transaction.transaction_fee, self.fee_account) {
            (Some(fee), None) => {
                if !fee.is_zero() {
                    Err(FixError::MissingFeeAccount)
                } else {
                    Ok(())
                }
            },
            _ => Ok(()),
        }
    }
}

/// The memo of a new transaction: the description of the external
/// transaction, or its category, or nothing.
pub open spec fn memo_of(transaction: ExternalTransaction) -> Seq<char> {
    match transaction.description {
        Some(d) => d@,
        None => match transaction.category {
            Some(c) => c@,
            None => Seq::empty(),
        },
    }
}

/// The posting date of a new transaction: noon of the day on which the
/// money was spent, where that day is known.
pub open spec fn posting_time_of(transaction: ExternalTransaction) -> Option<DateTime> {
    match transaction.matching_date(Matching::BySpending) {
        Some(day) => Some(DateTime { date: day, seconds: 43200, nanos: 0 }),
        None => None,
    }
}

/// Whether a split over `amount` can be written to `account`.
pub open spec fn can_post(amount: DecimalAmount, account: Account, commodity: Commodities) -> bool {
    can_denominate(amount, commodity.fraction) && can_denominate(amount, account.commodity_scu)
}

impl<'a> AddTransactions<'a> {
    /// The transaction and the splits that [`AddTransactions::add_transaction`]
    /// plans for an external transaction, or the reason why it plans none.
    ///
    /// The first split posts the amount to the account that is being
    /// reconciled, the second the opposite of the amount, less the fee, to
    /// the counterparty's account; a fee that is not zero is posted to the
    /// fee account by a third split.
    pub open spec fn spec_add_transaction(
        self,
        transaction: ExternalTransaction,
        commodity: Commodities,
        ids: NewIdentifiers,
        current_time: DateTime,
    ) -> Result<(NewTransactionView, Seq<NewSplitView>), FixError> {
        let fee = fee_of(transaction);
        let memo = memo_of(transaction);
        let tx_guid = spec_format_guid(ids.transaction@);
        if self.only_account.commodity_guid is None {
            Err(FixError::MissingCommodity)
        } else if transaction.amount is None {
            Err(FixError::MissingAmount)
        } else if counter_amount(transaction.amount.unwrap(), fee) is None {
            Err(FixError::AmountOutOfRange)
        } else if fee.mantissa != 0 && self.fee_account is None {
            Err(FixError::MissingFeeAccount)
        } else {
            let amount = transaction.amount.unwrap();
            let counter = counter_amount(amount, fee).unwrap();
            if !can_post(amount, *self.only_account, commodity) || !can_post(
                counter,
                *self.counter_account,
                commodity,
            ) || (fee.mantissa != 0 && !can_post(fee, self.fee_account.unwrap(), commodity)) {
                Err(FixError::AmountOutOfRange)
            } else {
                let main_split = spec_create_split(
                    spec_format_guid(ids.main_split@),
                    tx_guid,
                    *self.only_account,
                    memo,
                    commodity,
                    amount,
                );
                let counter_split = spec_create_split(
                    spec_format_guid(ids.counter_split@),
                    tx_guid,
                    *self.counter_account,
                    transaction.other_account_desc(),
                    commodity,
                    counter,
                );
                let fee_split = spec_create_split(
                    spec_format_guid(ids.fee_split@),
                    tx_guid,
                    self.fee_account.unwrap(),
                    memo,
                    commodity,
                    fee,
                );
                Ok(
                    (
                        spec_prepare(
                            tx_guid,
                            commodity.guid@,
                            posting_time_of(transaction),
                            current_time,
                            memo,
                        ),
                        if fee.mantissa != 0 {
                            seq![main_split, counter_split, fee_split]
                        } else {
                            seq![main_split, counter_split]
                        },
                    ),
                )
            }
        }
    }

    /// Plans the ledger transaction for an external transaction: the
    /// transaction itself and its splits, which cancel. `commodity` is the
    /// commodity of the account, `ids` are fresh identifiers and
    /// `current_time` is the time of entry.
    pub fn add_transaction(
        &self,
        transaction: &ExternalTransaction,
        commodity: &Commodities,
        ids: &NewIdentifiers,
        current_time: DateTime,
    ) -> (r: Result<PlannedTransaction, FixError>)
        ensures
            match r {
                Ok(planned) => self.spec_add_transaction(
                    *transaction,
                    *commodity,
                    *ids,
                    current_time,
                ) == Ok::<(NewTransactionView, Seq<NewSplitView>), FixError>(
                    (planned.transaction@, planned.splits@.map_values(|s: NewSplit| s@)),
                ),
                Err(error) => self.spec_add_transaction(
                    *transaction,
                    *commodity,
                    *ids,
                    current_time,
                ) == Err::<(NewTransactionView, Seq<NewSplitView>), FixError>(error),
            },
    {
        if self.only_account.commodity_guid.is_none() {
            return Err(FixError::MissingCommodity);
        }
        let amount = match transaction.get_amount() {
            Some(amount) => amount,
            None => {
                return Err(FixError::MissingAmount);
            },
        };
        let fee_value = match transaction.transaction_fee {
            Some(fee) => fee,
            None => DecimalAmount::from_i64(0),
        };
        assert(fee_value == fee_of(*transaction));
        let counter = match amount.checked_neg() {
            Some(negated) => match negated.checked_sub(&fee_value) {
                Some(counter) => counter,
                None => {
                    return Err(FixError::AmountOutOfRange);
                },
            },
            None => {
                return Err(FixError::AmountOutOfRange);
            },
        };
        let tr_guid = format_guid(ids.transaction.as_str());
        let description = match transaction.get_description_or_category() {
            Some(text) => text,
            None => String::new(),
        };
        assert(description@ == memo_of(*transaction));
        let spend_date = match transaction.get_matching_date(Matching::BySpending) {
            Some(d) => d.and_hms_opt(12, 0, 0),
            None => None,
        };
        assert(spend_date == posting_time_of(*transaction));
        let with_fee = !fee_value.is_zero();
        if with_fee && self.fee_account.is_none() {
            return Err(FixError::MissingFeeAccount);
        }
        let main_guid = format_guid(ids.main_split.as_str());
        let main_split = NewSplit::create_split(
            main_guid.as_str(),
            tr_guid.as_str(),
            self.only_account,
            description.as_str(),
            commodity,
            amount,
        );
        let counter_guid = format_guid(ids.counter_split.as_str());
        let counter_memo = transaction.get_other_account_desc();
        let counter_split = NewSplit::create_split(
            counter_guid.as_str(),
            tr_guid.as_str(),
            self.counter_account,
            counter_memo.as_str(),
            commodity,
            counter,
        );
        let mut splits: Vec<NewSplit> = Vec::new();
        match (main_split, counter_split) {
            (Some(first), Some(second)) => {
                splits.push(first);
                splits.push(second);
            },
            _ => {
                return Err(FixError::AmountOutOfRange);
            },
        }
        if with_fee {
            match self.fee_account {
                Some(account) => {
                    let fee_guid = format_guid(ids.fee_split.as_str());
                    match NewSplit::create_split(
                        fee_guid.as_str(),
                        tr_guid.as_str(),
                        account,
                        description.as_str(),
                        commodity,
                        fee_value,
                    ) {
                        Some(third) => {
                            splits.push(third);
                        },
                        None => {
                            return Err(FixError::AmountOutOfRange);
                        },
                    }
                },
                None => {
                    return Err(FixError::MissingFeeAccount);
                },
            }
        }
        let planned = PlannedTransaction {
            transaction: NewTransaction::prepare(
                tr_guid.as_str(),
                commodity.guid.as_str(),
                spend_date,
                current_time,
                description.as_str(),
            ),
            splits,
        };
        proof {
            let expected = self.spec_add_transaction(*transaction, *commodity, *ids, current_time);
            assert(expected is Ok);
            assert(planned.splits@.map_values(|s: NewSplit| s@) =~= expected.unwrap().1);
        }
        Ok(planned)
    }
}

/// The sum of the values of the splits.
pub open spec fn sum_of_values(splits: Seq<NewSplitView>) -> int
    decreases splits.len(),
{
    if splits.len() == 0 {
        0
    } else {
        sum_of_values(splits.drop_last()) + splits.last().value_num
    }
}

/// A planned transaction is balanced.
///
/// All its splits are valued in units of the commodity's fraction. The
/// values of the splits add up to zero if the transaction has no fee, or a
/// fee of zero; with a fee they do if the amount and the fee are whole
/// numbers of those units, so that nothing is rounded.
pub proof fn lemma_planned_is_balanced(
    fix: AddTransactions,
    transaction: ExternalTransaction,
    commodity: Commodities,
    ids: NewIdentifiers,
    current_time: DateTime,
)
    requires
        fix.spec_add_transaction(transaction, commodity, ids, current_time) is Ok,
        fee_of(transaction).mantissa == 0 || (is_whole_in(
            transaction.amount.unwrap(),
            commodity.fraction as int,
        ) && is_whole_in(fee_of(transaction), commodity.fraction as int)),
    ensures
        ({
            let splits = fix.spec_add_transaction(
                transaction,
                commodity,
                ids,
                current_time,
            ).unwrap().1;
            &&& sum_of_values(splits) == 0
            &&& forall|i: int|
                0 <= i < splits.len() ==> (#[trigger] splits[i]).value_denom == commodity.fraction
        }),
{
    let amount = transaction.amount.unwrap();
    let fee = fee_of(transaction);
    let splits = fix.spec_add_transaction(transaction, commodity, ids, current_time).unwrap().1;
    let counter = counter_amount(amount, fee).unwrap();
    let fraction = commodity.fraction as int;
    reveal_with_fuel(sum_of_values, 4);
    assert(splits[0].value_num == amount.times_rounded(fraction));
    assert(splits[1].value_num == counter.times_rounded(fraction));
    if fee.mantissa == 0 {
        lemma_values_balance_without_fee(amount, fee, fraction);
        assert(splits.drop_last() =~= seq![splits[0]]);
        assert(splits.drop_last().drop_last() =~= Seq::<NewSplitView>::empty());
    } else {
        lemma_values_balance(amount, fee, fraction);
        assert(splits[2].value_num == fee.times_rounded(fraction));
        assert(splits.drop_last() =~= seq![splits[0], splits[1]]);
        assert(splits.drop_last().drop_last() =~= seq![splits[0]]);
        assert(splits.drop_last().drop_last().drop_last() =~= Seq::<NewSplitView>::empty());
    }
}

/// A fix-up that has failed creates nothing, whatever happens afterwards:
/// it stays failed.
pub proof fn lemma_failed_stays_failed(
    fix: AddTransactions,
    error: FixError,
    events: Seq<FixUpEvent>,
)
    ensures
        fix.after_events(FixUpState::Failed { error }, events) == (FixUpState::Failed { error }),
    decreases events.len(),
{
    if events.len() > 0 {
        lemma_failed_stays_failed(fix, error, events.drop_last());
    }
}

/// Between accounts of different commodities the fix-up never comes to
/// create a transaction: it begins as failed and stays so.
pub proof fn lemma_no_transfer_between_commodities(fix: AddTransactions, events: Seq<FixUpEvent>)
    requires
        !fix.same_commodity(),
    ensures
        fix.after_events(fix.spec_try_to_fix(), events) == (FixUpState::Failed {
            error: FixError::DifferentCommodities,
        }),
        !(fix.after_events(fix.spec_try_to_fix(), events) is Creating),
{
    lemma_failed_stays_failed(fix, FixError::DifferentCommodities, events);
}

} // verus!
