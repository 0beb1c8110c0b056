//! The rows that are written to the ledger for a new transaction.

use crate::amount::DecimalAmount;
use crate::dates::DateTime;
use crate::models::{Account, Commodities};
use crate::utils::{format_sqlite_date, spec_format_sqlite_date, DenominatedValue};
use vstd::prelude::*;

verus! {

/// A split to be written: one leg of a new transaction.
#[derive(Debug, PartialEq, Eq)]
pub struct NewSplit {
    pub guid: String,
    pub tx_guid: String,
    pub account_guid: String,
    pub memo: String,
    pub action: String,
    pub reconcile_state: String,
    pub reconcile_date: String,
    pub value_num: i64,
    pub value_denom: i64,
    pub quantity_num: i64,
    pub quantity_denom: i64,
    pub lot_guid: String,
}

/// A transaction to be written.
#[derive(Debug, PartialEq, Eq)]
pub struct NewTransaction {
    pub guid: String,
    pub currency_guid: String,
    pub num: String,
    pub post_date: String,
    pub enter_date: String,
    pub description: String,
}

/// A new split with its texts as sequences of characters.
pub ghost struct NewSplitView {
    pub guid: Seq<char>,
    pub tx_guid: Seq<char>,
    pub account_guid: Seq<char>,
    pub memo: Seq<char>,
    pub action: Seq<char>,
    pub reconcile_state: Seq<char>,
    pub reconcile_date: Seq<char>,
    pub value_num: i64,
    pub value_denom: i64,
    pub quantity_num: i64,
    pub quantity_denom: i64,
    pub lot_guid: Seq<char>,
}

/// A new transaction with its texts as sequences of characters.
pub ghost struct NewTransactionView {
    pub guid: Seq<char>,
    pub currency_guid: Seq<char>,
    pub num: Seq<char>,
    pub post_date: Seq<char>,
    pub enter_date: Seq<char>,
    pub description: Seq<char>,
}

impl View for NewSplit {
    type V = NewSplitView;

    open spec fn view(&self) -> NewSplitView {
        NewSplitView {
            guid: self.guid@,
            tx_guid: self.tx_guid@,
            account_guid: self.account_guid@,
            memo: self.memo@,
            action: self.action@,
            reconcile_state: self.reconcile_state@,
            reconcile_date: self.reconcile_date@,
            value_num: self.value_num,
            value_denom: self.value_denom,
            quantity_num: self.quantity_num,
            quantity_denom: self.quantity_denom,
            lot_guid: self.lot_guid@,
        }
    }
}

impl View for NewTransaction {
    type V = NewTransactionView;

    open spec fn view(&self) -> NewTransactionView {
        NewTransactionView {
            guid: self.guid@,
            currency_guid: self.currency_guid@,
            num: self.num@,
            post_date: self.post_date@,
            enter_date: self.enter_date@,
            description: self.description@,
        }
    }
}

/// The split that [`NewSplit::new_with_defaults`] makes: not reconciled,
/// without action and lot.
pub open spec fn split_with_defaults(
    guid: Seq<char>,
    tx_guid: Seq<char>,
    account_guid: Seq<char>,
    memo: Seq<char>,
    value: DenominatedValue,
    quantity: DenominatedValue,
) -> NewSplitView {
    NewSplitView {
        guid,
        tx_guid,
        account_guid,
        memo,
        action: Seq::empty(),
        reconcile_state: seq!['n'],
        reconcile_date: Seq::empty(),
        value_num: value.value,
        value_denom: value.denom,
        quantity_num: quantity.value,
        quantity_denom: quantity.denom,
        lot_guid: Seq::empty(),
    }
}

/// Whether `amount` can be written in units of `1 / denom`; see
/// [`DenominatedValue::denominate_decimal`].
pub open spec fn can_denominate(amount: DecimalAmount, denom: i32) -> bool {
    &&& i128::MIN <= amount.mantissa * denom <= i128::MAX
    &&& i64::MIN <= amount.times_rounded(denom as int) <= i64::MAX
}

/// The split that [`NewSplit::create_split`] makes: the value is the
/// amount in units of the commodity's fraction, the quantity the amount in
/// the account's smallest units.
pub open spec fn spec_create_split(
    split_guid: Seq<char>,
    tx_guid: Seq<char>,
    account: Account,
    memo: Seq<char>,
    currency: Commodities,
    amount: DecimalAmount,
) -> NewSplitView {
    split_with_defaults(
        split_guid,
        tx_guid,
        account.guid@,
        memo,
        DenominatedValue {
            value: amount.times_rounded(currency.fraction as int) as i64,
            denom: currency.fraction as i64,
        },
        DenominatedValue {
            value: amount.times_rounded(account.commodity_scu as int) as i64,
            denom: account.commodity_scu as i64,
        },
    )
}

impl NewSplit {
    pub fn new_with_defaults(
        guid: &str,
        tx_guid: &str,
        account_guid: &str,
        memo: &str,
        value: DenominatedValue,
        quantity: DenominatedValue,
    ) -> (r: Self)
        ensures
            r@ == split_with_defaults(guid@, tx_guid@, account_guid@, memo@, value, quantity),
    {
        proof {
            reveal_strlit("");
            reveal_strlit("n");
            assert(""@ =~= Seq::<char>::empty());
            assert("n"@ =~= seq!['n']);
        }
        NewSplit {
            guid: guid.to_owned(),
            tx_guid: tx_guid.to_owned(),
            account_guid: account_guid.to_owned(),
            memo: memo.to_owned(),
            action: "".to_owned(),
            reconcile_state: "n".to_owned(),
            reconcile_date: "".to_owned(),
            value_num: value.value,
            value_denom: value.denom,
            quantity_num: quantity.value,
            quantity_denom: quantity.denom,
            lot_guid: "".to_owned(),
        }
    }

    /// The split that posts `amount` to `account`; none where the amount
    /// cannot be written in the units of the commodity or of the account.
    pub fn create_split(
        split_guid: &str,
        tx_guid: &str,
        account: &Account,
        memo: &str,
        currency: &Commodities,
        amount: DecimalAmount,
    ) -> (r: Option<Self>)
        ensures
            r is Some <==> can_denominate(amount, currency.fraction) && can_denominate(
                amount,
                account.commodity_scu,
            ),
            r matches Some(split) ==> split@ == spec_create_split(
                split_guid@,
                tx_guid@,
                *account,
                memo@,
                *currency,
                amount,
            ),
    {
        let value = match DenominatedValue::denominate_decimal(amount, currency.fraction) {
            Some(v) => v,
            None => {
                return None;
            },
        };
        let qty = match DenominatedValue::denominate_decimal(amount, account.commodity_scu) {
            Some(q) => q,
            None => {
                return None;
            },
        };
        Some(
            NewSplit::new_with_defaults(
                split_guid,
                tx_guid,
                account.guid.as_str(),
                memo,
                value,
                qty,
            ),
        )
    }
}

/// The transaction that [`NewTransaction::prepare`] makes.
pub open spec fn spec_prepare(
    guid: Seq<char>,
    currency_guid: Seq<char>,
    post_date: Option<DateTime>,
    enter_date: DateTime,
    description: Seq<char>,
) -> NewTransactionView {
    NewTransactionView {
        guid,
        currency_guid,
        num: Seq::empty(),
        post_date: match post_date {
            Some(t) => spec_format_sqlite_date(t),
            None => Seq::empty(),
        },
        enter_date: spec_format_sqlite_date(enter_date),
        description,
    }
}

impl NewTransaction {
    pub fn new(
        guid: &str,
        currency_guid: &str,
        post_date: &str,
        enter_date: &str,
        description: &str,
    ) -> (r: Self)
        ensures
            r@ == (NewTransactionView {
                guid: guid@,
                currency_guid: currency_guid@,
                num: Seq::empty(),
                post_date: post_date@,
                enter_date: enter_date@,
                description: description@,
            }),
    {
        proof {
            reveal_strlit("");
            assert(""@ =~= Seq::<char>::empty());
        }
        NewTransaction {
            guid: guid.to_owned(),
            currency_guid: currency_guid.to_owned(),
            num: "".to_owned(),
            post_date: post_date.to_owned(),
            enter_date: enter_date.to_owned(),
            description: description.to_owned(),
        }
    }

    /// The transaction to be written, with its two dates in the ledger's
    /// form; a transaction without posting date gets an empty one.
    pub fn prepare(
        guid: &str,
        currency_guid: &str,
        post_date: Option<DateTime>,
        enter_date: DateTime,
        description: &str,
    ) -> (r: Self)
        ensures
            r@ == spec_prepare(guid@, currency_guid@, post_date, enter_date, description@),
    {
        let formatted_date = match post_date {
            Some(x) => format_sqlite_date(&x),
            None => String::new(),
        };
        let formatted_enter_date = format_sqlite_date(&enter_date);
        NewTransaction::new(
            guid,
            currency_guid,
            formatted_date.as_str(),
            formatted_enter_date.as_str(),
            description,
        )
    }
}

} // verus!
