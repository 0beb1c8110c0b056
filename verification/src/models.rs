//! The rows of the ledger: accounts, splits, transactions and commodities.

use crate::amount::DecimalAmount;
use crate::dates::{formatted_day_number, DateTime};
use crate::text::{clone_text, int_text, int_to_text};
use crate::utils::{date_format, get_value_or_empty, parse_sqlite_date, spec_parse_sqlite_text};
use vstd::prelude::*;
use vstd::string::StringExecFns;

verus! {

/// An account of the ledger.
#[derive(Debug, PartialEq, Eq)]
pub struct Account {
    pub guid: String,
    pub name: String,
    pub account_type: String,
    pub commodity_guid: Option<String>,
    pub commodity_scu: i32,
    pub non_std_scu: i32,
    pub parent_guid: Option<String>,
    pub code: Option<String>,
    pub description: Option<String>,
    pub hidden: Option<i32>,
    pub placeholder: Option<i32>,
}

/// One leg of a ledger transaction, posted to one account. Value and
/// quantity are fractions of two whole numbers each.
#[derive(Debug, PartialEq, Eq)]
pub struct Split {
    pub guid: String,
    pub tx_guid: String,
    pub account_guid: String,
    pub memo: String,
    pub action: String,
    pub reconcile_state: String,
    pub reconcile_date: Option<String>,
    pub value_num: i64,
    pub value_denom: i64,
    pub quantity_num: i64,
    pub quantity_denom: i64,
    pub lot_guid: Option<String>,
}

/// A transaction of the ledger; its dates are text as the ledger stores them.
#[derive(Debug, PartialEq, Eq)]
pub struct Transaction {
    pub guid: String,
    pub currency_guid: String,
    pub num: String,
    pub post_date: Option<String>,
    pub enter_date: Option<String>,
    pub description: Option<String>,
}

/// A currency or another commodity that accounts are held in.
#[derive(Debug, PartialEq, Eq)]
pub struct Commodities {
    pub guid: String,
    pub namespace: String,
    pub mnemonic: String,
    pub fullname: Option<String>,
    pub cusip: Option<String>,
    pub fraction: i32,
    pub quote_flag: i32,
    pub quote_source: Option<String>,
    pub quote_tz: Option<String>,
}

/// The string in `opt`, or the empty sequence.
pub open spec fn text_or_empty(opt: Option<String>) -> Seq<char> {
    match opt {
        Some(x) => x@,
        None => Seq::empty(),
    }
}

impl Clone for Account {
    fn clone(&self) -> (r: Self)
        ensures
            r == *self,
    {
        Account {
            guid: self.guid.clone(),
            name: self.name.clone(),
            account_type: self.account_type.clone(),
            commodity_guid: clone_text(&self.commodity_guid),
            commodity_scu: self.commodity_scu,
            non_std_scu: self.non_std_scu,
            parent_guid: clone_text(&self.parent_guid),
            code: clone_text(&self.code),
            description: clone_text(&self.description),
            hidden: self.hidden,
            placeholder: self.placeholder,
        }
    }
}

impl Clone for Split {
    fn clone(&self) -> (r: Self)
        ensures
            r == *self,
    {
        Split {
            guid: self.guid.clone(),
            tx_guid: self.tx_guid.clone(),
            account_guid: self.account_guid.clone(),
            memo: self.memo.clone(),
            action: self.action.clone(),
            reconcile_state: self.reconcile_state.clone(),
            reconcile_date: clone_text(&self.reconcile_date),
            value_num: self.value_num,
            value_denom: self.value_denom,
            quantity_num: self.quantity_num,
            quantity_denom: self.quantity_denom,
            lot_guid: clone_text(&self.lot_guid),
        }
    }
}

impl Clone for Transaction {
    fn clone(&self) -> (r: Self)
        ensures
            r == *self,
    {
        Transaction {
            guid: self.guid.clone(),
            currency_guid: self.currency_guid.clone(),
            num: self.num.clone(),
            post_date: clone_text(&self.post_date),
            enter_date: clone_text(&self.enter_date),
            description: clone_text(&self.description),
        }
    }
}

impl Clone for Commodities {
    fn clone(&self) -> (r: Self)
        ensures
            r == *self,
    {
        Commodities {
            guid: self.guid.clone(),
            namespace: self.namespace.clone(),
            mnemonic: self.mnemonic.clone(),
            fullname: clone_text(&self.fullname),
            cusip: clone_text(&self.cusip),
            fraction: self.fraction,
            quote_flag: self.quote_flag,
            quote_source: clone_text(&self.quote_source),
            quote_tz: clone_text(&self.quote_tz),
        }
    }
}

impl Account {
    /// Whether the two accounts are held in the same commodity.
    pub open spec fn same_commodity(self, other: Account) -> bool {
        crate::text::text_view(self.commodity_guid) == crate::text::text_view(other.commodity_guid)
    }

    /// Whether the two accounts are held in the same commodity, so that
    /// money or splits can go from one to the other.
    pub fn has_commodity_of(&self, other: &Account) -> (r: bool)
        ensures
            r == self.same_commodity(*other),
    {
        match (&self.commodity_guid, &other.commodity_guid) {
            (Some(a), Some(b)) => *a == *b,
            (None, None) => true,
            _ => false,
        }
    }

    /// The line that [`Account::display`] makes.
    pub open spec fn spec_display(self) -> Seq<char> {
        "["@ + self.account_type@ + "]<id= "@ + self.guid@ + ">(parent= "@ + text_or_empty(
            self.parent_guid,
        ) + ",commodity= "@ + text_or_empty(self.commodity_guid) + ") - "@ + self.name@ + " "@
            + text_or_empty(self.description)
    }

    /// The account on one line: type, identifier, parent, commodity, name
    /// and description.
    pub fn display(&self) -> (r: String)
        ensures
            r@ == self.spec_display(),
    {
        let mut out = String::new();
        out.append("[");
        out.append(self.account_type.as_str());
        out.append("]<id= ");
        out.append(self.guid.as_str());
        out.append(">(parent= ");
        out.append(get_value_or_empty(&self.parent_guid));
        out.append(",commodity= ");
        out.append(get_value_or_empty(&self.commodity_guid));
        out.append(") - ");
        out.append(self.name.as_str());
        out.append(" ");
        out.append(get_value_or_empty(&self.description));
        assert(out@ =~= self.spec_display());
        out
    }

    /// The account in short: its name, and its identifier in brackets.
    pub fn to_text(&self) -> (r: String)
        ensures
            r@ == self.name@ + "("@ + self.guid@ + ")"@,
    {
        let mut out = String::new();
        out.append(self.name.as_str());
        out.append("(");
        out.append(self.guid.as_str());
        out.append(")");
        assert(out@ =~= self.name@ + "("@ + self.guid@ + ")"@);
        out
    }
}

impl Split {
    /// The quantity of the split, in units of its account's commodity.
    /// There is none for a zero denominator.
    pub fn get_quantity_as_decimal(&self) -> (r: Option<DecimalAmount>)
        ensures
            r == DecimalAmount::spec_from_ratio(self.quantity_num, self.quantity_denom),
            self.quantity_denom == 0 ==> r is None,
    {
        Self::as_decimal(self.quantity_num, self.quantity_denom)
    }

    /// The value of the split, in the currency of its transaction.
    /// There is none for a zero denominator.
    pub fn get_value_as_decimal(&self) -> (r: Option<DecimalAmount>)
        ensures
            r == DecimalAmount::spec_from_ratio(self.value_num, self.value_denom),
            self.value_denom == 0 ==> r is None,
    {
        Self::as_decimal(self.value_num, self.value_denom)
    }

    fn as_decimal(num: i64, denom: i64) -> (r: Option<DecimalAmount>)
        ensures
            r == DecimalAmount::spec_from_ratio(num, denom),
            denom == 0 ==> r is None,
    {
        DecimalAmount::from_ratio(num, denom)
    }
}

impl Transaction {
    /// When the transaction was posted.
    pub fn posting(&self) -> (r: Option<DateTime>)
        ensures
            r == self.spec_posting(),
    {
        parse_sqlite_date(&self.post_date)
    }

    pub open spec fn spec_posting(self) -> Option<DateTime> {
        match self.post_date {
            Some(text) => spec_parse_sqlite_text(text@),
            None => None,
        }
    }

    /// When the transaction was entered.
    pub fn entering(&self) -> (r: Option<DateTime>)
        ensures
            r == match self.enter_date {
                Some(text) => spec_parse_sqlite_text(text@),
                None => None,
            },
    {
        parse_sqlite_date(&self.enter_date)
    }

    /// The posting day as [`Transaction::to_text`] writes it.
    pub open spec fn spec_day_text(self) -> Seq<char> {
        match self.spec_posting() {
            Some(t) => match formatted_day_number(t.date.days, date_format()) {
                Some(text) => text,
                None => "--------"@,
            },
            None => "--------"@,
        }
    }

    /// What [`Transaction::to_text`] writes.
    pub open spec fn spec_to_text(self) -> Seq<char> {
        match self.description {
            Some(d) => self.spec_day_text() + " - "@ + d@,
            None => self.spec_day_text(),
        }
    }

    /// The transaction on one line: the day it was posted, or dashes where
    /// that is not known, and the description if there is one.
    pub fn to_text(&self) -> (r: String)
        ensures
            r@ == self.spec_to_text(),
    {
        let mut out = String::new();
        let day = match self.posting() {
            Some(t) => t.date().format("%Y-%m-%d"),
            None => None,
        };
        match day {
            Some(text) => out.append(text.as_str()),
            None => out.append("--------"),
        }
        assert(out@ =~= self.spec_day_text());
        match &self.description {
            Some(d) => {
                out.append(" - ");
                out.append(d.as_str());
            },
            None => {},
        }
        assert(out@ =~= self.spec_to_text());
        out
    }
}

impl Commodities {
    /// The line that [`Commodities::display`] makes.
    pub open spec fn spec_display(self) -> Seq<char> {
        "["@ + self.namespace@ + "]<"@ + self.guid@ + "> - "@ + self.mnemonic@ + " (fraction:"@
            + int_text(self.fraction as int) + ")"@
    }

    /// The commodity on one line: namespace, identifier, mnemonic and fraction.
    pub fn display(&self) -> (r: String)
        ensures
            r@ == self.spec_display(),
    {
        let mut out = String::new();
        out.append("[");
        out.append(self.namespace.as_str());
        out.append("]<");
        out.append(self.guid.as_str());
        out.append("> - ");
        out.append(self.mnemonic.as_str());
        out.append(" (fraction:");
        out.append(int_to_text(self.fraction as i64).as_str());
        out.append(")");
        assert(out@ =~= self.spec_display());
        out
    }
}

} // verus!
