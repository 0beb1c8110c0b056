//! Queries for splits and their transactions.

use crate::cli::TransactionsArgs;
use crate::dates::{Date, DateTime};
use crate::query::accounts::{limit_or_default, DEFAULT_LIMIT};
use crate::utils::{date_format, format_sqlite_date, spec_format_sqlite_date, to_date};
use vstd::prelude::*;
use vstd::std_specs::convert::FromSpecImpl;

verus! {

/// The filters of a query for splits.
#[derive(Debug, PartialEq, Eq)]
pub struct TransactionQuery {
    pub limit: i64,
    pub txid_filter: Option<String>,
    pub account_filter: Option<String>,
    pub description_filter: Option<String>,
    pub memo_filter: Option<String>,
    pub before_filter: Option<Date>,
    pub after_filter: Option<Date>,
}

/// The date that an argument holds in the form `2024-01-10`.
pub open spec fn date_argument(text: Option<String>) -> Option<Date> {
    match text {
        Some(t) => Date::spec_parse(t@, date_format()),
        None => None,
    }
}

impl From<TransactionsArgs> for TransactionQuery {
    fn from(args: TransactionsArgs) -> (r: Self) {
        TransactionQuery {
            limit: match args.limit {
                Some(n) => n,
                None => DEFAULT_LIMIT,
            },
            txid_filter: args.txid,
            account_filter: None,
            description_filter: args.description,
            memo_filter: args.memo,
            before_filter: to_date(args.before),
            after_filter: to_date(args.after),
        }
    }
}

impl FromSpecImpl<TransactionsArgs> for TransactionQuery {
    open spec fn obeys_from_spec() -> bool {
        true
    }

    open spec fn from_spec(args: TransactionsArgs) -> Self {
        TransactionQuery {
            limit: limit_or_default(args.limit),
            txid_filter: args.txid,
            account_filter: None,
            description_filter: args.description,
            memo_filter: args.memo,
            before_filter: date_argument(args.before),
            after_filter: date_argument(args.after),
        }
    }
}

impl TransactionQuery {
    /// The same query, for the splits of the account `account_id`.
    pub fn with_account_id(self, account_id: String) -> (r: Self)
        ensures
            r == (TransactionQuery {
                limit: self.limit,
                txid_filter: self.txid_filter,
                account_filter: Some(account_id),
                description_filter: self.description_filter,
                memo_filter: self.memo_filter,
                before_filter: self.before_filter,
                after_filter: self.after_filter,
            }),
    {
        TransactionQuery {
            limit: self.limit,
            txid_filter: self.txid_filter,
            account_filter: Some(account_id),
            description_filter: self.description_filter,
            memo_filter: self.memo_filter,
            before_filter: self.before_filter,
            after_filter: self.after_filter,
        }
    }

    /// The earliest posting date that the query lets through, in the
    /// ledger's form: the first second of the day after which is asked.
    pub fn after_bound(&self) -> (r: Option<String>)
        ensures
            match self.after_filter {
                Some(day) => r matches Some(text) && text@ == spec_format_sqlite_date(
                    DateTime { date: day, seconds: 0, nanos: 0 },
                ),
                None => r is None,
            },
    {
        match self.after_filter {
            Some(after_date) => match after_date.and_hms_opt(0, 0, 0) {
                Some(t) => Some(format_sqlite_date(&t)),
                None => None,
            },
            None => None,
        }
    }

    /// The latest posting date that the query lets through, in the
    /// ledger's form: the last second of the day before which is asked.
    pub fn before_bound(&self) -> (r: Option<String>)
        ensures
            match self.before_filter {
                Some(day) => r matches Some(text) && text@ == spec_format_sqlite_date(
                    DateTime { date: day, seconds: 86399, nanos: 0 },
                ),
                None => r is None,
            },
    {
        match self.before_filter {
            Some(before_date) => match before_date.and_hms_opt(23, 59, 59) {
                Some(t) => Some(format_sqlite_date(&t)),
                None => None,
            },
            None => None,
        }
    }
}

} // verus!
