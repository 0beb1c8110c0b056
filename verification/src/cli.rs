//! The arguments of the commands, as plain values.

use vstd::prelude::*;

verus! {

/// The arguments of the command that lists accounts.
#[derive(Debug, PartialEq, Eq)]
pub struct ListAccountsArgs {
    pub limit: Option<i64>,
    pub account: DefaultAccountParams,
}

/// The arguments of the command that lists, or moves, splits.
#[derive(Debug, PartialEq, Eq)]
pub struct TransactionsArgs {
    pub limit: Option<i64>,
    pub txid: Option<String>,
    pub before: Option<String>,
    pub after: Option<String>,
    pub memo: Option<String>,
    pub description: Option<String>,
    pub move_split: bool,
    pub account: DefaultAccountParams,
    pub target_account: TargetAccountParams,
}

/// The arguments of the command that correlates an export with the ledger.
#[derive(Debug, PartialEq, Eq)]
pub struct CorrelateArgs {
    pub input: String,
    pub sheet_name: Option<String>,
    pub format: Option<String>,
    pub by_booking_date: bool,
    pub list_extra_transactions: bool,
    pub verbose: bool,
    pub account: DefaultAccountParams,
    pub from_account: FromAccountParams,
    pub fee_account: FeeAccountParams,
}

/// The arguments of the command that lists commodities.
#[derive(Debug, PartialEq, Eq)]
pub struct CommoditiesArgs {
    pub commodity_type: Option<String>,
    pub name: Option<String>,
    pub limit: Option<i64>,
}

/// What selects the account that a command is about.
#[derive(Debug, PartialEq, Eq)]
pub struct DefaultAccountParams {
    pub name: Option<String>,
    pub parent_guid: Option<String>,
    pub guid: Option<String>,
    pub account_type: Option<String>,
    pub commodity_id: Option<String>,
    pub commodity_name: Option<String>,
    pub parent_name: Option<String>,
}

/// What selects the account that splits are moved to.
#[derive(Debug, PartialEq, Eq)]
pub struct TargetAccountParams {
    pub target_name: Option<String>,
    pub target_parent_guid: Option<String>,
    pub target_guid: Option<String>,
    pub target_account_type: Option<String>,
    pub target_parent_name: Option<String>,
    pub commodity_id: Option<String>,
    pub commodity_name: Option<String>,
}

/// What selects the account that fees are posted to.
#[derive(Debug, PartialEq, Eq)]
pub struct FeeAccountParams {
    pub fee_name: Option<String>,
    pub fee_parent_guid: Option<String>,
    pub fee_guid: Option<String>,
    pub fee_account_type: Option<String>,
    pub fee_parent_name: Option<String>,
    pub commodity_id: Option<String>,
    pub commodity_name: Option<String>,
}

/// What selects the counterparty's account.
#[derive(Debug, PartialEq, Eq)]
pub struct FromAccountParams {
    pub from_name: Option<String>,
    pub from_parent_guid: Option<String>,
    pub from_guid: Option<String>,
    pub from_account_type: Option<String>,
    pub from_parent_name: Option<String>,
    pub commodity_id: Option<String>,
    pub commodity_name: Option<String>,
}

} // verus!
