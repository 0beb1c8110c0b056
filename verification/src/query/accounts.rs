//! Queries for accounts.

use crate::cli::{DefaultAccountParams, FeeAccountParams, FromAccountParams, TargetAccountParams};
use crate::models::Account;
use crate::text::{clone_text, int_text, int_to_text};
use vstd::prelude::*;
use vstd::string::StringExecFns;

verus! {

/// The number of rows that a query asks for where no limit is given.
pub const DEFAULT_LIMIT: i64 = 10;

/// The filters of a query for accounts. A filter that is given must be
/// part of the column it is about.
#[derive(Debug, PartialEq, Eq)]
pub struct AccountQuery {
    pub limit: i64,
    pub guid_filter: Option<String>,
    pub name_filter: Option<String>,
    pub parent_filter: Option<String>,
    pub type_filter: Option<String>,
    pub parent_name_filter: Option<String>,
    pub commodity_id_filter: Option<String>,
    pub commodity_name_filter: Option<String>,
}

/// The limit that is given, or the default.
pub open spec fn limit_or_default(limit: Option<i64>) -> i64 {
    match limit {
        Some(n) => n,
        None => DEFAULT_LIMIT,
    }
}

fn limit_or(limit: Option<i64>) -> (r: i64)
    ensures
        r == limit_or_default(limit),
{
    match limit {
        Some(n) => n,
        None => DEFAULT_LIMIT,
    }
}

impl DefaultAccountParams {
    /// The query for the account that these arguments select.
    pub fn build(&self, limit: Option<i64>) -> (r: AccountQuery)
        ensures
            r == (AccountQuery {
                limit: limit_or_default(limit),
                guid_filter: self.guid,
                name_filter: self.name,
                parent_filter: self.parent_guid,
                type_filter: self.account_type,
                parent_name_filter: self.parent_name,
                commodity_id_filter: self.commodity_id,
                commodity_name_filter: self.commodity_name,
            }),
    {
        AccountQuery {
            limit: limit_or(limit),
            guid_filter: clone_text(&self.guid),
            name_filter: clone_text(&self.name),
            parent_filter: clone_text(&self.parent_guid),
            type_filter: clone_text(&self.account_type),
            parent_name_filter: clone_text(&self.parent_name),
            commodity_id_filter: clone_text(&self.commodity_id),
            commodity_name_filter: clone_text(&self.commodity_name),
        }
    }
}

impl TargetAccountParams {
    /// The query for the account that these arguments select.
    pub fn build(&self, limit: Option<i64>) -> (r: AccountQuery)
        ensures
            r == (AccountQuery {
                limit: limit_or_default(limit),
                guid_filter: self.target_guid,
                name_filter: self.target_name,
                parent_filter: self.target_parent_guid,
                type_filter: self.target_account_type,
                parent_name_filter: self.target_parent_name,
                commodity_id_filter: self.commodity_id,
                commodity_name_filter: self.commodity_name,
            }),
    {
        AccountQuery {
            limit: limit_or(limit),
            guid_filter: clone_text(&self.target_guid),
            name_filter: clone_text(&self.target_name),
            parent_filter: clone_text(&self.target_parent_guid),
            type_filter: clone_text(&self.target_account_type),
            parent_name_filter: clone_text(&self.target_parent_name),
            commodity_id_filter: clone_text(&self.commodity_id),
            commodity_name_filter: clone_text(&self.commodity_name),
        }
    }
}

impl FromAccountParams {
    /// The query for the account that these arguments select.
    pub fn build(&self, limit: Option<i64>) -> (r: AccountQuery)
        ensures
            r == (AccountQuery {
                limit: limit_or_default(limit),
                guid_filter: self.from_guid,
                name_filter: self.from_name,
                parent_filter: self.from_parent_guid,
                type_filter: self.from_account_type,
                parent_name_filter: self.from_parent_name,
                commodity_id_filter: self.commodity_id,
                commodity_name_filter: self.commodity_name,
            }),
    {
        AccountQuery {
            limit: limit_or(limit),
            guid_filter: clone_text(&self.from_guid),
            name_filter: clone_text(&self.from_name),
            parent_filter: clone_text(&self.from_parent_guid),
            type_filter: clone_text(&self.from_account_type),
            parent_name_filter: clone_text(&self.from_parent_name),
            commodity_id_filter: clone_text(&self.commodity_id),
            commodity_name_filter: clone_text(&self.commodity_name),
        }
    }
}

impl FeeAccountParams {
    /// The query for the account that these arguments select.
    pub fn build(&self, limit: Option<i64>) -> (r: AccountQuery)
        ensures
            r == (AccountQuery {
                limit: limit_or_default(limit),
                guid_filter: self.fee_guid,
                name_filter: self.fee_name,
                parent_filter: self.fee_parent_guid,
                type_filter: self.fee_account_type,
                parent_name_filter: self.fee_parent_name,
                commodity_id_filter: self.commodity_id,
                commodity_name_filter: self.commodity_name,
            }),
    {
        AccountQuery {
            limit: limit_or(limit),
            guid_filter: clone_text(&self.fee_guid),
            name_filter: clone_text(&self.fee_name),
            parent_filter: clone_text(&self.fee_parent_guid),
            type_filter: clone_text(&self.fee_account_type),
            parent_name_filter: clone_text(&self.fee_parent_name),
            commodity_id_filter: clone_text(&self.commodity_id),
            commodity_name_filter: clone_text(&self.commodity_name),
        }
    }
}

/// A filter as [`AccountQuery::to_text`] writes it: a blank, the label, a
/// colon and the text; nothing for a filter that is not given.
pub open spec fn labelled(label: Seq<char>, filter: Option<String>) -> Seq<char> {
    match filter {
        Some(text) => " "@ + label + ":"@ + text@,
        None => Seq::empty(),
    }
}

fn push_labelled(out: &mut String, label: &str, filter: &Option<String>)
    ensures
        final(out)@ == old(out)@ + labelled(label@, *filter),
{
    match filter {
        Some(text) => {
            out.append(" ");
            out.append(label);
            out.append(":");
            out.append(text.as_str());
            assert(out@ =~= old(out)@ + labelled(label@, *filter));
        },
        None => {
            assert(out@ =~= old(out)@ + labelled(label@, *filter));
        },
    }
}

impl AccountQuery {
    /// The one account of `account_list`, if the list holds exactly one.
    pub fn get_one(&self, account_list: Vec<Account>) -> (r: Option<Account>)
        ensures
            r is Some <==> account_list@.len() == 1,
            r matches Some(account) ==> account == account_list@[0],
    {
        let mut account_list = account_list;
        if account_list.len() != 1 {
            return None;
        }
        account_list.pop()
    }

    /// What [`AccountQuery::to_text`] writes.
    pub open spec fn spec_to_text(self) -> Seq<char> {
        "limit:"@ + int_text(self.limit as int) + labelled("name-filter"@, self.name_filter)
            + labelled("guid-filter"@, self.guid_filter) + labelled(
            "parent-filter"@,
            self.parent_filter,
        ) + labelled("type-filter"@, self.type_filter)
    }

    /// The query on one line: the limit, and the filters by name,
    /// identifier, parent and type as far as they are given.
    pub fn to_text(&self) -> (r: String)
        ensures
            r@ == self.spec_to_text(),
    {
        let mut out = String::new();
        out.append("limit:");
        out.append(int_to_text(self.limit).as_str());
        push_labelled(&mut out, "name-filter", &self.name_filter);
        push_labelled(&mut out, "guid-filter", &self.guid_filter);
        push_labelled(&mut out, "parent-filter", &self.parent_filter);
        push_labelled(&mut out, "type-filter", &self.type_filter);
        assert(out@ =~= self.spec_to_text());
        out
    }
}

} // verus!
