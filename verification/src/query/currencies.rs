//! Queries for commodities.

use crate::cli::CommoditiesArgs;
use crate::query::accounts::{limit_or_default, DEFAULT_LIMIT};
use vstd::prelude::*;
use vstd::std_specs::convert::FromSpecImpl;

verus! {

/// The filters of a query for commodities.
#[derive(Debug, PartialEq, Eq)]
pub struct CommoditiesQuery {
    pub limit: i64,
    pub name_filter: Option<String>,
    pub type_filter: Option<String>,
}

impl From<CommoditiesArgs> for CommoditiesQuery {
    fn from(args: CommoditiesArgs) -> (r: Self) {
        CommoditiesQuery {
            limit: match args.limit {
                Some(n) => n,
                None => DEFAULT_LIMIT,
            },
            name_filter: args.name,
            type_filter: args.commodity_type,
        }
    }
}

impl FromSpecImpl<CommoditiesArgs> for CommoditiesQuery {
    open spec fn obeys_from_spec() -> bool {
        true
    }

    open spec fn from_spec(args: CommoditiesArgs) -> Self {
        CommoditiesQuery {
            limit: limit_or_default(args.limit),
            name_filter: args.name,
            type_filter: args.commodity_type,
        }
    }
}

} // verus!
