//! The cells of a spreadsheet, and what a cell holds as a date, a text or
//! an amount.

use crate::amount::DecimalAmount;
use crate::dates::{Date, DateTime};
use crate::text::text_view;
use vstd::prelude::*;

verus! {

/// What a cell of a worksheet holds.
#[derive(Debug, PartialEq, Eq)]
pub enum Cell {
    /// A whole number.
    Int(i64),
    /// A floating-point number, held as the decimal that it converts to;
    /// `None` for a number without one.
    Float(Option<DecimalAmount>),
    /// A text.
    Text(String),
    /// A truth value.
    Bool(bool),
    /// A date or time as the spreadsheet counts it.
    DateTime,
    /// A date, a time or both, written as ISO 8601 text.
    DateTimeIso(String),
    /// A duration written as ISO 8601 text.
    DurationIso(String),
    /// An error of the spreadsheet.
    Error,
    /// Nothing.
    Empty,
}

impl Cell {
    pub fn is_float(&self) -> (r: bool)
        ensures
            r == (*self is Float),
    {
        match self {
            Cell::Float(_) => true,
            _ => false,
        }
    }

    pub fn is_empty(&self) -> (r: bool)
        ensures
            r == (*self is Empty),
    {
        match self {
            Cell::Empty => true,
            _ => false,
        }
    }
}

/// The date in a cell under the `chrono` format `format`: a text is read
/// under that format, an ISO text as year, month and day with hyphens.
pub open spec fn spec_cell_to_date_raw(cell: Cell, format: Seq<char>) -> Option<Date> {
    match cell {
        Cell::Text(text) => Date::spec_parse(text@, format),
        Cell::DateTimeIso(text) => Date::spec_parse(text@, "%Y-%m-%d"@),
        _ => None,
    }
}

/// The date in a cell that writes dates as `2016.10.20.`
pub fn cell_to_date(cell: &Cell) -> (r: Option<Date>)
    requires
        !(*cell is DateTime),
    ensures
        r == spec_cell_to_date_raw(*cell, "%Y.%m.%d."@),
{
    cell_to_date_raw(cell, "%Y.%m.%d.")
}

/// The date in a cell that writes dates as `2016-10-20`.
pub fn cell_to_iso_date(cell: &Cell) -> (r: Option<Date>)
    requires
        !(*cell is DateTime),
    ensures
        r == spec_cell_to_date_raw(*cell, "%Y-%m-%d"@),
{
    cell_to_date_raw(cell, "%Y-%m-%d")
}

/// The date in a cell that writes dates as `20.10.2016`.
pub fn cell_to_german_date(cell: &Cell) -> (r: Option<Date>)
    requires
        !(*cell is DateTime),
    ensures
        r == spec_cell_to_date_raw(*cell, "%d.%m.%Y"@),
{
    cell_to_date_raw(cell, "%d.%m.%Y")
}

/// The date in a cell that writes dates as `20-10-2016`.
pub fn cell_to_english_date(cell: &Cell) -> (r: Option<Date>)
    requires
        !(*cell is DateTime),
    ensures
        r == spec_cell_to_date_raw(*cell, "%d-%m-%Y"@),
{
    cell_to_date_raw(cell, "%d-%m-%Y")
}

/// The date in a cell under the given `chrono` format. A cell that holds a
/// spreadsheet date is not a cell of an export and must not be given.
pub fn cell_to_date_raw(cell: &Cell, format: &str) -> (r: Option<Date>)
    requires
        !(*cell is DateTime),
    ensures
        r == spec_cell_to_date_raw(*cell, format@),
{
    match cell {
        Cell::Text(text) => Date::parse_from_str(text.as_str(), format),
        Cell::DateTimeIso(date_time) => Date::parse_from_str(date_time.as_str(), "%Y-%m-%d"),
        _ => None,
    }
}

/// The day and time in a cell, for a text of the form `2016.10.20. 20:32:13`.
pub open spec fn spec_cell_to_datetime(cell: Cell) -> Option<DateTime> {
    match cell {
        Cell::Text(text) => DateTime::spec_parse(text@, "%Y.%m.%d. %H:%M:%S"@),
        _ => None,
    }
}

pub fn cell_to_datetime(cell: &Cell) -> (r: Option<DateTime>)
    ensures
        r == spec_cell_to_datetime(*cell),
{
    match cell {
        Cell::Text(text) => DateTime::parse_from_str(text.as_str(), "%Y.%m.%d. %H:%M:%S"),
        _ => None,
    }
}

/// The text in a cell, if the cell holds a text that is not empty.
pub open spec fn spec_cell_to_string(cell: Cell) -> Option<Seq<char>> {
    match cell {
        Cell::Text(text) => if text@.len() == 0 {
            None
        } else {
            Some(text@)
        },
        _ => None,
    }
}

pub fn cell_to_string(cell: &Cell) -> (r: Option<String>)
    ensures
        text_view(r) == spec_cell_to_string(*cell),
{
    match cell {
        Cell::Text(text) => {
            if text.as_str().unicode_len() == 0 {
                None
            } else {
                Some(text.clone())
            }
        },
        _ => None,
    }
}

/// The amount in a cell: the decimal of a floating-point number, a whole
/// number, or a text in scientific notation.
pub open spec fn spec_cell_to_decimal(cell: Cell) -> Option<DecimalAmount> {
    match cell {
        Cell::Float(amount) => amount,
        Cell::Int(n) => Some(DecimalAmount { mantissa: n as i128, scale: 0 }),
        Cell::Text(text) => DecimalAmount::spec_from_scientific(text@),
        _ => None,
    }
}

pub fn cell_to_decimal(cell: &Cell) -> (r: Option<DecimalAmount>)
    ensures
        r == spec_cell_to_decimal(*cell),
{
    match cell {
        Cell::Float(amount) => *amount,
        Cell::Int(numb) => Some(DecimalAmount::from_i64(*numb)),
        Cell::Text(text) => DecimalAmount::from_scientific(text.as_str()),
        _ => None,
    }
}

} // verus!
