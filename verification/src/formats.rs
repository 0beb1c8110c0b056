//! The layouts in which banks export their transactions, and how a row of
//! each becomes an external transaction.

use crate::amount::DecimalAmount;
use crate::external_models::{ExternalTransaction, ExternalTransactionView};
use crate::sheets::{
    cell_to_date, cell_to_datetime, cell_to_decimal, cell_to_english_date, cell_to_german_date,
    cell_to_iso_date, cell_to_string, spec_cell_to_date_raw, spec_cell_to_datetime,
    spec_cell_to_decimal, spec_cell_to_string, Cell,
};
use crate::text::{
    cleanup_string, concat, lowercase_of, spec_cleanup_string, spec_concat, to_lowercase, trim,
    trimmed,
};
use crate::utils::{extract_date, spec_extract_date};
use vstd::prelude::*;

verus! {

/// The export layouts that the library reads.
#[derive(Clone, Copy, Debug, PartialEq, Eq, Structural)]
pub enum SheetFormat {
    Otp,
    Otp2020,
    Granit,
    BankAustria,
    Transferwise,
    Magnet,
}

/// The layout with the name `name`, which is in lower case.
pub open spec fn format_named(name: Seq<char>) -> Option<SheetFormat> {
    if name == "otp"@ {
        Some(SheetFormat::Otp)
    } else if name == "otp2020"@ {
        Some(SheetFormat::Otp2020)
    } else if name == "granit"@ {
        Some(SheetFormat::Granit)
    } else if name == "bankaustria"@ {
        Some(SheetFormat::BankAustria)
    } else if name == "transferwise"@ {
        Some(SheetFormat::Transferwise)
    } else if name == "magnet"@ {
        Some(SheetFormat::Magnet)
    } else {
        None
    }
}

fn is_named(name: &String, known: &str) -> (r: bool)
    ensures
        r == (name@ == known@),
{
    let known_name = known.to_owned();
    *name == known_name
}

/// The layout that `name` names, whatever its case; the first layout where
/// no name is given, and none for a name that is not known.
pub fn create_format(name: &Option<String>) -> (r: Option<SheetFormat>)
    ensures
        r == match *name {
            Some(format_name) => format_named(lowercase_of(format_name@)),
            None => Some(SheetFormat::Otp),
        },
{
    if let Some(format_name) = name {
        let lower = to_lowercase(format_name.as_str());
        if is_named(&lower, "otp") {
            Some(SheetFormat::Otp)
        } else if is_named(&lower, "otp2020") {
            Some(SheetFormat::Otp2020)
        } else if is_named(&lower, "granit") {
            Some(SheetFormat::Granit)
        } else if is_named(&lower, "bankaustria") {
            Some(SheetFormat::BankAustria)
        } else if is_named(&lower, "transferwise") {
            Some(SheetFormat::Transferwise)
        } else if is_named(&lower, "magnet") {
            Some(SheetFormat::Magnet)
        } else {
            None
        }
    } else {
        Some(SheetFormat::Otp)
    }
}

/// The first of two optional texts that is there.
pub open spec fn first_of(first: Option<Seq<char>>, second: Option<Seq<char>>) -> Option<Seq<char>> {
    match first {
        Some(text) => Some(text),
        None => second,
    }
}

/// An optional text without the white space at its ends.
pub open spec fn trimmed_text(text: Option<Seq<char>>) -> Option<Seq<char>> {
    match text {
        Some(t) => Some(trimmed(t)),
        None => None,
    }
}

/// An optional name made readable.
pub open spec fn cleaned_text(text: Option<Seq<char>>) -> Option<Seq<char>> {
    match text {
        Some(t) => Some(spec_cleanup_string(t)),
        None => None,
    }
}

/// The day of an optional day and time.
pub open spec fn day_of(cell: Cell) -> Option<crate::dates::Date> {
    match spec_cell_to_datetime(cell) {
        Some(t) => Some(t.date),
        None => None,
    }
}

/// An amount that is not negative; nothing for a negative one.
pub open spec fn not_negative(amount: Option<DecimalAmount>) -> Option<DecimalAmount> {
    match amount {
        Some(a) => if a.mantissa >= 0 {
            Some(a)
        } else {
            None
        },
        None => None,
    }
}

impl SheetFormat {
    /// The number of rows at the top of a sheet that hold no transaction.
    pub open spec fn heading_rows(self) -> int {
        match self {
            SheetFormat::Otp | SheetFormat::Otp2020 | SheetFormat::Granit => 0,
            _ => 1,
        }
    }

    /// The column by which a row is told to hold a transaction.
    pub open spec fn telling_column(self) -> int {
        match self {
            SheetFormat::Otp | SheetFormat::Otp2020 => 0,
            SheetFormat::Granit => 1,
            SheetFormat::BankAustria => 6,
            SheetFormat::Transferwise => 2,
            SheetFormat::Magnet => 6,
        }
    }

    /// Whether the row holds a transaction: its telling column is not empty
    /// in the first two layouts, and holds a floating-point number in the others.
    pub open spec fn is_data_row(self, row: Seq<Cell>) -> bool {
        &&& row.len() > self.telling_column()
        &&& match self {
            SheetFormat::Otp | SheetFormat::Otp2020 => !(row[0] is Empty),
            _ => row[self.telling_column()] is Float,
        }
    }

    /// Whether a row that holds a transaction has all the cells that are
    /// read from it, no spreadsheet date where a date is read, and, in the
    /// layout of Bank Austria, an amount.
    pub open spec fn has_fields(self, row: Seq<Cell>) -> bool {
        match self {
            SheetFormat::Otp => row.len() > 8 && !(row[2] is DateTime) && !(row[3] is DateTime),
            SheetFormat::Otp2020 => row.len() > 7 && !(row[3] is DateTime),
            SheetFormat::Granit => row.len() > 11 && !(row[4] is DateTime),
            SheetFormat::BankAustria => {
                &&& row.len() > 6
                &&& !(row[1] is DateTime)
                &&& row[6] matches Cell::Float(Some(amount))
                &&& if amount.mantissa < 0 {
                    row.len() > 12
                } else {
                    row.len() > 9
                }
            },
            SheetFormat::Transferwise => row.len() > 14 && !(row[1] is DateTime),
            SheetFormat::Magnet => row.len() > 6 && !(row[1] is DateTime) && !(row[2] is DateTime),
        }
    }

    /// Whether the row can be read: it has its telling column, and its
    /// fields if it holds a transaction.
    pub open spec fn row_is_readable(self, row: Seq<Cell>) -> bool {
        &&& row.len() > self.telling_column()
        &&& self.is_data_row(row) ==> self.has_fields(row)
    }

    /// Whether every row below the heading can be read.
    pub open spec fn sheet_is_readable(self, rows: Seq<Vec<Cell>>) -> bool {
        forall|i: int|
            self.heading_rows() <= i < rows.len() ==> self.row_is_readable((#[trigger] rows[i])@)
    }

    /// The transaction that a row holds.
    pub open spec fn spec_parse_row(self, row: Seq<Cell>) -> ExternalTransactionView {
        match self {
            SheetFormat::Otp => ExternalTransactionView {
                date: spec_cell_to_date_raw(row[2], "%Y.%m.%d."@),
                booking_date: spec_cell_to_date_raw(row[3], "%Y.%m.%d."@),
                amount: spec_cell_to_decimal(row[4]),
                category: spec_cell_to_string(row[1]),
                description: spec_cell_to_string(row[8]),
                other_account: spec_cell_to_string(row[6]),
                other_account_name: spec_cell_to_string(row[7]),
                textual_date: spec_extract_date(spec_cell_to_string(row[8])),
                transaction_fee: None,
            },
            SheetFormat::Otp2020 => ExternalTransactionView {
                date: day_of(row[2]),
                booking_date: spec_cell_to_date_raw(row[3], "%Y.%m.%d."@),
                amount: spec_cell_to_decimal(row[4]),
                category: spec_cell_to_string(row[1]),
                description: spec_cell_to_string(row[7]),
                other_account: spec_cell_to_string(row[5]),
                other_account_name: spec_cell_to_string(row[6]),
                textual_date: spec_extract_date(spec_cell_to_string(row[7])),
                transaction_fee: None,
            },
            SheetFormat::Granit => {
                let name = cleaned_text(
                    first_of(spec_cell_to_string(row[7]), spec_cell_to_string(row[9])),
                );
                ExternalTransactionView {
                    date: spec_cell_to_date_raw(row[4], "%Y-%m-%d"@),
                    booking_date: None,
                    amount: spec_cell_to_decimal(row[1]),
                    category: spec_cell_to_string(row[6]),
                    description: spec_concat(name, spec_cell_to_string(row[11])),
                    other_account: spec_cell_to_string(row[8]),
                    other_account_name: name,
                    textual_date: None,
                    transaction_fee: None,
                }
            },
            SheetFormat::BankAustria => ExternalTransactionView {
                date: spec_cell_to_date_raw(row[1], "%d.%m.%Y"@),
                booking_date: spec_cell_to_date_raw(row[1], "%d.%m.%Y"@),
                amount: spec_cell_to_decimal(row[6]),
                category: None,
                description: trimmed_text(spec_cell_to_string(row[3])),
                other_account: if spec_cell_to_decimal(row[6]).unwrap().mantissa < 0 {
                    spec_cell_to_string(row[12])
                } else {
                    spec_cell_to_string(row[9])
                },
                other_account_name: None,
                textual_date: None,
                transaction_fee: None,
            },
            SheetFormat::Transferwise => ExternalTransactionView {
                date: spec_cell_to_date_raw(row[1], "%d-%m-%Y"@),
                booking_date: None,
                amount: spec_cell_to_decimal(row[2]),
                category: None,
                description: trimmed_text(spec_cell_to_string(row[4])),
                other_account: spec_cell_to_string(row[12]),
                other_account_name: first_of(
                    spec_cell_to_string(row[13]),
                    spec_cell_to_string(row[11]),
                ),
                textual_date: None,
                transaction_fee: not_negative(spec_cell_to_decimal(row[14])),
            },
            SheetFormat::Magnet => ExternalTransactionView {
                date: spec_cell_to_date_raw(row[1], "%Y.%m.%d."@),
                booking_date: spec_cell_to_date_raw(row[2], "%Y.%m.%d."@),
                amount: spec_cell_to_decimal(row[6]),
                category: None,
                description: spec_concat(spec_cell_to_string(row[3]), spec_cell_to_string(row[5])),
                other_account: spec_cell_to_string(row[4]),
                other_account_name: spec_cell_to_string(row[3]),
                textual_date: None,
                transaction_fee: None,
            },
        }
    }

    /// The test of [`SheetFormat::is_data_row`] on a row of cells.
    pub open spec fn data_row_test(self) -> spec_fn(Vec<Cell>) -> bool {
        |row: Vec<Cell>| self.is_data_row(row@)
    }

    /// The reading of [`SheetFormat::spec_parse_row`] on a row of cells.
    pub open spec fn row_reading(self) -> spec_fn(Vec<Cell>) -> ExternalTransactionView {
        |row: Vec<Cell>| self.spec_parse_row(row@)
    }

    /// The rows below the heading.
    pub open spec fn below_heading(self, rows: Seq<Vec<Cell>>) -> Seq<Vec<Cell>> {
        if rows.len() >= self.heading_rows() {
            rows.skip(self.heading_rows())
        } else {
            Seq::empty()
        }
    }

    /// The transactions of a sheet: one for each row below the heading that
    /// holds a transaction, in the order of the rows.
    pub open spec fn spec_parse_sheet(self, rows: Seq<Vec<Cell>>) -> Seq<ExternalTransactionView> {
        self.below_heading(rows).filter(self.data_row_test()).map_values(self.row_reading())
    }

    fn first_row(&self) -> (r: usize)
        ensures
            r == self.heading_rows(),
    {
        match self {
            SheetFormat::Otp | SheetFormat::Otp2020 | SheetFormat::Granit => 0,
            _ => 1,
        }
    }

    /// Whether the row holds a transaction.
    pub fn holds_transaction(&self, row: &Vec<Cell>) -> (r: bool)
        ensures
            r == self.is_data_row(row@),
    {
        let n = row.len();
        match self {
            SheetFormat::Otp | SheetFormat::Otp2020 => n > 0 && !row[0].is_empty(),
            SheetFormat::Granit => n > 1 && row[1].is_float(),
            SheetFormat::BankAustria => n > 6 && row[6].is_float(),
            SheetFormat::Transferwise => n > 2 && row[2].is_float(),
            SheetFormat::Magnet => n > 6 && row[6].is_float(),
        }
    }

    fn is_spreadsheet_date(cell: &Cell) -> (r: bool)
        ensures
            r == (*cell is DateTime),
    {
        match cell {
            Cell::DateTime => true,
            _ => false,
        }
    }

    /// Whether the row can be read.
    pub fn can_parse_row(&self, row: &Vec<Cell>) -> (r: bool)
        ensures
            r == self.row_is_readable(row@),
    {
        let n = row.len();
        match self {
            SheetFormat::Otp => n > 0 && (row[0].is_empty() || (n > 8 && !Self::is_spreadsheet_date(
                &row[2],
            ) && !Self::is_spreadsheet_date(&row[3]))),
            SheetFormat::Otp2020 => n > 0 && (row[0].is_empty() || (n > 7
                && !Self::is_spreadsheet_date(&row[3]))),
            SheetFormat::Granit => n > 1 && (!row[1].is_float() || (n > 11
                && !Self::is_spreadsheet_date(&row[4]))),
            SheetFormat::BankAustria => {
                if n <= 6 {
                    false
                } else if !row[6].is_float() {
                    true
                } else if Self::is_spreadsheet_date(&row[1]) {
                    false
                } else {
                    match cell_to_decimal(&row[6]) {
                        Some(amount) => if amount.is_sign_negative() {
                            n > 12
                        } else {
                            n > 9
                        },
                        None => false,
                    }
                }
            },
            SheetFormat::Transferwise => n > 2 && (!row[2].is_float() || (n > 14
                && !Self::is_spreadsheet_date(&row[1]))),
            SheetFormat::Magnet => n > 6 && (!row[6].is_float() || (!Self::is_spreadsheet_date(
                &row[1],
            ) && !Self::is_spreadsheet_date(&row[2]))),
        }
    }

    /// Whether every row below the heading can be read, so that
    /// [`SheetFormat::parse_sheet`] may be called.
    pub fn can_parse_sheet(&self, rows: &Vec<Vec<Cell>>) -> (r: bool)
        ensures
            r == self.sheet_is_readable(rows@),
    {
        let mut i: usize = self.first_row();
        while i < rows.len()
            invariant
                self.heading_rows() <= i,
                forall|k: int|
                    self.heading_rows() <= k < i && k < rows.len() ==> self.row_is_readable(
                        (#[trigger] rows@[k])@,
                    ),
            decreases rows.len() - i,
        {
            if !self.can_parse_row(&rows[i]) {
                return false;
            }
            i = i + 1;
        }
        true
    }

    /// The transaction that a row holds. The row must hold one and must be readable.
    pub fn parse_row(&self, row: &Vec<Cell>) -> (r: ExternalTransaction)
        requires
            self.is_data_row(row@),
            self.has_fields(row@),
        ensures
            r@ == self.spec_parse_row(row@),
    {
        match self {
            SheetFormat::Otp => {
                let descrip = cell_to_string(&row[8]);
                let parsed_date = extract_date(&descrip);
                ExternalTransaction {
                    date: cell_to_date(&row[2]),
                    booking_date: cell_to_date(&row[3]),
                    amount: cell_to_decimal(&row[4]),
                    category: cell_to_string(&row[1]),
                    description: descrip,
                    other_account: cell_to_string(&row[6]),
                    other_account_name: cell_to_string(&row[7]),
                    textual_date: parsed_date,
                    transaction_fee: None,
                }
            },
            SheetFormat::Otp2020 => {
                let spend_date = cell_to_datetime(&row[2]);
                let description = cell_to_string(&row[7]);
                let parsed_date = extract_date(&description);
                ExternalTransaction {
                    date: match spend_date {
                        Some(datetime) => Some(datetime.date()),
                        None => None,
                    },
                    booking_date: cell_to_date(&row[3]),
                    amount: cell_to_decimal(&row[4]),
                    category: cell_to_string(&row[1]),
                    description,
                    other_account: cell_to_string(&row[5]),
                    other_account_name: cell_to_string(&row[6]),
                    textual_date: parsed_date,
                    transaction_fee: None,
                }
            },
            SheetFormat::Granit => {
                let date = cell_to_iso_date(&row[4]);
                let raw_name = match cell_to_string(&row[7]) {
                    Some(name) => Some(name),
                    None => cell_to_string(&row[9]),
                };
                let other_account_name = match raw_name {
                    Some(name) => Some(cleanup_string(name.as_str())),
                    None => None,
                };
                let comment = cell_to_string(&row[11]);
                ExternalTransaction {
                    date,
                    booking_date: None,
                    amount: cell_to_decimal(&row[1]),
                    category: cell_to_string(&row[6]),
                    description: concat(&other_account_name, &comment),
                    other_account: cell_to_string(&row[8]),
                    other_account_name,
                    textual_date: None,
                    transaction_fee: None,
                }
            },
            SheetFormat::BankAustria => {
                let date = cell_to_german_date(&row[1]);
                let booking_date = cell_to_german_date(&row[1]);
                let amount = cell_to_decimal(&row[6]).unwrap();
                let other_account = if amount.is_sign_negative() {
                    cell_to_string(&row[12])
                } else {
                    cell_to_string(&row[9])
                };
                ExternalTransaction {
                    date,
                    booking_date,
                    amount: Some(amount),
                    category: None,
                    description: match cell_to_string(&row[3]) {
                        Some(s) => Some(trim(s.as_str())),
                        None => None,
                    },
                    other_account,
                    other_account_name: None,
                    textual_date: None,
                    transaction_fee: None,
                }
            },
            SheetFormat::Transferwise => {
                let date = cell_to_english_date(&row[1]);
                let amount = cell_to_decimal(&row[2]);
                let other_account_name = match cell_to_string(&row[13]) {
                    Some(name) => Some(name),
                    None => cell_to_string(&row[11]),
                };
                let other_account = cell_to_string(&row[12]);
                ExternalTransaction {
                    date,
                    booking_date: None,
                    amount,
                    category: None,
                    description: match cell_to_string(&row[4]) {
                        Some(s) => Some(trim(s.as_str())),
                        None => None,
                    },
                    other_account,
                    other_account_name,
                    textual_date: None,
                    transaction_fee: match cell_to_decimal(&row[14]) {
                        Some(value) => if value.is_sign_positive() {
                            Some(value)
                        } else {
                            None
                        },
                        None => None,
                    },
                }
            },
            SheetFormat::Magnet => {
                let date = cell_to_date(&row[1]);
                let booking_date = cell_to_date(&row[2]);
                let amount = cell_to_decimal(&row[6]);
                let other_account = cell_to_string(&row[4]);
                let other_account_name = cell_to_string(&row[3]);
                let description = cell_to_string(&row[5]);
                ExternalTransaction {
                    date,
                    booking_date,
                    amount,
                    category: None,
                    description: concat(&other_account_name, &description),
                    other_account,
                    other_account_name,
                    textual_date: None,
                    transaction_fee: None,
                }
            },
        }
    }

    /// The transactions of a sheet, or nothing if a row below the heading
    /// cannot be read.
    pub fn try_parse_sheet(&self, rows: &Vec<Vec<Cell>>) -> (r: Option<Vec<ExternalTransaction>>)
        ensures
            r is Some <==> self.sheet_is_readable(rows@),
            r matches Some(found) ==> found@.map_values(|t: ExternalTransaction| t@)
                == self.spec_parse_sheet(rows@),
    {
        if self.can_parse_sheet(rows) {
            Some(self.parse_sheet(rows))
        } else {
            None
        }
    }

    /// The transactions of a sheet, one for each row below the heading that
    /// holds one, in the order of the rows. Every row must be readable.
    pub fn parse_sheet(&self, rows: &Vec<Vec<Cell>>) -> (r: Vec<ExternalTransaction>)
        requires
            self.sheet_is_readable(rows@),
        ensures
            r@.map_values(|t: ExternalTransaction| t@) == self.spec_parse_sheet(rows@),
    {
        let mut found: Vec<ExternalTransaction> = Vec::new();
        let first = self.first_row();
        let ghost test = self.data_row_test();
        let ghost reading = self.row_reading();
        let ghost viewing = |t: ExternalTransaction| t@;
        if rows.len() < first {
            proof {
                assert(self.below_heading(rows@) == Seq::<Vec<Cell>>::empty());
                reveal(Seq::filter);
                assert(Seq::<Vec<Cell>>::empty().filter(test) == Seq::<Vec<Cell>>::empty());
                assert(found@.map_values(viewing) == self.spec_parse_sheet(rows@));
            }
            return found;
        }
        let ghost below = self.below_heading(rows@);
        let mut i: usize = first;
        proof {
            reveal(Seq::filter);
            assert(below.take(0).filter(test) == Seq::<Vec<Cell>>::empty());
            assert(found@.map_values(viewing) == below.take(0).filter(test).map_values(reading));
        }
        while i < rows.len()
            invariant
                first <= i <= rows.len(),
                first == self.heading_rows(),
                below == self.below_heading(rows@),
                below == rows@.skip(first as int),
                test == self.data_row_test(),
                reading == self.row_reading(),
                viewing == (|t: ExternalTransaction| t@),
                self.sheet_is_readable(rows@),
                found@.map_values(viewing) == below.take(i - first).filter(test).map_values(reading),
            decreases rows.len() - i,
        {
            let row = &rows[i];
            proof {
                assert(self.row_is_readable(rows@[i as int]@));
                let done = below.take(i - first);
                assert(below[i - first] == rows@[i as int]);
                assert(below.take(i - first + 1) == done.push(*row));
                done.lemma_filter_push(*row, test);
            }
            if self.holds_transaction(row) {
                let transaction = self.parse_row(row);
                let ghost earlier = found@;
                found.push(transaction);
                proof {
                    let kept = below.take(i - first).filter(test);
                    assert(found@.map_values(viewing) == earlier.map_values(viewing).push(
                        transaction@,
                    ));
                    assert(kept.push(*row).map_values(reading) == kept.map_values(reading).push(
                        self.spec_parse_row(row@),
                    ));
                }
            }
            i = i + 1;
        }
        proof {
            assert(below.take(rows.len() - first) == below);
        }
        found
    }
}

} // verus!
