//! The layout of the spreadsheets that the books are exported to.
//!
//! A sheet has a title, a heading, and then one row for each transaction.
//! Column F holds debits, column G credits and column H the balance, which
//! each row works out from the row above.

use crate::text::{decimal_digits, decimal_text};
use vstd::prelude::*;
use vstd::string::StringExecFns;

verus! {

/// The sheet row, counted from zero, of the first transaction.
pub const FIRST_ROW: u32 = 5;

/// The sheet row, counted from zero, of the first audit entry.
pub const FIRST_AUDIT_ROW: u32 = 4;

/// Whether the sheet row `row`, counted from zero, is shaded: every other
/// row is.
pub fn is_shaded(row: u32) -> (r: bool)
    ensures
        r == (row % 2 == 1),
{
    row % 2 == 1
}

/// The sheet row, counted from zero, of transaction `index`, if the sheet has
/// that many rows to count.
pub fn transaction_row(index: usize) -> (r: Option<u32>)
    ensures
        r == (if index + FIRST_ROW <= u32::MAX {
            Some((index + FIRST_ROW) as u32)
        } else {
            None
        }),
{
    if index <= (u32::MAX - FIRST_ROW) as usize {
        Some(index as u32 + FIRST_ROW)
    } else {
        None
    }
}

/// The sheet row, counted from zero, of audit entry `index`, if the sheet has
/// that many rows to count.
pub fn audit_row(index: usize) -> (r: Option<u32>)
    ensures
        r == (if index + FIRST_AUDIT_ROW <= u32::MAX {
            Some((index + FIRST_AUDIT_ROW) as u32)
        } else {
            None
        }),
{
    if index <= (u32::MAX - FIRST_AUDIT_ROW) as usize {
        Some(index as u32 + FIRST_AUDIT_ROW)
    } else {
        None
    }
}

/// The formula for the balance in sheet row `row`, counted from zero. The
/// sheet itself counts from one: the balance of the row above, less the debit
/// of this row, and its credit on top.
pub open spec fn balance_formula_text(row: nat) -> Seq<char> {
    "=H"@ + decimal_digits(row) + "-F"@ + decimal_digits(row + 1) + "+G"@ + decimal_digits(
        row + 1,
    )
}

/// The formula for the closing balance in sheet row `row`, counted from
/// zero: the balance of the row above.
pub open spec fn closing_formula_text(row: nat) -> Seq<char> {
    "=H"@ + decimal_digits(row)
}

/// The formula for the balance in sheet row `row`, counted from zero.
pub fn balance_formula(row: u32) -> (r: String)
    ensures
        r@ == balance_formula_text(row as nat),
{
    let above = decimal_text(row as u128);
    let this = decimal_text(row as u128 + 1);
    String::from_str("=H").concat(above.as_str()).concat("-F").concat(this.as_str()).concat(
        "+G",
    ).concat(this.as_str())
}

/// The formula for the closing balance in sheet row `row`, counted from
/// zero.
pub fn closing_formula(row: u32) -> (r: String)
    ensures
        r@ == closing_formula_text(row as nat),
{
    let above = decimal_text(row as u128);
    String::from_str("=H").concat(above.as_str())
}

} // verus!
