//! The takings of the hamfest table, as rows for a spreadsheet.
//!
//! Every payment and every change given is one row: a payment is a credit,
//! change a debit, and each row carries the balance of the till after it.
//! The items rung up make no rows of their own.

use crate::amount::Amount;
use crate::clock::Timestamp;
use crate::decimal::Decimal;
use crate::hamfest_table::types::{
    line_views, receipt_views, Datafile, DatafileView, Receipt, ReceiptLine, ReceiptLineView,
    ReceiptView, TransactionMethod,
};
use vstd::prelude::*;

verus! {

/// What a [`TillRow`] holds.
pub struct TillRowView {
    pub receipt_number: u128,
    pub timestamp: Timestamp,
    pub method: TransactionMethod,
    pub change: bool,
    pub debit: Amount,
    pub credit: Amount,
    pub balance: Amount,
}

/// One row of the takings.
pub struct TillRow {
    /// The number of the receipt that the line stands on
    pub receipt_number: u128,
    /// When that receipt was started
    pub timestamp: Timestamp,
    /// How the money changed hands
    pub method: TransactionMethod,
    /// Whether this is change given back, and not a payment taken
    pub change: bool,
    /// What went out of the till: the change, or zero for a payment
    pub debit: Decimal,
    /// What came into the till: the payment, or zero for change
    pub credit: Decimal,
    /// What is in the till after this row
    pub balance: Decimal,
}

impl View for TillRow {
    type V = TillRowView;

    open spec fn view(&self) -> TillRowView {
        TillRowView {
            receipt_number: self.receipt_number,
            timestamp: self.timestamp,
            method: self.method,
            change: self.change,
            debit: self.debit@,
            credit: self.credit@,
            balance: self.balance@,
        }
    }
}

/// What `rows` hold.
pub open spec fn row_views(rows: Seq<TillRow>) -> Seq<TillRowView> {
    Seq::new(rows.len(), |i: int| rows[i]@)
}

/// The balance after `rows`: that of the last row, or zero, the opening
/// balance, where there is none.
pub open spec fn closing_balance(rows: Seq<TillRowView>) -> Amount {
    if rows.len() == 0 {
        Amount::zero()
    } else {
        rows.last().balance
    }
}

/// The row of a line that moved `debit` out of the till and `credit` into it.
pub open spec fn money_row(
    rows: Seq<TillRowView>,
    receipt: ReceiptView,
    method: TransactionMethod,
    change: bool,
    debit: Amount,
    credit: Amount,
) -> TillRowView {
    TillRowView {
        receipt_number: receipt.receipt_number,
        timestamp: receipt.timestamp,
        method,
        change,
        debit,
        credit,
        balance: closing_balance(rows).minus(debit).plus(credit),
    }
}

/// `rows`, and after them the row of `line`, if it is a payment or change.
pub open spec fn with_line_row(rows: Seq<TillRowView>, receipt: ReceiptView, line: ReceiptLineView) -> Seq<
    TillRowView,
> {
    match line {
        ReceiptLineView::Item { .. } => rows,
        ReceiptLineView::Payment { method, amount } => rows.push(
            money_row(rows, receipt, method, false, Amount::zero(), amount),
        ),
        ReceiptLineView::Change { method, amount } => rows.push(
            money_row(rows, receipt, method, true, amount, Amount::zero()),
        ),
    }
}

/// `rows`, and after them the rows of the first `n` lines of `receipt`.
pub open spec fn with_receipt_rows(rows: Seq<TillRowView>, receipt: ReceiptView, n: int) -> Seq<
    TillRowView,
>
    decreases n,
{
    if n <= 0 {
        rows
    } else {
        with_line_row(with_receipt_rows(rows, receipt, n - 1), receipt, receipt.lines[n - 1])
    }
}

/// The rows of the first `n` of `receipts`.
pub open spec fn takings_rows(receipts: Seq<ReceiptView>, n: int) -> Seq<TillRowView>
    decreases n,
{
    if n <= 0 {
        Seq::empty()
    } else {
        with_receipt_rows(
            takings_rows(receipts, n - 1),
            receipts[n - 1],
            receipts[n - 1].lines.len() as int,
        )
    }
}

impl DatafileView {
    /// The takings on record.
    pub open spec fn takings(self) -> Seq<TillRowView> {
        takings_rows(self.receipts, self.receipts.len() as int)
    }
}

/// The balance after `rows`.
fn balance_after(rows: &Vec<TillRow>) -> (r: Decimal)
    ensures
        r@ == closing_balance(row_views(rows@)),
{
    if rows.len() == 0 {
        Decimal::zero()
    } else {
        rows[rows.len() - 1].balance.clone()
    }
}

/// Adds the row of `line`, which stands on `receipt`, to `rows`.
fn push_line_row(rows: &mut Vec<TillRow>, receipt: &Receipt, line: &ReceiptLine)
    ensures
        row_views(final(rows)@) == with_line_row(row_views(old(rows)@), receipt@, line@),
{
    let ghost before = row_views(rows@);
    let (method, change, debit, credit) = match line {
        ReceiptLine::Item { .. } => {
            return ;
        },
        ReceiptLine::Payment { method, amount } => (
            *method,
            false,
            Decimal::zero(),
            amount.clone(),
        ),
        ReceiptLine::Change { method, amount } => (*method, true, amount.clone(), Decimal::zero()),
    };
    let balance = balance_after(rows).minus(&debit).plus(&credit);
    rows.push(
        TillRow {
            receipt_number: *receipt.receipt_number(),
            timestamp: *receipt.timestamp(),
            method,
            change,
            debit,
            credit,
            balance,
        },
    );
    assert(row_views(rows@) =~= before.push(
        money_row(before, receipt@, method, change, debit@, credit@),
    ));
}

/// The takings of `books`: for each receipt in turn, a row for each payment
/// and each change given on it, in their order, each with the balance after
/// it.
pub fn transactions(books: &Datafile) -> (r: Vec<TillRow>)
    ensures
        row_views(r@) == books@.takings(),
{
    let receipts = books.receipts();
    let mut rows: Vec<TillRow> = Vec::new();
    assert(row_views(rows@) =~= Seq::empty());
    let mut i: usize = 0;
    while i < receipts.len()
        invariant
            i <= receipts@.len(),
            receipt_views(receipts@) == books@.receipts,
            row_views(rows@) == takings_rows(books@.receipts, i as int),
        decreases receipts@.len() - i,
    {
        let receipt = &receipts[i];
        let lines = receipt.lines();
        assert(books@.receipts[i as int] == receipt@);
        let ghost start = row_views(rows@);
        let mut j: usize = 0;
        while j < lines.len()
            invariant
                j <= lines@.len(),
                line_views(lines@) == receipt@.lines,
                row_views(rows@) == with_receipt_rows(start, receipt@, j as int),
            decreases lines@.len() - j,
        {
            assert(receipt@.lines[j as int] == lines@[j as int]@);
            push_line_row(&mut rows, receipt, &lines[j]);
            j = j + 1;
        }
        i = i + 1;
    }
    rows
}

} // verus!
