//! The transaction ledger of a surplus sale, as rows for a spreadsheet.
//!
//! Every settlement of a lot is one row: what the buyer paid the club is a
//! credit, what the club paid the seller a debit, and each row carries the
//! balance of the club's cash after it.

use crate::amount::Amount;
use crate::decimal::Decimal;
use crate::surplus_sale::model::{DatafileView, ItemView};
use crate::surplus_sale::types::{item_views, Datafile, Item};
use crate::types::{Callsign, CallsignView};
use vstd::prelude::*;

verus! {

/// What a [`ReportRow`] holds.
pub struct ReportRowView {
    pub lot_number: Seq<char>,
    pub description: Seq<char>,
    pub party: CallsignView,
    pub debit: Option<Amount>,
    pub credit: Option<Amount>,
    pub balance: Amount,
}

/// One row of the transaction ledger.
pub struct ReportRow {
    /// The lot that was settled
    pub lot_number: String,
    /// Its description
    pub description: String,
    /// Who settled: the buyer on a credit, the seller on a debit
    pub party: Callsign,
    /// What the club paid out
    pub debit: Option<Decimal>,
    /// What the club took in
    pub credit: Option<Decimal>,
    /// The club's cash after this row
    pub balance: Decimal,
}

/// What `amount` holds, if there is one.
pub open spec fn amount_view(amount: Option<Decimal>) -> Option<Amount> {
    match amount {
        Some(decimal) => Some(decimal@),
        None => None,
    }
}

impl View for ReportRow {
    type V = ReportRowView;

    open spec fn view(&self) -> ReportRowView {
        ReportRowView {
            lot_number: self.lot_number@,
            description: self.description@,
            party: self.party@,
            debit: amount_view(self.debit),
            credit: amount_view(self.credit),
            balance: self.balance@,
        }
    }
}

/// What `rows` hold.
pub open spec fn row_views(rows: Seq<ReportRow>) -> Seq<ReportRowView> {
    Seq::new(rows.len(), |i: int| rows[i]@)
}

/// The balance after `rows`: that of the last row, or zero, the opening
/// balance, where there is none.
pub open spec fn closing_balance(rows: Seq<ReportRowView>) -> Amount {
    if rows.len() == 0 {
        Amount::zero()
    } else {
        rows.last().balance
    }
}

/// The row for the buyer having paid for `item`, after a balance of
/// `opening`.
pub open spec fn credit_row(item: ItemView, opening: Amount) -> ReportRowView {
    ReportRowView {
        lot_number: item.lot_number,
        description: item.description,
        party: item.sold->0.buyer,
        debit: None,
        credit: Some(item.sold->0.hammer_price),
        balance: opening.plus(item.sold->0.hammer_price),
    }
}

/// What the seller of `item` was paid out: the hammer price times `keep`, or
/// nothing where they left it all to the club.
pub open spec fn paid_out(item: ItemView, keep: Amount) -> Amount {
    if item.sold->0.seller_all_funds_to_club {
        Amount::zero()
    } else {
        item.sold->0.hammer_price.times(keep)
    }
}

/// The row for the seller of `item` having been paid out, after a balance of
/// `opening`.
pub open spec fn debit_row(item: ItemView, keep: Amount, opening: Amount) -> ReportRowView {
    ReportRowView {
        lot_number: item.lot_number,
        description: item.description,
        party: item.seller,
        debit: Some(paid_out(item, keep)),
        credit: None,
        balance: opening.minus(paid_out(item, keep)),
    }
}

/// `rows`, and after them the rows of `item`: one if its buyer has paid, and
/// then one if its seller has been paid out.
pub open spec fn with_item_rows(rows: Seq<ReportRowView>, item: ItemView, keep: Amount) -> Seq<
    ReportRowView,
> {
    match item.sold {
        None => rows,
        Some(sold) => {
            let with_credit = if sold.buyer_reconciled {
                rows.push(credit_row(item, closing_balance(rows)))
            } else {
                rows
            };
            if sold.seller_reconciled {
                with_credit.push(debit_row(item, keep, closing_balance(with_credit)))
            } else {
                with_credit
            }
        },
    }
}

/// The rows of the first `n` of `items`.
pub open spec fn report_rows(items: Seq<ItemView>, keep: Amount, n: int) -> Seq<ReportRowView>
    decreases n,
{
    if n <= 0 {
        Seq::empty()
    } else {
        with_item_rows(report_rows(items, keep, n - 1), items[n - 1], keep)
    }
}

impl DatafileView {
    /// The transaction ledger of these books.
    pub open spec fn report(self) -> Seq<ReportRowView> {
        report_rows(self.items, self.keep(), self.items.len() as int)
    }
}

/// The balance after `rows`.
fn balance_after(rows: &Vec<ReportRow>) -> (r: Decimal)
    ensures
        r@ == closing_balance(row_views(rows@)),
{
    if rows.len() == 0 {
        Decimal::zero()
    } else {
        rows[rows.len() - 1].balance.clone()
    }
}

/// Adds the rows of `item` to `rows`.
fn push_item_rows(rows: &mut Vec<ReportRow>, item: &Item, keep: &Decimal)
    requires
        item.wf(),
        keep.is_factor(),
    ensures
        row_views(final(rows)@) == with_item_rows(row_views(old(rows)@), item@, keep@),
{
    let ghost before = row_views(rows@);
    match item.sold_details() {
        Some(sold) => {
            if *sold.buyer_reconciled() {
                let opening = balance_after(rows);
                rows.push(
                    ReportRow {
                        lot_number: item.lot_number().clone(),
                        description: item.description().clone(),
                        party: sold.buyer_callsign().clone(),
                        debit: None,
                        credit: Some(sold.hammer_price().clone()),
                        balance: opening.plus(sold.hammer_price()),
                    },
                );
                assert(row_views(rows@) =~= before.push(credit_row(item@, closing_balance(before))));
            }
            let ghost with_credit = row_views(rows@);
            if *sold.seller_reconciled() {
                let opening = balance_after(rows);
                let paid = if *sold.seller_all_funds_to_club() {
                    Decimal::zero()
                } else {
                    sold.hammer_price().times(keep)
                };
                let balance = opening.minus(&paid);
                rows.push(
                    ReportRow {
                        lot_number: item.lot_number().clone(),
                        description: item.description().clone(),
                        party: item.seller_callsign().clone(),
                        debit: Some(paid),
                        credit: None,
                        balance,
                    },
                );
                assert(row_views(rows@) =~= with_credit.push(
                    debit_row(item@, keep@, closing_balance(with_credit)),
                ));
            }
        },
        None => {},
    }
}

/// The transaction ledger of `books`: for each lot in turn, a credit if its
/// buyer has paid and a debit if its seller has been paid out, each with the
/// balance after it.
pub fn transactions(books: &Datafile) -> (r: Vec<ReportRow>)
    requires
        books.wf(),
    ensures
        row_views(r@) == books@.report(),
{
    let keep = Decimal::one().minus(books.club_taking());
    let items = books.items();
    let mut rows: Vec<ReportRow> = Vec::new();
    assert(row_views(rows@) =~= Seq::empty());
    let mut i: usize = 0;
    while i < items.len()
        invariant
            i <= items@.len(),
            item_views(items@) == books@.items,
            keep.is_factor(),
            keep@ == books@.keep(),
            forall|j: int| 0 <= j < items@.len() ==> (#[trigger] items@[j]).wf(),
            row_views(rows@) == report_rows(books@.items, keep@, i as int),
        decreases items@.len() - i,
    {
        assert(books@.items[i as int] == items@[i as int]@);
        push_item_rows(&mut rows, &items[i], &keep);
        i = i + 1;
    }
    rows
}

} // verus!
