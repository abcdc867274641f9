//! Items, receipts, and what the till does with them.

use crate::amount::{
    lemma_below_zero, lemma_minus_flipped, lemma_minus_same, lemma_minus_sign, lemma_of_sign,
    lemma_plus_negated, lemma_plus_zero, Amount,
};
use crate::clock::Timestamp;
use crate::decimal::Decimal;
use vstd::prelude::*;

verus! {

/// How money changed hands.
#[derive(Clone, Copy, PartialEq, Eq, Structural, Debug)]
pub enum TransactionMethod {
    Cash,
    Card,
    BankTransfer,
    Cheque,
}

impl TransactionMethod {
    /// The words for this method.
    pub open spec fn words(self) -> Seq<char> {
        match self {
            TransactionMethod::Cash => "Cash"@,
            TransactionMethod::Card => "Card"@,
            TransactionMethod::BankTransfer => "Bank Transfer"@,
            TransactionMethod::Cheque => "Cheque"@,
        }
    }

    /// The words for this method.
    pub fn label(&self) -> (r: &'static str)
        ensures
            r@ == self.words(),
    {
        match self {
            TransactionMethod::Cash => "Cash",
            TransactionMethod::Card => "Card",
            TransactionMethod::BankTransfer => "Bank Transfer",
            TransactionMethod::Cheque => "Cheque",
        }
    }
}

/// What an [`Item`] holds.
pub struct ItemView {
    pub barcode: Seq<char>,
    pub name: Seq<char>,
    pub description: Seq<char>,
    pub price: Amount,
}

/// What a [`ReceiptLine`] holds.
pub enum ReceiptLineView {
    Item { item: ItemView },
    Payment { method: TransactionMethod, amount: Amount },
    Change { method: TransactionMethod, amount: Amount },
}

/// What a [`Receipt`] holds.
pub struct ReceiptView {
    pub timestamp: Timestamp,
    pub receipt_number: u128,
    pub lines: Seq<ReceiptLineView>,
}

/// What a [`Datafile`] holds.
pub struct DatafileView {
    pub items: Seq<ItemView>,
    pub receipts: Seq<ReceiptView>,
}

/// What is still to pay after the first `n` of `lines`: the prices of the
/// items, less the payments, and the change given back on top.
pub open spec fn lines_total(lines: Seq<ReceiptLineView>, n: int) -> Amount
    decreases n,
{
    if n <= 0 {
        Amount::zero()
    } else {
        let before = lines_total(lines, n - 1);
        match lines[n - 1] {
            ReceiptLineView::Item { item } => before.plus(item.price),
            ReceiptLineView::Payment { amount, .. } => before.minus(amount),
            ReceiptLineView::Change { amount, .. } => before.plus(amount),
        }
    }
}

/// The total of the first lines of a receipt does not depend on the lines
/// that come after them.
pub proof fn lemma_total_of_front(
    lines: Seq<ReceiptLineView>,
    longer: Seq<ReceiptLineView>,
    n: int,
)
    requires
        n <= lines.len() <= longer.len(),
        forall|i: int| 0 <= i < lines.len() ==> longer[i] == lines[i],
    ensures
        lines_total(longer, n) == lines_total(lines, n),
    decreases n,
{
    if n > 0 {
        lemma_total_of_front(lines, longer, n - 1);
    }
}

/// Whether line `i` of `lines` rings up an item with `barcode`.
pub open spec fn rings_up(lines: Seq<ReceiptLineView>, barcode: Seq<char>, i: int) -> bool {
    0 <= i < lines.len() && lines[i] is Item && lines[i]->item.barcode == barcode
}

/// Whether item `i` of `items` has `barcode`.
pub open spec fn stocked_at(items: Seq<ItemView>, barcode: Seq<char>, i: int) -> bool {
    0 <= i < items.len() && items[i].barcode == barcode
}

/// Whether `i` is the first item of `items` that has `barcode`.
pub open spec fn first_stocked_at(items: Seq<ItemView>, barcode: Seq<char>, i: int) -> bool {
    stocked_at(items, barcode, i) && forall|j: int| 0 <= j < i ==> !stocked_at(items, barcode, j)
}

impl ReceiptView {
    /// What is still to pay on this receipt.
    pub open spec fn total(self) -> Amount {
        lines_total(self.lines, self.lines.len() as int)
    }

    /// Whether an item with `barcode` is on this receipt.
    pub open spec fn has_item(self, barcode: Seq<char>) -> bool {
        exists|i: int| rings_up(self.lines, barcode, i)
    }

    /// What to hand back when the customer hands over `handed` in cash: what
    /// it exceeds the total by, if it does.
    pub open spec fn change_for(self, handed: Amount) -> Amount {
        let over = handed.minus(self.total());
        if Amount::zero().less_than(over) {
            over
        } else {
            Amount::zero()
        }
    }

    /// What is still to pay once `handed` has been taken in cash and the
    /// change given: nothing, unless `handed` was short of the total.
    pub open spec fn left_after_cash(self, handed: Amount) -> Amount {
        if handed.less_than(self.total()) {
            self.total().minus(handed)
        } else {
            Amount::zero()
        }
    }
}

/// Cash and its change settle the bill: what is left of `total` once `handed`
/// has been taken off it and the change put back on is nothing, unless
/// `handed` was short.
pub proof fn lemma_cash_and_change(total: Amount, handed: Amount)
    ensures
        ({
            let over = handed.minus(total);
            let change = if Amount::zero().less_than(over) {
                over
            } else {
                Amount::zero()
            };
            total.minus(handed).plus(change) == (if handed.less_than(total) {
                total.minus(handed)
            } else {
                Amount::zero()
            })
        }),
{
    let over = handed.minus(total);
    let short = total.minus(handed);
    let scale = total.common_scale(handed);
    lemma_minus_flipped(total, handed);
    lemma_minus_sign(handed, total);
    lemma_minus_sign(total, handed);
    lemma_below_zero(over);
    lemma_of_sign(total.lifted(scale) - handed.lifted(scale), scale);
    if Amount::zero().less_than(over) {
        lemma_plus_negated(over);
    } else if handed.less_than(total) {
        lemma_plus_zero(short);
    } else {
        lemma_minus_same(total, handed);
        lemma_plus_zero(Amount::zero());
    }
}

/// An item the table sells.
pub struct Item {
    barcode: String,
    name: String,
    description: String,
    price: Decimal,
}

impl View for Item {
    type V = ItemView;

    closed spec fn view(&self) -> ItemView {
        ItemView {
            barcode: self.barcode@,
            name: self.name@,
            description: self.description@,
            price: self.price@,
        }
    }
}

impl Item {
    /// Create a new empty item with just a barcode
    pub fn new(barcode: String) -> (r: Item)
        ensures
            r@ == (ItemView {
                barcode: barcode@,
                name: Seq::empty(),
                description: Seq::empty(),
                price: Amount::zero(),
            }),
    {
        Item { barcode, name: String::new(), description: String::new(), price: Decimal::zero() }
    }

    /// Whether the till takes these details into the stock list: they have a
    /// barcode, a name, and a price that is not zero.
    pub fn worth_recording(&self) -> (r: bool)
        ensures
            r == self@.worth_recording(),
    {
        !self.barcode.as_str().is_empty() && !self.name.as_str().is_empty()
            && !self.price.is_zero()
    }

    pub fn barcode(&self) -> (r: &String)
        ensures
            r@ == self@.barcode,
    {
        &self.barcode
    }

    pub fn name(&self) -> (r: &String)
        ensures
            r@ == self@.name,
    {
        &self.name
    }

    pub fn description(&self) -> (r: &String)
        ensures
            r@ == self@.description,
    {
        &self.description
    }

    pub fn price(&self) -> (r: &Decimal)
        ensures
            r@ == self@.price,
    {
        &self.price
    }

    pub fn set_name(&mut self, val: String) -> (r: &mut Item)
        ensures
            r@ == (ItemView { name: val@, ..old(self)@ }),
            *final(self) == *final(r),
    {
        self.name = val;
        self
    }

    pub fn set_description(&mut self, val: String) -> (r: &mut Item)
        ensures
            r@ == (ItemView { description: val@, ..old(self)@ }),
            *final(self) == *final(r),
    {
        self.description = val;
        self
    }

    pub fn set_price(&mut self, val: Decimal) -> (r: &mut Item)
        ensures
            r@ == (ItemView { price: val@, ..old(self)@ }),
            *final(self) == *final(r),
    {
        self.price = val;
        self
    }
}

impl Default for Item {
    fn default() -> (r: Item)
        ensures
            r@ == (ItemView {
                barcode: Seq::empty(),
                name: Seq::empty(),
                description: Seq::empty(),
                price: Amount::zero(),
            }),
    {
        Item::new(String::new())
    }
}

impl Clone for Item {
    fn clone(&self) -> (r: Item)
        ensures
            r@ == self@,
    {
        Item {
            barcode: self.barcode.clone(),
            name: self.name.clone(),
            description: self.description.clone(),
            price: self.price.clone(),
        }
    }
}

/// One line of a receipt.
pub enum ReceiptLine {
    Item { item: Item },
    Payment { method: TransactionMethod, amount: Decimal },
    Change { method: TransactionMethod, amount: Decimal },
}

impl View for ReceiptLine {
    type V = ReceiptLineView;

    open spec fn view(&self) -> ReceiptLineView {
        match *self {
            ReceiptLine::Item { item } => ReceiptLineView::Item { item: item@ },
            ReceiptLine::Payment { method, amount } => ReceiptLineView::Payment {
                method,
                amount: amount@,
            },
            ReceiptLine::Change { method, amount } => ReceiptLineView::Change {
                method,
                amount: amount@,
            },
        }
    }
}

impl Clone for ReceiptLine {
    fn clone(&self) -> (r: ReceiptLine)
        ensures
            r@ == self@,
    {
        match self {
            ReceiptLine::Item { item } => ReceiptLine::Item { item: item.clone() },
            ReceiptLine::Payment { method, amount } => ReceiptLine::Payment {
                method: *method,
                amount: amount.clone(),
            },
            ReceiptLine::Change { method, amount } => ReceiptLine::Change {
                method: *method,
                amount: amount.clone(),
            },
        }
    }
}

/// What `lines` hold.
pub open spec fn line_views(lines: Seq<ReceiptLine>) -> Seq<ReceiptLineView> {
    Seq::new(lines.len(), |i: int| lines[i]@)
}

/// What `items` hold.
pub open spec fn item_views(items: Seq<Item>) -> Seq<ItemView> {
    Seq::new(items.len(), |i: int| items[i]@)
}

/// What `receipts` hold.
pub open spec fn receipt_views(receipts: Seq<Receipt>) -> Seq<ReceiptView> {
    Seq::new(receipts.len(), |i: int| receipts[i]@)
}

/// Documents represent both receipts and payments
pub struct Receipt {
    timestamp: Timestamp,
    receipt_number: u128,
    lines: Vec<ReceiptLine>,
}

impl View for Receipt {
    type V = ReceiptView;

    closed spec fn view(&self) -> ReceiptView {
        ReceiptView {
            timestamp: self.timestamp,
            receipt_number: self.receipt_number,
            lines: line_views(self.lines@),
        }
    }
}

/// `uuid::Uuid::new_v4`, as the number that `as_u128` gives for it. It is
/// drawn at random, and nothing is claimed of it.
#[verifier::external_body]
fn random_receipt_number() -> u128 {
    uuid::Uuid::new_v4().as_u128()
}

impl Receipt {
    /// An empty receipt with the given time and number.
    pub fn at(timestamp: Timestamp, receipt_number: u128) -> (r: Receipt)
        ensures
            r@ == (ReceiptView { timestamp, receipt_number, lines: Seq::empty() }),
    {
        let r = Receipt { timestamp, receipt_number, lines: Vec::new() };
        assert(r@.lines =~= Seq::empty());
        r
    }

    /// A receipt with the given time, number and lines.
    pub fn from_parts(timestamp: Timestamp, receipt_number: u128, lines: Vec<ReceiptLine>) -> (r:
        Receipt)
        ensures
            r@ == (ReceiptView { timestamp, receipt_number, lines: line_views(lines@) }),
    {
        Receipt { timestamp, receipt_number, lines }
    }

    /// Create a new receipt: empty, of the present moment, with a number
    /// drawn at random.
    pub fn new() -> (r: Receipt)
        ensures
            r@.lines == Seq::<ReceiptLineView>::empty(),
    {
        Receipt::at(Timestamp::now(), random_receipt_number())
    }

    pub fn timestamp(&self) -> (r: &Timestamp)
        ensures
            *r == self@.timestamp,
    {
        &self.timestamp
    }

    pub fn receipt_number(&self) -> (r: &u128)
        ensures
            *r == self@.receipt_number,
    {
        &self.receipt_number
    }

    pub fn lines(&self) -> (r: &Vec<ReceiptLine>)
        ensures
            line_views(r@) == self@.lines,
    {
        &self.lines
    }

    pub fn lines_mut(&mut self) -> (r: &mut Vec<ReceiptLine>)
        ensures
            line_views(r@) == old(self)@.lines,
            final(self)@ == (ReceiptView { lines: line_views(final(r)@), ..old(self)@ }),
    {
        &mut self.lines
    }

    /// Calculate the total of this receipt
    pub fn total(&self) -> (r: Decimal)
        ensures
            r@ == self@.total(),
    {
        self.total_before(self.lines.len())
    }

    /// The total of the first `n` lines of this receipt: what was still to
    /// pay when line `n` was written.
    pub fn total_before(&self, n: usize) -> (r: Decimal)
        requires
            n <= self@.lines.len(),
        ensures
            r@ == lines_total(self@.lines, n as int),
    {
        let mut total = Decimal::zero();
        let mut i: usize = 0;
        while i < n
            invariant
                i <= n <= self.lines@.len(),
                total@ == lines_total(self@.lines, i as int),
            decreases n - i,
        {
            assert(self@.lines[i as int] == self.lines@[i as int]@);
            match &self.lines[i] {
                ReceiptLine::Item { item } => {
                    total = total.plus(&item.price);
                },
                ReceiptLine::Payment { amount, .. } => {
                    total = total.minus(amount);
                },
                ReceiptLine::Change { amount, .. } => {
                    total = total.plus(amount);
                },
            }
            i = i + 1;
        }
        total
    }

    /// Whether nothing is left to pay. A receipt without lines is settled.
    pub fn is_settled(&self) -> (r: bool)
        ensures
            r == (self@.total() == Amount::zero()),
    {
        self.total().is_zero()
    }

    /// Whether an item with `barcode` is on this receipt.
    pub fn has_item(&self, barcode: &String) -> (r: bool)
        ensures
            r == self@.has_item(barcode@),
    {
        let mut i: usize = 0;
        while i < self.lines.len()
            invariant
                i <= self.lines@.len(),
                forall|j: int| 0 <= j < i ==> !rings_up(self@.lines, barcode@, j),
            decreases self.lines@.len() - i,
        {
            assert(self@.lines[i as int] == self.lines@[i as int]@);
            match &self.lines[i] {
                ReceiptLine::Item { item } => {
                    if item.barcode == *barcode {
                        assert(rings_up(self@.lines, barcode@, i as int));
                        return true;
                    }
                },
                _ => {},
            }
            i = i + 1;
        }
        false
    }

    /// Rings `item` up, unless an item with its barcode is on the receipt
    /// already. Says whether it did.
    pub fn add_item(&mut self, item: Item) -> (added: bool)
        ensures
            added == !old(self)@.has_item(item@.barcode),
            final(self)@ == (if added {
                ReceiptView {
                    lines: old(self)@.lines.push(ReceiptLineView::Item { item: item@ }),
                    ..old(self)@
                }
            } else {
                old(self)@
            }),
    {
        if self.has_item(&item.barcode) {
            return false;
        }
        let ghost line = ReceiptLineView::Item { item: item@ };
        self.lines.push(ReceiptLine::Item { item });
        assert(self@.lines =~= old(self)@.lines.push(line));
        true
    }

    /// Takes line `index` off the receipt.
    pub fn remove_line(&mut self, index: usize) -> (line: ReceiptLine)
        requires
            index < old(self)@.lines.len(),
        ensures
            line@ == old(self)@.lines[index as int],
            final(self)@ == (ReceiptView {
                lines: old(self)@.lines.remove(index as int),
                ..old(self)@
            }),
    {
        let line = self.lines.remove(index);
        assert(self@.lines =~= old(self)@.lines.remove(index as int));
        line
    }

    /// Pays what is still to pay by `method`, which settles the receipt.
    pub fn pay(&mut self, method: TransactionMethod)
        ensures
            final(self)@ == (ReceiptView {
                lines: old(self)@.lines.push(
                    ReceiptLineView::Payment { method, amount: old(self)@.total() },
                ),
                ..old(self)@
            }),
            final(self)@.total() == Amount::zero(),
    {
        let amount = self.total();
        self.lines.push(ReceiptLine::Payment { method, amount });
        assert(self@.lines =~= old(self)@.lines.push(
            ReceiptLineView::Payment { method, amount: old(self)@.total() },
        ));
        proof {
            lemma_total_of_front(old(self)@.lines, self@.lines, old(self)@.lines.len() as int);
            lemma_minus_sign(old(self)@.total(), old(self)@.total());
        }
    }

    /// What to hand back when the customer hands over `handed` in cash.
    pub fn change_for(&self, handed: &Decimal) -> (r: Decimal)
        ensures
            r@ == self@.change_for(handed@),
    {
        let total = self.total();
        handed.minus(&total).greater(Decimal::zero())
    }

    /// Takes `handed` in cash and gives the change for it: the payment goes
    /// on the receipt, and then the change, also where it is zero. That
    /// settles the receipt, unless `handed` was short.
    pub fn pay_cash(&mut self, handed: Decimal)
        ensures
            final(self)@ == (ReceiptView {
                lines: old(self)@.lines.push(
                    ReceiptLineView::Payment { method: TransactionMethod::Cash, amount: handed@ },
                ).push(
                    ReceiptLineView::Change {
                        method: TransactionMethod::Cash,
                        amount: old(self)@.change_for(handed@),
                    },
                ),
                ..old(self)@
            }),
            final(self)@.total() == old(self)@.left_after_cash(handed@),
    {
        let change = self.change_for(&handed);
        self.lines.push(ReceiptLine::Payment { method: TransactionMethod::Cash, amount: handed });
        self.lines.push(ReceiptLine::Change { method: TransactionMethod::Cash, amount: change });
        assert(self@.lines =~= old(self)@.lines.push(
            ReceiptLineView::Payment { method: TransactionMethod::Cash, amount: handed@ },
        ).push(
            ReceiptLineView::Change {
                method: TransactionMethod::Cash,
                amount: old(self)@.change_for(handed@),
            },
        ));
        proof {
            let before = old(self)@.lines;
            let n = before.len() as int;
            lemma_total_of_front(before, self@.lines, n);
            assert(lines_total(self@.lines, n + 1) == old(self)@.total().minus(handed@));
            lemma_cash_and_change(old(self)@.total(), handed@);
        }
    }
}

impl Clone for Receipt {
    fn clone(&self) -> (r: Receipt)
        ensures
            r@ == self@,
    {
        let mut lines: Vec<ReceiptLine> = Vec::new();
        let mut i: usize = 0;
        while i < self.lines.len()
            invariant
                i <= self.lines@.len(),
                lines@.len() == i,
                forall|j: int| 0 <= j < i ==> (#[trigger] lines@[j])@ == self.lines@[j]@,
            decreases self.lines@.len() - i,
        {
            lines.push(self.lines[i].clone());
            i = i + 1;
        }
        assert(line_views(lines@) =~= line_views(self.lines@));
        Receipt { timestamp: self.timestamp, receipt_number: self.receipt_number, lines }
    }
}

/// The stock list of the table and the receipts written so far.
pub struct Datafile {
    items: Vec<Item>,
    receipts: Vec<Receipt>,
}

impl View for Datafile {
    type V = DatafileView;

    closed spec fn view(&self) -> DatafileView {
        DatafileView { items: item_views(self.items@), receipts: receipt_views(self.receipts@) }
    }
}

impl Datafile {
    /// Create a new datafile
    pub fn new() -> (r: Datafile)
        ensures
            r@ == (DatafileView { items: Seq::empty(), receipts: Seq::empty() }),
    {
        let r = Datafile { items: Vec::new(), receipts: Vec::new() };
        assert(r@.items =~= Seq::empty());
        assert(r@.receipts =~= Seq::empty());
        r
    }

    /// A datafile with the given stock list and receipts.
    pub fn from_parts(items: Vec<Item>, receipts: Vec<Receipt>) -> (r: Datafile)
        ensures
            r@ == (DatafileView { items: item_views(items@), receipts: receipt_views(receipts@) }),
    {
        Datafile { items, receipts }
    }

    pub fn items(&self) -> (r: &Vec<Item>)
        ensures
            item_views(r@) == self@.items,
    {
        &self.items
    }

    pub fn items_mut(&mut self) -> (r: &mut Vec<Item>)
        ensures
            item_views(r@) == old(self)@.items,
            final(self)@ == (DatafileView { items: item_views(final(r)@), ..old(self)@ }),
    {
        &mut self.items
    }

    pub fn receipts(&self) -> (r: &Vec<Receipt>)
        ensures
            receipt_views(r@) == self@.receipts,
    {
        &self.receipts
    }

    pub fn receipts_mut(&mut self) -> (r: &mut Vec<Receipt>)
        ensures
            receipt_views(r@) == old(self)@.receipts,
            final(self)@ == (DatafileView { receipts: receipt_views(final(r)@), ..old(self)@ }),
    {
        &mut self.receipts
    }

    /// Where the first item with `barcode` stands in the stock list.
    pub fn position_of(&self, barcode: &String) -> (r: Option<usize>)
        ensures
            match r {
                Some(i) => first_stocked_at(self@.items, barcode@, i as int),
                None => forall|i: int| !stocked_at(self@.items, barcode@, i),
            },
    {
        let mut i: usize = 0;
        while i < self.items.len()
            invariant
                i <= self.items@.len(),
                forall|j: int| 0 <= j < i ==> !stocked_at(self@.items, barcode@, j),
            decreases self.items@.len() - i,
        {
            if self.items[i].barcode == *barcode {
                return Some(i);
            }
            i = i + 1;
        }
        None
    }

    /// The first item in the stock list with `barcode`.
    pub fn find_item(&self, barcode: &String) -> (r: Option<&Item>)
        ensures
            match r {
                Some(item) => exists|i: int|
                    first_stocked_at(self@.items, barcode@, i) && item@ == self@.items[i],
                None => forall|i: int| !stocked_at(self@.items, barcode@, i),
            },
    {
        match self.position_of(barcode) {
            Some(i) => {
                assert(first_stocked_at(self@.items, barcode@, i as int));
                Some(&self.items[i])
            },
            None => None,
        }
    }

    /// Takes the details of `item` into the stock list, under its barcode.
    ///
    /// An item without a barcode, without a name or with a price of zero is
    /// not taken, and the answer is `false`. Else the first item in the list
    /// with that barcode gets the name, description and price of `item`; if
    /// there is none, one is added at the end.
    pub fn record_item(&mut self, item: &Item) -> (recorded: bool)
        ensures
            recorded == item@.worth_recording(),
            final(self)@ == old(self)@.with_item(item@),
    {
        if !item.worth_recording() {
            return false;
        }
        let ghost before = self@;
        let slot = match self.position_of(&item.barcode) {
            Some(i) => i,
            None => {
                self.items.push(Item::new(item.barcode.clone()));
                assert(self@.items =~= before.items.push(
                    ItemView {
                        barcode: item@.barcode,
                        name: Seq::empty(),
                        description: Seq::empty(),
                        price: Amount::zero(),
                    },
                ));
                self.items.len() - 1
            },
        };
        self.items[slot].name = item.name.clone();
        self.items[slot].description = item.description.clone();
        self.items[slot].price = item.price.clone();
        assert(self@.items =~= before.with_item(item@).items);
        assert(self@.receipts =~= before.receipts);
        true
    }

    /// Files a receipt.
    pub fn file_receipt(&mut self, receipt: Receipt)
        ensures
            final(self)@ == (DatafileView {
                receipts: old(self)@.receipts.push(receipt@),
                ..old(self)@
            }),
    {
        self.receipts.push(receipt);
        assert(self@.receipts =~= old(self)@.receipts.push(receipt@));
        assert(self@.items =~= old(self)@.items);
    }

    /// The receipt to ring the next item up on. A receipt that is open and
    /// not settled is kept. One that is settled is filed, and a new one
    /// started; where there is none, a new one is started.
    pub fn ensure_receipt(&mut self, current: Option<Receipt>) -> (r: Receipt)
        ensures
            match current {
                Some(open) => if open@.total() == Amount::zero() {
                    &&& final(self)@ == (DatafileView {
                        receipts: old(self)@.receipts.push(open@),
                        ..old(self)@
                    })
                    &&& r@.lines == Seq::<ReceiptLineView>::empty()
                } else {
                    final(self)@ == old(self)@ && r@ == open@
                },
                None => final(self)@ == old(self)@ && r@.lines == Seq::<ReceiptLineView>::empty(),
            },
    {
        match current {
            Some(open) => {
                if open.is_settled() {
                    self.file_receipt(open);
                    Receipt::new()
                } else {
                    open
                }
            },
            None => Receipt::new(),
        }
    }
}

impl ItemView {
    /// Whether the till takes these details into the stock list: they have a
    /// barcode, a name, and a price that is not zero.
    pub open spec fn worth_recording(self) -> bool {
        self.barcode.len() > 0 && self.name.len() > 0 && self.price != Amount::zero()
    }
}

impl DatafileView {
    /// Where the details of an item with `barcode` go: the first item with
    /// that barcode, or a new one at the end.
    pub open spec fn slot_for(self, barcode: Seq<char>) -> int {
        if exists|i: int| first_stocked_at(self.items, barcode, i) {
            choose|i: int| first_stocked_at(self.items, barcode, i)
        } else {
            self.items.len() as int
        }
    }

    /// The stock list once the till has been given the details `item`.
    pub open spec fn with_item(self, item: ItemView) -> DatafileView {
        if item.worth_recording() {
            let slot = self.slot_for(item.barcode);
            if slot < self.items.len() {
                DatafileView { items: self.items.update(slot, item), ..self }
            } else {
                DatafileView { items: self.items.push(item), ..self }
            }
        } else {
            self
        }
    }
}

} // verus!
