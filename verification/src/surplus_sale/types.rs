//! The books of a surplus sale and the operations on them.

use crate::clock::Timestamp;
use crate::currency::Currency;
use crate::decimal::Decimal;
use crate::amount::{lemma_below_zero, lemma_minus_negative, lemma_minus_sign, Amount};
use crate::surplus_sale::lots::{
    holds_lot, is_next_lot, lemma_next_lot, lemma_taken_lots_bounded, lot_label, lot_number_text,
    lot_taken, next_lot,
};
use crate::surplus_sale::model::{
    buyer_settled, debtor_slot, distinct_debtors, distinct_parties, dues_paid, events, knows,
    open_purchases, open_sales, owed_at, parties_known, purchases_debit, purchases_owed,
    sales_credit, sales_owing, seller_settled, settled, with_party, AuditEntryView, AuditItemView,
    DatafileView, ItemView, LiabilityView, SoldView,
};
use crate::types::{Callsign, CallsignView};
use vstd::prelude::*;

verus! {

/// How a lot was sold, and how far the sale has been settled.
pub struct SoldDetails {
    /// What price was this sold for under the hammer?
    hammer_price: Decimal,
    /// The callsign of the buyer
    buyer_callsign: Callsign,
    /// Has the buyer reconciled against this item?
    buyer_reconciled: bool,
    /// Has the seller reconciled against this item?
    seller_reconciled: bool,
    /// Indicates that the seller opted for all revenue to go to the
    /// club
    seller_all_funds_to_club: bool,
}

impl View for SoldDetails {
    type V = SoldView;

    closed spec fn view(&self) -> SoldView {
        SoldView {
            hammer_price: self.hammer_price@,
            buyer: self.buyer_callsign@,
            buyer_reconciled: self.buyer_reconciled,
            seller_reconciled: self.seller_reconciled,
            seller_all_funds_to_club: self.seller_all_funds_to_club,
        }
    }
}

impl SoldDetails {
    /// The details of a sale, settled as far as the marks say.
    pub fn new(
        hammer_price: Decimal,
        buyer_callsign: Callsign,
        buyer_reconciled: bool,
        seller_reconciled: bool,
        seller_all_funds_to_club: bool,
    ) -> (r: SoldDetails)
        ensures
            r@ == (SoldView {
                hammer_price: hammer_price@,
                buyer: buyer_callsign@,
                buyer_reconciled,
                seller_reconciled,
                seller_all_funds_to_club,
            }),
            r.price_is_factor() == hammer_price.is_factor(),
    {
        SoldDetails {
            hammer_price,
            buyer_callsign,
            buyer_reconciled,
            seller_reconciled,
            seller_all_funds_to_club,
        }
    }

    /// The scale of the hammer price leaves room for the club taking to be
    /// taken off it.
    pub closed spec fn price_is_factor(&self) -> bool {
        self.hammer_price.is_factor()
    }

    /// Whether the scale of the hammer price leaves room for the club taking
    /// to be taken off it.
    pub fn price_fits(&self) -> (r: bool)
        ensures
            r == self.price_is_factor(),
    {
        self.hammer_price.fits_factor()
    }

    pub fn hammer_price(&self) -> (r: &Decimal)
        ensures
            r@ == self@.hammer_price,
            r.is_factor() == self.price_is_factor(),
    {
        &self.hammer_price
    }

    pub fn buyer_callsign(&self) -> (r: &Callsign)
        ensures
            r@ == self@.buyer,
    {
        &self.buyer_callsign
    }

    pub fn buyer_reconciled(&self) -> (r: &bool)
        ensures
            *r == self@.buyer_reconciled,
    {
        &self.buyer_reconciled
    }

    pub fn seller_reconciled(&self) -> (r: &bool)
        ensures
            *r == self@.seller_reconciled,
    {
        &self.seller_reconciled
    }

    pub fn seller_all_funds_to_club(&self) -> (r: &bool)
        ensures
            *r == self@.seller_all_funds_to_club,
    {
        &self.seller_all_funds_to_club
    }
}

impl Clone for SoldDetails {
    fn clone(&self) -> (r: SoldDetails)
        ensures
            r@ == self@,
            r.price_is_factor() == self.price_is_factor(),
    {
        SoldDetails {
            hammer_price: self.hammer_price.clone(),
            buyer_callsign: self.buyer_callsign.clone(),
            buyer_reconciled: self.buyer_reconciled,
            seller_reconciled: self.seller_reconciled,
            seller_all_funds_to_club: self.seller_all_funds_to_club,
        }
    }
}

/// What `details` hold, if there are any.
pub open spec fn sold_view(details: Option<SoldDetails>) -> Option<SoldView> {
    match details {
        Some(sold) => Some(sold@),
        None => None,
    }
}

/// One lot of the sale.
pub struct Item {
    /// The unique lot number for this item
    lot_number: String,
    /// The callsign of the seller
    seller_callsign: Callsign,
    /// The description of this item
    description: String,
    /// Details about the item's sale, if it was successful
    sold_details: Option<SoldDetails>,
}

impl View for Item {
    type V = ItemView;

    closed spec fn view(&self) -> ItemView {
        ItemView {
            lot_number: self.lot_number@,
            seller: self.seller_callsign@,
            description: self.description@,
            sold: match self.sold_details {
                Some(sold) => Some(sold@),
                None => None,
            },
        }
    }
}

impl Item {
    /// A sold lot has a hammer price whose scale leaves room for the club
    /// taking to be taken off it.
    pub closed spec fn wf(&self) -> bool {
        match self.sold_details {
            Some(sold) => sold.hammer_price.is_factor(),
            None => true,
        }
    }

    /// Create a new item
    pub fn new(lot_number: String, seller_callsign: Callsign, description: String) -> (r: Item)
        ensures
            r@ == (ItemView {
                lot_number: lot_number@,
                seller: seller_callsign@,
                description: description@,
                sold: None,
            }),
            r.wf(),
    {
        Item { lot_number, seller_callsign, description, sold_details: None }
    }

    /// An item with all that is on record about it.
    pub fn from_parts(
        lot_number: String,
        seller_callsign: Callsign,
        description: String,
        sold_details: Option<SoldDetails>,
    ) -> (r: Item)
        ensures
            r@ == (ItemView {
                lot_number: lot_number@,
                seller: seller_callsign@,
                description: description@,
                sold: sold_view(sold_details),
            }),
            r.wf() <==> (sold_details matches Some(sold) ==> sold.price_is_factor()),
    {
        Item { lot_number, seller_callsign, description, sold_details }
    }

    /// Mark the item as sold
    pub fn sold(&mut self, hammer_price: Decimal, buyer_callsign: Callsign) -> (r: &mut Item)
        requires
            hammer_price.is_factor(),
        ensures
            r@ == (ItemView {
                sold: Some(
                    SoldView {
                        hammer_price: hammer_price@,
                        buyer: buyer_callsign@,
                        buyer_reconciled: false,
                        seller_reconciled: false,
                        seller_all_funds_to_club: false,
                    },
                ),
                ..old(self)@
            }),
            r.wf(),
            *final(self) == *final(r),
    {
        self.sold_details = Some(
            SoldDetails {
                hammer_price,
                buyer_callsign,
                buyer_reconciled: false,
                seller_reconciled: false,
                seller_all_funds_to_club: false,
            },
        );
        self
    }

    /// Whether the item is well formed.
    pub fn is_wf(&self) -> (r: bool)
        ensures
            r == self.wf(),
    {
        match &self.sold_details {
            Some(sold) => sold.hammer_price.fits_factor(),
            None => true,
        }
    }

    pub fn lot_number(&self) -> (r: &String)
        ensures
            r@ == self@.lot_number,
    {
        &self.lot_number
    }

    pub fn seller_callsign(&self) -> (r: &Callsign)
        ensures
            r@ == self@.seller,
    {
        &self.seller_callsign
    }

    pub fn description(&self) -> (r: &String)
        ensures
            r@ == self@.description,
    {
        &self.description
    }

    pub fn sold_details(&self) -> (r: &Option<SoldDetails>)
        ensures
            sold_view(*r) == self@.sold,
            self.wf() <==> (*r matches Some(sold) ==> sold.price_is_factor()),
    {
        &self.sold_details
    }
}

impl Clone for Item {
    fn clone(&self) -> (r: Item)
        ensures
            r@ == self@,
            r.wf() == self.wf(),
    {
        Item {
            lot_number: self.lot_number.clone(),
            seller_callsign: self.seller_callsign.clone(),
            description: self.description.clone(),
            sold_details: match &self.sold_details {
                Some(sold) => Some(sold.clone()),
                None => None,
            },
        }
    }
}

/// Something that happened to the books.
pub enum AuditItem {
    Created { currency: Currency, club_taking_pct: Decimal },
    CurrencyChanged { from: Currency, to: Currency },
    ClubTakingChanged { from_pct: Decimal, to_pct: Decimal },
    LotSold {
        lot_number: String,
        description: String,
        seller: Callsign,
        buyer: Callsign,
        currency: Currency,
        amount: Decimal,
    },
    LotNotSold { lot_number: String, description: String },
    Reconciled { callsign: Callsign, amount: Decimal, currency: Currency, all_funds_to_club: bool },
    ReconciledFully { callsign: Callsign },
    ChangeGiven { callsign: Callsign, amount: Decimal, currency: Currency },
}

impl View for AuditItem {
    type V = AuditItemView;

    open spec fn view(&self) -> AuditItemView {
        match *self {
            AuditItem::Created { currency, club_taking_pct } => AuditItemView::Created {
                currency,
                club_taking_pct: club_taking_pct@,
            },
            AuditItem::CurrencyChanged { from, to } => AuditItemView::CurrencyChanged { from, to },
            AuditItem::ClubTakingChanged { from_pct, to_pct } => AuditItemView::ClubTakingChanged {
                from_pct: from_pct@,
                to_pct: to_pct@,
            },
            AuditItem::LotSold {
                lot_number,
                description,
                seller,
                buyer,
                currency,
                amount,
            } => AuditItemView::LotSold {
                lot_number: lot_number@,
                description: description@,
                seller: seller@,
                buyer: buyer@,
                currency,
                amount: amount@,
            },
            AuditItem::LotNotSold { lot_number, description } => AuditItemView::LotNotSold {
                lot_number: lot_number@,
                description: description@,
            },
            AuditItem::Reconciled {
                callsign,
                amount,
                currency,
                all_funds_to_club,
            } => AuditItemView::Reconciled {
                callsign: callsign@,
                amount: amount@,
                currency,
                all_funds_to_club,
            },
            AuditItem::ReconciledFully { callsign } => AuditItemView::ReconciledFully {
                callsign: callsign@,
            },
            AuditItem::ChangeGiven { callsign, amount, currency } => AuditItemView::ChangeGiven {
                callsign: callsign@,
                amount: amount@,
                currency,
            },
        }
    }
}

impl Clone for AuditItem {
    fn clone(&self) -> (r: AuditItem)
        ensures
            r@ == self@,
    {
        match self {
            AuditItem::Created { currency, club_taking_pct } => AuditItem::Created {
                currency: *currency,
                club_taking_pct: club_taking_pct.clone(),
            },
            AuditItem::CurrencyChanged { from, to } => AuditItem::CurrencyChanged {
                from: *from,
                to: *to,
            },
            AuditItem::ClubTakingChanged { from_pct, to_pct } => AuditItem::ClubTakingChanged {
                from_pct: from_pct.clone(),
                to_pct: to_pct.clone(),
            },
            AuditItem::LotSold {
                lot_number,
                description,
                seller,
                buyer,
                currency,
                amount,
            } => AuditItem::LotSold {
                lot_number: lot_number.clone(),
                description: description.clone(),
                seller: seller.clone(),
                buyer: buyer.clone(),
                currency: *currency,
                amount: amount.clone(),
            },
            AuditItem::LotNotSold { lot_number, description } => AuditItem::LotNotSold {
                lot_number: lot_number.clone(),
                description: description.clone(),
            },
            AuditItem::Reconciled {
                callsign,
                amount,
                currency,
                all_funds_to_club,
            } => AuditItem::Reconciled {
                callsign: callsign.clone(),
                amount: amount.clone(),
                currency: *currency,
                all_funds_to_club: *all_funds_to_club,
            },
            AuditItem::ReconciledFully { callsign } => AuditItem::ReconciledFully {
                callsign: callsign.clone(),
            },
            AuditItem::ChangeGiven { callsign, amount, currency } => AuditItem::ChangeGiven {
                callsign: callsign.clone(),
                amount: amount.clone(),
                currency: *currency,
            },
        }
    }
}

/// An event and the moment it was recorded.
pub struct AuditEntry {
    /// The moment the audit event happened
    moment: Timestamp,
    /// The item that occurred
    item: AuditItem,
}

impl View for AuditEntry {
    type V = AuditEntryView;

    closed spec fn view(&self) -> AuditEntryView {
        AuditEntryView { moment: self.moment, item: self.item@ }
    }
}

impl AuditEntry {
    /// An entry for `item` at `moment`.
    pub fn at(moment: Timestamp, item: AuditItem) -> (r: AuditEntry)
        ensures
            r@ == (AuditEntryView { moment, item: item@ }),
    {
        AuditEntry { moment, item }
    }

    /// An entry for `item` at the present moment.
    pub fn new(item: AuditItem) -> (r: AuditEntry)
        ensures
            r@.item == item@,
    {
        AuditEntry::at(Timestamp::now(), item)
    }

    pub fn moment(&self) -> (r: &Timestamp)
        ensures
            *r == self@.moment,
    {
        &self.moment
    }

    pub fn item(&self) -> (r: &AuditItem)
        ensures
            r@ == self@.item,
    {
        &self.item
    }
}

impl Clone for AuditEntry {
    fn clone(&self) -> (r: AuditEntry)
        ensures
            r@ == self@,
    {
        AuditEntry { moment: self.moment, item: self.item.clone() }
    }
}

/// What one party still owes the club.
pub struct Liability {
    callsign: Callsign,
    amount: Decimal,
}

impl View for Liability {
    type V = LiabilityView;

    closed spec fn view(&self) -> LiabilityView {
        LiabilityView { callsign: self.callsign@, amount: self.amount@ }
    }
}

impl Liability {
    /// `callsign` owes the club `amount`.
    pub fn new(callsign: Callsign, amount: Decimal) -> (r: Liability)
        ensures
            r@ == (LiabilityView { callsign: callsign@, amount: amount@ }),
    {
        Liability { callsign, amount }
    }

    /// Who owes.
    pub fn callsign(&self) -> (r: &Callsign)
        ensures
            r@ == self@.callsign,
    {
        &self.callsign
    }

    /// What they owe.
    pub fn amount(&self) -> (r: &Decimal)
        ensures
            r@ == self@.amount,
    {
        &self.amount
    }
}

impl Clone for Liability {
    fn clone(&self) -> (r: Liability)
        ensures
            r@ == self@,
    {
        Liability { callsign: self.callsign.clone(), amount: self.amount.clone() }
    }
}

/// The books of a surplus sale.
pub struct Datafile {
    /// The date and time of the auction
    auction_date: Timestamp,
    /// The club taking as a multiplier (i.e. a 10% taking is stored as
    /// 0.1)
    club_taking: Decimal,
    /// The currency this auction was held under
    currency: Currency,
    /// The callsigns that have been used in the auction, each once, in the
    /// order in which they were first seen
    callsigns: Vec<Callsign>,
    /// The items from the auction, in the order in which they were recorded
    items: Vec<Item>,
    /// The callsigns that still owe amounts, each once
    callsign_liabilities: Vec<Liability>,
    /// A list of entries for an audit log
    audit_log: Vec<AuditEntry>,
}

/// What `callsigns` hold.
pub open spec fn callsign_views(callsigns: Seq<Callsign>) -> Seq<CallsignView> {
    Seq::new(callsigns.len(), |i: int| callsigns[i]@)
}

/// What `items` hold.
pub open spec fn item_views(items: Seq<Item>) -> Seq<ItemView> {
    Seq::new(items.len(), |i: int| items[i]@)
}

/// What `liabilities` hold.
pub open spec fn liability_views(liabilities: Seq<Liability>) -> Seq<LiabilityView> {
    Seq::new(liabilities.len(), |i: int| liabilities[i]@)
}

/// What `log` holds.
pub open spec fn entry_views(log: Seq<AuditEntry>) -> Seq<AuditEntryView> {
    Seq::new(log.len(), |i: int| log[i]@)
}

impl View for Datafile {
    type V = DatafileView;

    closed spec fn view(&self) -> DatafileView {
        DatafileView {
            auction_date: self.auction_date,
            club_taking: self.club_taking@,
            currency: self.currency,
            callsigns: callsign_views(self.callsigns@),
            items: item_views(self.items@),
            liabilities: liability_views(self.callsign_liabilities@),
            audit_log: entry_views(self.audit_log@),
        }
    }
}

/// Whether books made of these parts are in order: the club taking and the
/// hammer prices have scales small enough to be multiplied, nobody is listed
/// twice among the parties or among the debtors, every seller and every buyer
/// is among the parties, and no liability is below zero.
pub open spec fn parts_in_order(
    club_taking: Decimal,
    callsigns: Seq<Callsign>,
    items: Seq<Item>,
    liabilities: Seq<Liability>,
) -> bool {
    &&& club_taking.is_factor()
    &&& forall|i: int| 0 <= i < items.len() ==> (#[trigger] items[i]).wf()
    &&& distinct_parties(callsign_views(callsigns))
    &&& distinct_debtors(liability_views(liabilities))
    &&& forall|i: int|
        0 <= i < items.len() ==> parties_known(callsign_views(callsigns), (#[trigger] items[i])@)
    &&& forall|i: int|
        0 <= i < liabilities.len() ==> (#[trigger] liability_views(
            liabilities,
        )[i]).amount.non_negative()
}

impl Datafile {
    /// The scales of the club taking and of the hammer prices are small
    /// enough for the two to be multiplied.
    pub closed spec fn scales_fit(&self) -> bool {
        &&& self.club_taking.is_factor()
        &&& forall|i: int| 0 <= i < self.items@.len() ==> (#[trigger] self.items@[i]).wf()
    }

    /// The books are in order. Every operation keeps them so.
    pub open spec fn wf(&self) -> bool {
        self@.wf() && self.scales_fit()
    }

    /// New books whose sale is dated `auction_date` and whose audit log was
    /// opened at `opened`: a club taking of one tenth, pound sterling, nothing
    /// sold and nothing owed.
    pub fn at(auction_date: Timestamp, opened: Timestamp) -> (r: Datafile)
        ensures
            r.wf(),
            r@ == (DatafileView {
                auction_date,
                club_taking: Amount { digits: 1, scale: 1 },
                currency: Currency { numeric: 826 },
                callsigns: Seq::empty(),
                items: Seq::empty(),
                liabilities: Seq::empty(),
                audit_log: seq![
                    AuditEntryView {
                        moment: opened,
                        item: AuditItemView::Created {
                            currency: Currency { numeric: 826 },
                            club_taking_pct: Amount { digits: 1, scale: -1 },
                        },
                    },
                ],
            }),
    {
        let currency = Currency::gbp();
        let club_taking = Decimal::new(1, 1);
        let club_taking_pct = club_taking.times(&Decimal::hundred());
        let mut audit_log = Vec::new();
        audit_log.push(AuditEntry::at(opened, AuditItem::Created { currency, club_taking_pct }));
        let r = Datafile {
            auction_date,
            club_taking,
            currency,
            callsigns: Vec::new(),
            items: Vec::new(),
            callsign_liabilities: Vec::new(),
            audit_log,
        };
        assert(r@.callsigns =~= Seq::<CallsignView>::empty());
        assert(r@.items =~= Seq::<ItemView>::empty());
        assert(r@.liabilities =~= Seq::<LiabilityView>::empty());
        assert(r@.club_taking == Amount { digits: 1, scale: 1 });
        assert(r@.club_taking.times(Amount::hundred()) == Amount { digits: 1, scale: -1 });
        assert(r@.audit_log =~= seq![
            AuditEntryView {
                moment: opened,
                item: AuditItemView::Created {
                    currency: Currency { numeric: 826 },
                    club_taking_pct: Amount { digits: 1, scale: -1 },
                },
            },
        ]);
        r
    }

    /// New books, dated and opened as the clock says: a club taking of one
    /// tenth, pound sterling, nothing sold and nothing owed, and the audit
    /// log opened.
    pub fn new() -> (r: Datafile)
        ensures
            r.wf(),
            r@.club_taking == (Amount { digits: 1, scale: 1 }),
            r@.currency == (Currency { numeric: 826 }),
            r@.callsigns == Seq::<CallsignView>::empty(),
            r@.items == Seq::<ItemView>::empty(),
            r@.liabilities == Seq::<LiabilityView>::empty(),
            events(r@.audit_log) == seq![
                AuditItemView::Created {
                    currency: Currency { numeric: 826 },
                    club_taking_pct: Amount { digits: 1, scale: -1 },
                },
            ],
    {
        let r = Datafile::at(Timestamp::now(), Timestamp::now());
        assert(events(r@.audit_log) =~= seq![
            AuditItemView::Created {
                currency: Currency { numeric: 826 },
                club_taking_pct: Amount { digits: 1, scale: -1 },
            },
        ]);
        r
    }

    /// Books made of the given parts, as they come from a saved file, if
    /// they are in order.
    pub fn from_parts(
        auction_date: Timestamp,
        club_taking: Decimal,
        currency: Currency,
        callsigns: Vec<Callsign>,
        items: Vec<Item>,
        callsign_liabilities: Vec<Liability>,
        audit_log: Vec<AuditEntry>,
    ) -> (r: Option<Datafile>)
        ensures
            r is Some <==> parts_in_order(club_taking, callsigns@, items@, callsign_liabilities@),
            r matches Some(books) ==> books.wf() && books@ == (DatafileView {
                auction_date,
                club_taking: club_taking@,
                currency,
                callsigns: callsign_views(callsigns@),
                items: item_views(items@),
                liabilities: liability_views(callsign_liabilities@),
                audit_log: entry_views(audit_log@),
            }),
    {
        proof {
            lemma_parties_known_views(callsigns@, items@);
        }
        if club_taking.fits_factor() && items_wf(&items) && parties_distinct(&callsigns)
            && debtors_distinct(&callsign_liabilities) && all_parties_known(&callsigns, &items)
            && none_below_zero(&callsign_liabilities) {
            Some(
                Datafile {
                    auction_date,
                    club_taking,
                    currency,
                    callsigns,
                    items,
                    callsign_liabilities,
                    audit_log,
                },
            )
        } else {
            None
        }
    }

    /// Whether the books are in order. Books that this module hands out
    /// are, and stay so.
    pub fn in_order(&self) -> (r: bool)
        ensures
            r == self.wf(),
    {
        proof {
            lemma_parties_known_views(self.callsigns@, self.items@);
        }
        self.club_taking.fits_factor() && items_wf(&self.items) && parties_distinct(
            &self.callsigns,
        ) && debtors_distinct(&self.callsign_liabilities) && all_parties_known(
            &self.callsigns,
            &self.items,
        ) && none_below_zero(&self.callsign_liabilities)
    }

    pub fn auction_date(&self) -> (r: &Timestamp)
        ensures
            *r == self@.auction_date,
    {
        &self.auction_date
    }

    pub fn club_taking(&self) -> (r: &Decimal)
        ensures
            r@ == self@.club_taking,
            self.wf() ==> r.is_factor(),
    {
        &self.club_taking
    }

    pub fn currency(&self) -> (r: &Currency)
        ensures
            *r == self@.currency,
    {
        &self.currency
    }

    pub fn callsigns(&self) -> (r: &Vec<Callsign>)
        ensures
            callsign_views(r@) == self@.callsigns,
    {
        &self.callsigns
    }

    pub fn items(&self) -> (r: &Vec<Item>)
        ensures
            item_views(r@) == self@.items,
            self.wf() ==> forall|i: int| 0 <= i < r@.len() ==> (#[trigger] r@[i]).wf(),
    {
        &self.items
    }

    /// The callsigns that still owe amounts, each once, with what they owe.
    pub fn callsign_liabilities(&self) -> (r: &Vec<Liability>)
        ensures
            liability_views(r@) == self@.liabilities,
    {
        &self.callsign_liabilities
    }

    pub fn audit_log(&self) -> (r: &Vec<AuditEntry>)
        ensures
            entry_views(r@) == self@.audit_log,
    {
        &self.audit_log
    }

    /// Return the next lot number for the provided callsign: the callsign, a
    /// hyphen, and the smallest count from one that none of their lots is
    /// numbered with yet.
    pub fn next_lot_number_for(&self, callsign: Callsign) -> (r: String)
        ensures
            is_next_lot(self@.items, callsign@.callsign, next_lot(self@.items, callsign@.callsign)),
            r@ == lot_label(callsign@.callsign, next_lot(self@.items, callsign@.callsign)),
    {
        let ghost who = callsign@.callsign;
        let count = self.items.len();
        let mut next: u128 = 1;
        loop
            invariant
                count == self.items@.len(),
                1 <= next <= self.items@.len() + 1,
                who == callsign@.callsign,
                forall|m: nat| 1 <= m < next ==> lot_taken(self@.items, who, m),
            decreases self.items@.len() + 1 - next,
        {
            let number = lot_number_text(callsign.callsign().as_str(), next);
            if !has_lot(&self.items, &callsign, &number, Ghost(next as nat)) {
                proof {
                    lemma_next_lot(self@.items, who, next as nat);
                }
                return number;
            }
            proof {
                lemma_taken_lots_bounded(self@.items, who, next as nat);
            }
            next = next + 1;
        }
    }

    /// Set the currency of the auction
    pub fn set_currency(&mut self, currency: Currency) -> (r: &mut Datafile)
        requires
            old(self).wf(),
        ensures
            r.wf(),
            old(self)@.currency_set_to(r@, currency),
            *final(self) == *final(r),
    {
        if currency == self.currency {
            // If there is no change, don't continue
            return self;
        }
        let ghost before = self@;
        let old_currency = self.currency;
        self.currency = currency;
        self.audit_log.push(
            AuditEntry::new(AuditItem::CurrencyChanged { from: old_currency, to: currency }),
        );
        assert(self@.audit_log.subrange(0, before.audit_log.len() as int) =~= before.audit_log);
        assert(events(
            self@.audit_log.subrange(before.audit_log.len() as int, self@.audit_log.len() as int),
        ) =~= seq![AuditItemView::CurrencyChanged { from: before.currency, to: currency }]);
        proof {
            lemma_same_books_in_order(before, self@);
        }
        self
    }

    /// Set the club taking of the auction
    pub fn set_club_taking(&mut self, club_taking: Decimal) -> (r: &mut Datafile)
        requires
            old(self).wf(),
            club_taking.is_factor(),
        ensures
            r.wf(),
            old(self)@.club_taking_set_to(r@, club_taking@),
            *final(self) == *final(r),
    {
        if club_taking.equals(&self.club_taking) {
            // If there is no change, don't continue
            return self;
        }
        let ghost before = self@;
        let hundred = Decimal::hundred();
        let from_pct = self.club_taking.times(&hundred);
        let to_pct = club_taking.times(&hundred);
        self.club_taking = club_taking;
        self.audit_log.push(AuditEntry::new(AuditItem::ClubTakingChanged { from_pct, to_pct }));
        assert(self@.audit_log.subrange(0, before.audit_log.len() as int) =~= before.audit_log);
        assert(events(
            self@.audit_log.subrange(before.audit_log.len() as int, self@.audit_log.len() as int),
        ) =~= seq![
            AuditItemView::ClubTakingChanged {
                from_pct: before.club_taking.times(Amount::hundred()),
                to_pct: club_taking@.times(Amount::hundred()),
            },
        ]);
        proof {
            lemma_same_books_in_order(before, self@);
        }
        self
    }

    /// Push an item, sold or unsold
    pub fn push_item(&mut self, sale: Item) -> (r: &mut Datafile)
        requires
            old(self).wf(),
            sale.wf(),
        ensures
            r.wf(),
            old(self)@.pushes_to(r@, sale@),
            *final(self) == *final(r),
    {
        let ghost before = self@;
        note_party(&mut self.callsigns, &sale.seller_callsign);
        match &sale.sold_details {
            Some(sold) => {
                note_party(&mut self.callsigns, &sold.buyer_callsign);
                self.audit_log.push(
                    AuditEntry::new(
                        AuditItem::LotSold {
                            lot_number: sale.lot_number.clone(),
                            description: sale.description.clone(),
                            seller: sale.seller_callsign.clone(),
                            buyer: sold.buyer_callsign.clone(),
                            currency: self.currency,
                            amount: sold.hammer_price.clone(),
                        },
                    ),
                );
            },
            None => {
                self.audit_log.push(
                    AuditEntry::new(
                        AuditItem::LotNotSold {
                            lot_number: sale.lot_number.clone(),
                            description: sale.description.clone(),
                        },
                    ),
                );
            },
        }
        self.items.push(sale);
        assert(self@.items =~= before.items.push(sale@));
        assert(self@.audit_log.subrange(0, before.audit_log.len() as int) =~= before.audit_log);
        assert(events(
            self@.audit_log.subrange(before.audit_log.len() as int, self@.audit_log.len() as int),
        ) =~= seq![before.push_event(sale@)]);
        self
    }

    /// Reconcile the callsign by the amount. Returns the amount remaining, i.e. change.
    ///
    /// If the club pays out, `reconcile_amount` should be negative. Inversely if the
    /// club takes money, `reconcile_amount` should be positive.
    pub fn reconcile(
        &mut self,
        callsign: Callsign,
        reconcile_amount: Decimal,
        all_funds_to_club: bool,
    ) -> (change: Decimal)
        requires
            old(self).wf(),
        ensures
            final(self).wf(),
            old(self)@.reconciles_to(
                final(self)@,
                callsign@,
                reconcile_amount@,
                all_funds_to_club,
            ),
            change@ == old(self)@.change(callsign@.callsign, reconcile_amount@),
    {
        let ghost before = self@;
        let ghost who = callsign@.callsign;
        let ghost log_before = self.audit_log@;
        let attempt = AuditEntry::new(
            AuditItem::Reconciled {
                callsign: callsign.clone(),
                amount: reconcile_amount.clone(),
                currency: self.currency,
                all_funds_to_club,
            },
        );
        self.audit_log.push(attempt);
        let keep = Decimal::one().minus(&self.club_taking);

        // Sold items first
        let credited = settle_sales(
            &mut self.items,
            &callsign,
            &keep,
            reconcile_amount,
            all_funds_to_club,
        );
        let ghost items_paid_out = self.items@;
        assert(credited@ == before.credited(who, reconcile_amount@));

        // Liabilities at the highest point
        let slot = find_debtor(&self.callsign_liabilities, &callsign);
        assert(slot matches Some(i) ==> debtor_slot(before.liabilities, who) == Some(i as int));
        assert(slot is None ==> debtor_slot(before.liabilities, who) is None);
        let after_dues = match slot {
            Some(i) => {
                let dues_paid = self.callsign_liabilities[i].amount.clone().lesser(credited.clone());
                let left = self.callsign_liabilities[i].amount.minus(&dues_paid);
                proof {
                    lemma_minus_sign(before.liabilities[i as int].amount, credited@);
                }
                self.callsign_liabilities[i].amount = left;
                credited.minus(&dues_paid)
            },
            None => credited,
        };
        assert(after_dues@ == before.after_dues(who, reconcile_amount@));
        let ghost liabilities_paid = self.callsign_liabilities@;

        // Then bought items
        let balance = settle_purchases(&mut self.items, &callsign, after_dues);
        proof {
            lemma_debit_after_sales(
                before.items,
                item_views(items_paid_out),
                who,
                all_funds_to_club,
                who,
                after_dues@,
                before.items.len() as int,
            );
            lemma_below_zero(balance@);
        }
        assert(balance@ == before.balance(who, reconcile_amount@));
        assert(self@.items =~= before.items_after(who, all_funds_to_club));

        let zero = Decimal::zero();
        if balance.less_than(&zero) {
            // Store amount still owed
            match slot {
                Some(i) => {
                    let owed = self.callsign_liabilities[i].amount.minus(&balance);
                    proof {
                        lemma_minus_negative(liabilities_paid[i as int]@.amount, balance@);
                    }
                    self.callsign_liabilities[i].amount = owed;
                },
                None => {
                    let owed = balance.negated();
                    self.callsign_liabilities.push(Liability { callsign, amount: owed });
                },
            }
        } else {
            let full = AuditEntry::new(AuditItem::ReconciledFully { callsign: callsign.clone() });
            self.audit_log.push(full);
            if zero.less_than(&balance) {
                let given = AuditEntry::new(
                    AuditItem::ChangeGiven {
                        callsign,
                        amount: balance.clone(),
                        currency: self.currency,
                    },
                );
                self.audit_log.push(given);
            }
        }
        assert(self@.callsigns =~= before.callsigns);
        assert(self@.liabilities =~= before.liabilities_after(callsign@, reconcile_amount@));
        assert(self@.audit_log.subrange(0, log_before.len() as int) =~= before.audit_log);
        assert(events(
            self@.audit_log.subrange(log_before.len() as int, self@.audit_log.len() as int),
        ) =~= before.reconcile_events(callsign@, reconcile_amount@, all_funds_to_club));
        proof {
            lemma_debtors_stay_distinct(before.liabilities, self@.liabilities, callsign@);
        }
        balance.greater(zero)
    }

    /// What the club takes of the hammer price of a lot: the price times the
    /// club taking.
    pub fn club_share(&self, sold: &SoldDetails) -> (r: Decimal)
        requires
            self.wf(),
            sold.price_is_factor(),
        ensures
            r@ == sold@.hammer_price.times(self@.club_taking),
    {
        sold.hammer_price.times(&self.club_taking)
    }

    /// What the seller of a lot is paid out: the hammer price times one less
    /// the club taking.
    pub fn payout(&self, sold: &SoldDetails) -> (r: Decimal)
        requires
            self.wf(),
            sold.price_is_factor(),
        ensures
            r@ == self@.payout(sold@.hammer_price),
    {
        let keep = Decimal::one().minus(&self.club_taking);
        sold.hammer_price.times(&keep)
    }

    /// What `callsign` still owes from earlier, if anything is on record.
    pub fn liability_of(&self, callsign: &Callsign) -> (r: Option<&Decimal>)
        requires
            self.wf(),
        ensures
            match r {
                Some(due) => self@.owed(callsign@.callsign) == Some(due@),
                None => self@.owed(callsign@.callsign) is None,
            },
    {
        match find_debtor(&self.callsign_liabilities, callsign) {
            Some(i) => {
                assert(debtor_slot(self@.liabilities, callsign@.callsign) == Some(i as int));
                Some(&self.callsign_liabilities[i].amount)
            },
            None => None,
        }
    }

    /// The lots that `callsign` sold and is not paid out for yet, in the
    /// order of the books.
    pub fn open_sales(&self, callsign: &Callsign) -> (r: Vec<Item>)
        ensures
            item_views(r@) == open_sales(
                self@.items,
                callsign@.callsign,
                self@.items.len() as int,
            ),
            self.wf() ==> forall|i: int| 0 <= i < r@.len() ==> (#[trigger] r@[i]).wf(),
    {
        let mut found: Vec<Item> = Vec::new();
        let mut i: usize = 0;
        while i < self.items.len()
            invariant
                i <= self.items@.len(),
                item_views(found@) == open_sales(self@.items, callsign@.callsign, i as int),
                self.wf() ==> forall|j: int| 0 <= j < found@.len() ==> (#[trigger] found@[j]).wf(),
            decreases self.items@.len() - i,
        {
            let item = &self.items[i];
            assert(self@.items[i as int] == item@);
            let open = item.seller_callsign == *callsign && match &item.sold_details {
                Some(sold) => !sold.seller_reconciled,
                None => false,
            };
            if open {
                let ghost before = item_views(found@);
                found.push(item.clone());
                assert(item_views(found@) =~= before.push(item@));
            }
            i = i + 1;
        }
        found
    }

    /// The lots that `callsign` bought and has not paid for yet, in the order
    /// of the books.
    pub fn open_purchases(&self, callsign: &Callsign) -> (r: Vec<Item>)
        ensures
            item_views(r@) == open_purchases(
                self@.items,
                callsign@.callsign,
                self@.items.len() as int,
            ),
            self.wf() ==> forall|i: int| 0 <= i < r@.len() ==> (#[trigger] r@[i]).wf(),
    {
        let mut found: Vec<Item> = Vec::new();
        let mut i: usize = 0;
        while i < self.items.len()
            invariant
                i <= self.items@.len(),
                item_views(found@) == open_purchases(self@.items, callsign@.callsign, i as int),
                self.wf() ==> forall|j: int| 0 <= j < found@.len() ==> (#[trigger] found@[j]).wf(),
            decreases self.items@.len() - i,
        {
            let item = &self.items[i];
            assert(self@.items[i as int] == item@);
            let open = match &item.sold_details {
                Some(sold) => sold.buyer_callsign == *callsign && !sold.buyer_reconciled,
                None => false,
            };
            if open {
                let ghost before = item_views(found@);
                found.push(item.clone());
                assert(item_views(found@) =~= before.push(item@));
            }
            i = i + 1;
        }
        found
    }

    /// What `callsign` has to pay the club to be settled: what they owe from
    /// earlier, and their open purchases, less what they are due for their
    /// open sales. Below zero, the club has to pay them.
    pub fn amount_due(&self, callsign: &Callsign) -> (r: Decimal)
        requires
            self.wf(),
        ensures
            r@ == self@.amount_due(callsign@.callsign),
    {
        let ghost who = callsign@.callsign;
        let mut total = match self.liability_of(callsign) {
            Some(due) => due.clone(),
            None => Decimal::zero(),
        };
        let ghost owed = total@;
        let mut i: usize = 0;
        while i < self.items.len()
            invariant
                i <= self.items@.len(),
                total@ == purchases_owed(self@.items, who, owed, i as int),
                who == callsign@.callsign,
            decreases self.items@.len() - i,
        {
            assert(self@.items[i as int] == self.items@[i as int]@);
            match &self.items[i].sold_details {
                Some(sold) => {
                    if sold.buyer_callsign == *callsign && !sold.buyer_reconciled {
                        total = total.plus(&sold.hammer_price);
                    }
                },
                None => {},
            }
            i = i + 1;
        }
        let ghost with_purchases = total@;
        let keep = Decimal::one().minus(&self.club_taking);
        let mut i: usize = 0;
        while i < self.items.len()
            invariant
                i <= self.items@.len(),
                self.wf(),
                keep.is_factor(),
                keep@ == self@.keep(),
                total@ == sales_owing(self@.items, who, keep@, with_purchases, i as int),
                who == callsign@.callsign,
            decreases self.items@.len() - i,
        {
            assert(self@.items[i as int] == self.items@[i as int]@);
            if self.items[i].seller_callsign == *callsign {
                match &self.items[i].sold_details {
                    Some(sold) => {
                        if !sold.seller_reconciled {
                            total = total.minus(&sold.hammer_price.times(&keep));
                        }
                    },
                    None => {},
                }
            }
            i = i + 1;
        }
        total
    }
}

impl Clone for Datafile {
    fn clone(&self) -> (r: Datafile)
        ensures
            r@ == self@,
            r.wf() == self.wf(),
    {
        let mut callsigns: Vec<Callsign> = Vec::new();
        let mut i: usize = 0;
        while i < self.callsigns.len()
            invariant
                i <= self.callsigns@.len(),
                callsigns@.len() == i,
                forall|j: int| 0 <= j < i ==> (#[trigger] callsigns@[j])@ == self.callsigns@[j]@,
            decreases self.callsigns@.len() - i,
        {
            callsigns.push(self.callsigns[i].clone());
            i = i + 1;
        }
        let mut items: Vec<Item> = Vec::new();
        let mut i: usize = 0;
        while i < self.items.len()
            invariant
                i <= self.items@.len(),
                items@.len() == i,
                forall|j: int|
                    0 <= j < i ==> (#[trigger] items@[j])@ == self.items@[j]@ && items@[j].wf()
                        == self.items@[j].wf(),
            decreases self.items@.len() - i,
        {
            items.push(self.items[i].clone());
            i = i + 1;
        }
        let mut callsign_liabilities: Vec<Liability> = Vec::new();
        let mut i: usize = 0;
        while i < self.callsign_liabilities.len()
            invariant
                i <= self.callsign_liabilities@.len(),
                callsign_liabilities@.len() == i,
                forall|j: int|
                    0 <= j < i ==> (#[trigger] callsign_liabilities@[j])@
                        == self.callsign_liabilities@[j]@,
            decreases self.callsign_liabilities@.len() - i,
        {
            callsign_liabilities.push(self.callsign_liabilities[i].clone());
            i = i + 1;
        }
        let mut audit_log: Vec<AuditEntry> = Vec::new();
        let mut i: usize = 0;
        while i < self.audit_log.len()
            invariant
                i <= self.audit_log@.len(),
                audit_log@.len() == i,
                forall|j: int| 0 <= j < i ==> (#[trigger] audit_log@[j])@ == self.audit_log@[j]@,
            decreases self.audit_log@.len() - i,
        {
            audit_log.push(self.audit_log[i].clone());
            i = i + 1;
        }
        let club_taking = self.club_taking.clone();
        assert(club_taking.is_factor() == self.club_taking.is_factor());
        let r = Datafile {
            auction_date: self.auction_date,
            club_taking,
            currency: self.currency,
            callsigns,
            items,
            callsign_liabilities,
            audit_log,
        };
        assert(r@.callsigns =~= self@.callsigns);
        assert(r@.items =~= self@.items);
        assert(r@.liabilities =~= self@.liabilities);
        assert(r@.audit_log =~= self@.audit_log);
        assert(r.scales_fit() == self.scales_fit()) by {
            if self.scales_fit() {
                assert forall|j: int| 0 <= j < r.items@.len() implies (#[trigger] r.items@[j]).wf() by {
                    assert(self.items@[j].wf());
                }
            }
            if r.scales_fit() {
                assert forall|j: int| 0 <= j < self.items@.len() implies (
                #[trigger] self.items@[j]).wf() by {
                    assert(r.items@[j].wf());
                }
            }
        }
        r
    }
}

/// The amount to settle with when `entered` is what changes hands and `due`
/// is what the party has to pay: `entered` itself where the party pays the
/// club, and its negative where the club pays the party.
pub fn signed_amount(due: &Decimal, entered: &Decimal) -> (r: Decimal)
    ensures
        r@ == (if due@.less_than(Amount::zero()) {
            entered@.negated()
        } else {
            entered@
        }),
{
    if due.less_than(&Decimal::zero()) {
        entered.negated()
    } else {
        entered.clone()
    }
}

/// Whether `who` is among `callsigns`.
fn knows_party(callsigns: &Vec<Callsign>, who: &Callsign) -> (r: bool)
    ensures
        r == knows(callsign_views(callsigns@), who@.callsign),
{
    let mut i: usize = 0;
    while i < callsigns.len()
        invariant
            i <= callsigns@.len(),
            forall|j: int| 0 <= j < i ==> callsign_views(callsigns@)[j].callsign != who@.callsign,
        decreases callsigns@.len() - i,
    {
        if callsigns[i] == *who {
            assert(callsign_views(callsigns@)[i as int].callsign == who@.callsign);
            return true;
        }
        i = i + 1;
    }
    false
}

/// Adds `who` at the end of `callsigns` unless they are among them.
fn note_party(callsigns: &mut Vec<Callsign>, who: &Callsign)
    requires
        distinct_parties(callsign_views(old(callsigns)@)),
    ensures
        callsign_views(final(callsigns)@) == with_party(callsign_views(old(callsigns)@), who@),
        distinct_parties(callsign_views(final(callsigns)@)),
        knows(callsign_views(final(callsigns)@), who@.callsign),
        forall|other: Seq<char>|
            knows(callsign_views(old(callsigns)@), other) ==> knows(
                callsign_views(final(callsigns)@),
                other,
            ),
{
    let ghost before = callsign_views(callsigns@);
    if !knows_party(callsigns, who) {
        callsigns.push(who.clone());
        let ghost after = callsign_views(callsigns@);
        assert(after =~= before.push(who@));
        assert(after[before.len() as int].callsign == who@.callsign);
        assert forall|other: Seq<char>| knows(before, other) implies knows(after, other) by {
            let i = choose|i: int| 0 <= i < before.len() && #[trigger] before[i].callsign == other;
            assert(after[i].callsign == other);
        }
    }
}

/// Whether some lot of the seller `who` among `items` is numbered `number`,
/// which is the number that their lot `n` would get.
fn has_lot(items: &Vec<Item>, who: &Callsign, number: &String, Ghost(n): Ghost<nat>) -> (r: bool)
    requires
        number@ == lot_label(who@.callsign, n),
    ensures
        r == lot_taken(item_views(items@), who@.callsign, n),
{
    let mut i: usize = 0;
    while i < items.len()
        invariant
            i <= items@.len(),
            number@ == lot_label(who@.callsign, n),
            forall|j: int| 0 <= j < i ==> !holds_lot(item_views(items@), who@.callsign, n, j),
        decreases items@.len() - i,
    {
        if items[i].seller_callsign == *who && items[i].lot_number == *number {
            assert(holds_lot(item_views(items@), who@.callsign, n, i as int));
            return true;
        }
        i = i + 1;
    }
    false
}

/// Pays `who` out for every lot of theirs that sold and is not paid out yet,
/// and marks those lots. Returns `start` and the payouts on top of it.
fn settle_sales(
    items: &mut Vec<Item>,
    who: &Callsign,
    keep: &Decimal,
    start: Decimal,
    all_funds_to_club: bool,
) -> (working: Decimal)
    requires
        keep.is_factor(),
        forall|i: int| 0 <= i < old(items)@.len() ==> (#[trigger] old(items)@[i]).wf(),
    ensures
        final(items)@.len() == old(items)@.len(),
        forall|i: int|
            0 <= i < old(items)@.len() ==> (#[trigger] final(items)@[i])@ == seller_settled(
                old(items)@[i]@,
                who@.callsign,
                all_funds_to_club,
            ),
        forall|i: int| 0 <= i < final(items)@.len() ==> (#[trigger] final(items)@[i]).wf(),
        working@ == sales_credit(
            item_views(old(items)@),
            who@.callsign,
            keep@,
            start@,
            old(items)@.len() as int,
        ),
{
    let mut working = start;
    let mut i: usize = 0;
    while i < items.len()
        invariant
            i <= items@.len(),
            items@.len() == old(items)@.len(),
            keep.is_factor(),
                forall|j: int|
                0 <= j < i ==> (#[trigger] items@[j])@ == seller_settled(
                    old(items)@[j]@,
                    who@.callsign,
                    all_funds_to_club,
                ),
            forall|j: int| i <= j < items@.len() ==> #[trigger] items@[j] == old(items)@[j],
            forall|j: int| 0 <= j < items@.len() ==> (#[trigger] items@[j]).wf(),
            working@ == sales_credit(
                item_views(old(items)@),
                who@.callsign,
                keep@,
                start@,
                i as int,
            ),
        decreases items@.len() - i,
    {
        assert(item_views(old(items)@)[i as int] == old(items)@[i as int]@);
        if items[i].seller_callsign == *who {
            match &mut items[i].sold_details {
                Some(sold) => {
                    if !sold.seller_reconciled {
                        let payout = sold.hammer_price.times(keep);
                        working = working.plus(&payout);
                        sold.seller_reconciled = true;
                        sold.seller_all_funds_to_club = all_funds_to_club;
                    }
                },
                None => {},
            }
        }
        i = i + 1;
    }
    working
}

/// Where `who` stands among `liabilities`, if they stand there.
fn find_debtor(liabilities: &Vec<Liability>, who: &Callsign) -> (r: Option<usize>)
    ensures
        match r {
            Some(i) => owed_at(liability_views(liabilities@), who@.callsign, i as int),
            None => forall|i: int| !owed_at(liability_views(liabilities@), who@.callsign, i),
        },
{
    let mut i: usize = 0;
    while i < liabilities.len()
        invariant
            i <= liabilities@.len(),
            forall|j: int| 0 <= j < i ==> !owed_at(liability_views(liabilities@), who@.callsign, j),
        decreases liabilities@.len() - i,
    {
        if liabilities[i].callsign == *who {
            return Some(i);
        }
        i = i + 1;
    }
    None
}

/// Charges `who` for every lot they bought and have not paid for yet, and
/// marks those lots. Returns `start` less the hammer prices.
fn settle_purchases(items: &mut Vec<Item>, who: &Callsign, start: Decimal) -> (working: Decimal)
    requires
        forall|i: int| 0 <= i < old(items)@.len() ==> (#[trigger] old(items)@[i]).wf(),
    ensures
        final(items)@.len() == old(items)@.len(),
        forall|i: int|
            0 <= i < old(items)@.len() ==> (#[trigger] final(items)@[i])@ == buyer_settled(
                old(items)@[i]@,
                who@.callsign,
            ),
        forall|i: int| 0 <= i < final(items)@.len() ==> (#[trigger] final(items)@[i]).wf(),
        working@ == purchases_debit(
            item_views(old(items)@),
            who@.callsign,
            start@,
            old(items)@.len() as int,
        ),
{
    let mut working = start;
    let mut i: usize = 0;
    while i < items.len()
        invariant
            i <= items@.len(),
            items@.len() == old(items)@.len(),
                forall|j: int|
                0 <= j < i ==> (#[trigger] items@[j])@ == buyer_settled(
                    old(items)@[j]@,
                    who@.callsign,
                ),
            forall|j: int| i <= j < items@.len() ==> #[trigger] items@[j] == old(items)@[j],
            forall|j: int| 0 <= j < items@.len() ==> (#[trigger] items@[j]).wf(),
            working@ == purchases_debit(item_views(old(items)@), who@.callsign, start@, i as int),
        decreases items@.len() - i,
    {
        assert(item_views(old(items)@)[i as int] == old(items)@[i as int]@);
        match &mut items[i].sold_details {
            Some(sold) => {
                if sold.buyer_callsign == *who && !sold.buyer_reconciled {
                    working = working.minus(&sold.hammer_price);
                    sold.buyer_reconciled = true;
                }
            },
            None => {},
        }
        i = i + 1;
    }
    working
}

/// Paying sellers out changes nothing about what a buyer has to pay.
proof fn lemma_debit_after_sales(
    before: Seq<ItemView>,
    after: Seq<ItemView>,
    seller: Seq<char>,
    all_funds_to_club: bool,
    who: Seq<char>,
    start: Amount,
    n: int,
)
    requires
        after.len() == before.len(),
        n <= before.len(),
        forall|i: int|
            0 <= i < before.len() ==> #[trigger] after[i] == seller_settled(
                before[i],
                seller,
                all_funds_to_club,
            ),
    ensures
        purchases_debit(after, who, start, n) == purchases_debit(before, who, start, n),
    decreases n,
{
    if n > 0 {
        lemma_debit_after_sales(before, after, seller, all_funds_to_club, who, start, n - 1);
        assert(after[n - 1] == seller_settled(before[n - 1], seller, all_funds_to_club));
    }
}

/// Liabilities in which nobody stands twice stay so when the amounts change
/// and when a party who did not stand there is added at the end.
proof fn lemma_debtors_stay_distinct(
    before: Seq<LiabilityView>,
    after: Seq<LiabilityView>,
    party: CallsignView,
)
    requires
        distinct_debtors(before),
        after.len() == before.len() || {
            &&& after.len() == before.len() + 1
            &&& after.last().callsign == party
            &&& forall|i: int| !owed_at(before, party.callsign, i)
        },
        forall|i: int| 0 <= i < before.len() ==> (#[trigger] after[i]).callsign == before[i].callsign,
    ensures
        distinct_debtors(after),
{
    assert forall|i: int, j: int|
        #![trigger after[i], after[j]]
        0 <= i < after.len() && 0 <= j < after.len() && after[i].callsign.callsign
            == after[j].callsign.callsign implies i == j by {
        if i < before.len() && j < before.len() {
            assert(before[i].callsign.callsign == before[j].callsign.callsign);
        } else if i < before.len() {
            assert(owed_at(before, party.callsign, i));
        } else if j < before.len() {
            assert(owed_at(before, party.callsign, j));
        }
    }
}

/// Whether every item is well formed.
fn items_wf(items: &Vec<Item>) -> (r: bool)
    ensures
        r == forall|i: int| 0 <= i < items@.len() ==> (#[trigger] items@[i]).wf(),
{
    let mut i: usize = 0;
    while i < items.len()
        invariant
            i <= items@.len(),
            forall|j: int| 0 <= j < i ==> (#[trigger] items@[j]).wf(),
        decreases items@.len() - i,
    {
        if !items[i].is_wf() {
            return false;
        }
        i = i + 1;
    }
    true
}

/// Books stay in order while their parties, lots and liabilities stay.
proof fn lemma_same_books_in_order(before: DatafileView, after: DatafileView)
    requires
        before.wf(),
        after.callsigns == before.callsigns,
        after.items == before.items,
        after.liabilities == before.liabilities,
    ensures
        after.wf(),
{
    assert forall|i: int| 0 <= i < after.items.len() implies parties_known(
        after.callsigns,
        #[trigger] after.items[i],
    ) by {
        assert(parties_known(before.callsigns, before.items[i]));
    }
    assert forall|i: int| 0 <= i < after.liabilities.len() implies (
    #[trigger] after.liabilities[i]).amount.non_negative() by {
        assert(before.liabilities[i].amount.non_negative());
    }
}

/// That every seller and buyer is known says the same of the items and of
/// what they hold.
proof fn lemma_parties_known_views(callsigns: Seq<Callsign>, items: Seq<Item>)
    ensures
        (forall|i: int|
            0 <= i < items.len() ==> parties_known(callsign_views(callsigns), (#[trigger] items[i])@))
            <==> (forall|i: int|
            0 <= i < item_views(items).len() ==> parties_known(
                callsign_views(callsigns),
                #[trigger] item_views(items)[i],
            )),
{
    let known = callsign_views(callsigns);
    if forall|i: int| 0 <= i < items.len() ==> parties_known(known, (#[trigger] items[i])@) {
        assert forall|i: int| 0 <= i < item_views(items).len() implies parties_known(
            known,
            #[trigger] item_views(items)[i],
        ) by {
            assert(parties_known(known, items[i]@));
        }
    }
    if forall|i: int|
        0 <= i < item_views(items).len() ==> parties_known(known, #[trigger] item_views(items)[i]) {
        assert forall|i: int| 0 <= i < items.len() implies parties_known(
            known,
            (#[trigger] items[i])@,
        ) by {
            assert(parties_known(known, item_views(items)[i]));
        }
    }
}

/// Whether every seller and every buyer of `items` is among `callsigns`.
fn all_parties_known(callsigns: &Vec<Callsign>, items: &Vec<Item>) -> (r: bool)
    ensures
        r == forall|i: int|
            0 <= i < items@.len() ==> parties_known(callsign_views(callsigns@), (#[trigger] items@[i])@),
{
    let mut i: usize = 0;
    while i < items.len()
        invariant
            i <= items@.len(),
            forall|j: int|
                0 <= j < i ==> parties_known(callsign_views(callsigns@), (#[trigger] items@[j])@),
        decreases items@.len() - i,
    {
        let known = knows_party(callsigns, &items[i].seller_callsign) && match &items[i].sold_details {
            Some(sold) => knows_party(callsigns, &sold.buyer_callsign),
            None => true,
        };
        if !known {
            assert(!parties_known(callsign_views(callsigns@), items@[i as int]@));
            return false;
        }
        i = i + 1;
    }
    true
}

/// Whether no callsign stands twice in `callsigns`.
fn parties_distinct(callsigns: &Vec<Callsign>) -> (r: bool)
    ensures
        r == distinct_parties(callsign_views(callsigns@)),
{
    let ghost views = callsign_views(callsigns@);
    let mut i: usize = 0;
    while i < callsigns.len()
        invariant
            i <= callsigns@.len(),
            views == callsign_views(callsigns@),
            forall|a: int, b: int|
                0 <= a < i && 0 <= b < i && #[trigger] views[a].callsign
                    == #[trigger] views[b].callsign ==> a == b,
        decreases callsigns@.len() - i,
    {
        let mut j: usize = 0;
        while j < i
            invariant
                j <= i < callsigns@.len(),
                views == callsign_views(callsigns@),
                forall|b: int| 0 <= b < j ==> views[b].callsign != views[i as int].callsign,
            decreases i - j,
        {
            if callsigns[j] == callsigns[i] {
                assert(views[j as int].callsign == views[i as int].callsign);
                return false;
            }
            j = j + 1;
        }
        i = i + 1;
    }
    true
}

/// Whether no party has two entries in `liabilities`.
fn debtors_distinct(liabilities: &Vec<Liability>) -> (r: bool)
    ensures
        r == distinct_debtors(liability_views(liabilities@)),
{
    let ghost views = liability_views(liabilities@);
    let mut i: usize = 0;
    while i < liabilities.len()
        invariant
            i <= liabilities@.len(),
            views == liability_views(liabilities@),
            forall|a: int, b: int|
                #![trigger views[a], views[b]]
                0 <= a < i && 0 <= b < i && views[a].callsign.callsign
                    == views[b].callsign.callsign ==> a == b,
        decreases liabilities@.len() - i,
    {
        let mut j: usize = 0;
        while j < i
            invariant
                j <= i < liabilities@.len(),
                views == liability_views(liabilities@),
                forall|b: int|
                    0 <= b < j ==> (#[trigger] views[b]).callsign.callsign
                        != views[i as int].callsign.callsign,
            decreases i - j,
        {
            if liabilities[j].callsign == liabilities[i].callsign {
                assert(views[j as int].callsign.callsign == views[i as int].callsign.callsign);
                return false;
            }
            j = j + 1;
        }
        i = i + 1;
    }
    true
}

/// Whether no liability is below zero.
fn none_below_zero(liabilities: &Vec<Liability>) -> (r: bool)
    ensures
        r == forall|i: int|
            0 <= i < liabilities@.len() ==> (#[trigger] liability_views(
                liabilities@,
            )[i]).amount.non_negative(),
{
    let mut i: usize = 0;
    while i < liabilities.len()
        invariant
            i <= liabilities@.len(),
            forall|j: int|
                0 <= j < i ==> (#[trigger] liability_views(liabilities@)[j]).amount.non_negative(),
        decreases liabilities@.len() - i,
    {
        if liabilities[i].amount.is_negative() {
            assert(!liability_views(liabilities@)[i as int].amount.non_negative());
            return false;
        }
        i = i + 1;
    }
    true
}

} // verus!
