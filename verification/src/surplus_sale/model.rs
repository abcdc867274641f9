//! What the books of a surplus sale say, and how each operation changes
//! them, as mathematics.
//!
//! A party is known by their callsign alone, so the functions here take the
//! callsign as text where they look somebody up.

use crate::amount::Amount;
use crate::clock::Timestamp;
use crate::currency::Currency;
use crate::types::CallsignView;
use vstd::prelude::*;

verus! {

/// How a lot was sold, and how far the sale has been settled.
pub struct SoldView {
    pub hammer_price: Amount,
    pub buyer: CallsignView,
    pub buyer_reconciled: bool,
    pub seller_reconciled: bool,
    pub seller_all_funds_to_club: bool,
}

/// One lot.
pub struct ItemView {
    pub lot_number: Seq<char>,
    pub seller: CallsignView,
    pub description: Seq<char>,
    pub sold: Option<SoldView>,
}

/// Something that happened to the books.
pub enum AuditItemView {
    Created { currency: Currency, club_taking_pct: Amount },
    CurrencyChanged { from: Currency, to: Currency },
    ClubTakingChanged { from_pct: Amount, to_pct: Amount },
    LotSold {
        lot_number: Seq<char>,
        description: Seq<char>,
        seller: CallsignView,
        buyer: CallsignView,
        currency: Currency,
        amount: Amount,
    },
    LotNotSold { lot_number: Seq<char>, description: Seq<char> },
    Reconciled { callsign: CallsignView, amount: Amount, currency: Currency, all_funds_to_club: bool },
    ReconciledFully { callsign: CallsignView },
    ChangeGiven { callsign: CallsignView, amount: Amount, currency: Currency },
}

/// An event and the moment it was recorded.
pub struct AuditEntryView {
    pub moment: Timestamp,
    pub item: AuditItemView,
}

/// What one party still owes the club.
pub struct LiabilityView {
    pub callsign: CallsignView,
    pub amount: Amount,
}

/// The books.
pub struct DatafileView {
    pub auction_date: Timestamp,
    pub club_taking: Amount,
    pub currency: Currency,
    pub callsigns: Seq<CallsignView>,
    pub items: Seq<ItemView>,
    pub liabilities: Seq<LiabilityView>,
    pub audit_log: Seq<AuditEntryView>,
}

/// Whether `who` is among `callsigns`.
pub open spec fn knows(callsigns: Seq<CallsignView>, who: Seq<char>) -> bool {
    exists|i: int| 0 <= i < callsigns.len() && #[trigger] callsigns[i].callsign == who
}

/// `callsigns` with `party` added at the end, unless it is among them.
pub open spec fn with_party(callsigns: Seq<CallsignView>, party: CallsignView) -> Seq<
    CallsignView,
> {
    if knows(callsigns, party.callsign) {
        callsigns
    } else {
        callsigns.push(party)
    }
}

/// No callsign stands twice in `callsigns`.
pub open spec fn distinct_parties(callsigns: Seq<CallsignView>) -> bool {
    forall|i: int, j: int|
        0 <= i < callsigns.len() && 0 <= j < callsigns.len() && #[trigger] callsigns[i].callsign
            == #[trigger] callsigns[j].callsign ==> i == j
}

/// The seller of `item`, and its buyer if it sold, are among `callsigns`.
pub open spec fn parties_known(callsigns: Seq<CallsignView>, item: ItemView) -> bool {
    &&& knows(callsigns, item.seller.callsign)
    &&& item.sold is Some ==> knows(callsigns, item.sold->0.buyer.callsign)
}

/// Whether entry `i` of `liabilities` is that of `who`.
pub open spec fn owed_at(liabilities: Seq<LiabilityView>, who: Seq<char>, i: int) -> bool {
    0 <= i < liabilities.len() && liabilities[i].callsign.callsign == who
}

/// No party has two entries in `liabilities`.
pub open spec fn distinct_debtors(liabilities: Seq<LiabilityView>) -> bool {
    forall|i: int, j: int|
        #![trigger liabilities[i], liabilities[j]]
        0 <= i < liabilities.len() && 0 <= j < liabilities.len()
            && liabilities[i].callsign.callsign == liabilities[j].callsign.callsign ==> i == j
}

/// Where `who` stands in `liabilities`, if they stand there.
pub open spec fn debtor_slot(liabilities: Seq<LiabilityView>, who: Seq<char>) -> Option<int> {
    if exists|i: int| owed_at(liabilities, who, i) {
        Some(choose|i: int| owed_at(liabilities, who, i))
    } else {
        None
    }
}

/// The lot was sold by `who`, who has not been paid out for it yet.
pub open spec fn sale_open(item: ItemView, who: Seq<char>) -> bool {
    item.seller.callsign == who && item.sold is Some && !item.sold->0.seller_reconciled
}

/// The lot was bought by `who`, who has not paid for it yet.
pub open spec fn purchase_open(item: ItemView, who: Seq<char>) -> bool {
    item.sold is Some && item.sold->0.buyer.callsign == who && !item.sold->0.buyer_reconciled
}

/// The lot after `who` has been paid out for it, if that was still open.
/// `all_funds_to_club` is put on record for the lots paid out now, and for
/// no other.
pub open spec fn seller_settled(item: ItemView, who: Seq<char>, all_funds_to_club: bool) -> ItemView {
    if sale_open(item, who) {
        ItemView {
            sold: Some(
                SoldView {
                    seller_reconciled: true,
                    seller_all_funds_to_club: all_funds_to_club,
                    ..item.sold->0
                },
            ),
            ..item
        }
    } else {
        item
    }
}

/// The lot after `who` has paid for it, if that was still open.
pub open spec fn buyer_settled(item: ItemView, who: Seq<char>) -> ItemView {
    if purchase_open(item, who) {
        ItemView { sold: Some(SoldView { buyer_reconciled: true, ..item.sold->0 }), ..item }
    } else {
        item
    }
}

/// The lot after `who` has settled both as its seller and as its buyer.
pub open spec fn settled(item: ItemView, who: Seq<char>, all_funds_to_club: bool) -> ItemView {
    buyer_settled(seller_settled(item, who, all_funds_to_club), who)
}

/// `start`, and on top of it what `who` is due for the first `n` lots: for
/// each lot of theirs that sold and is not paid out, the hammer price times
/// `keep`, the share of it that the seller keeps.
pub open spec fn sales_credit(
    items: Seq<ItemView>,
    who: Seq<char>,
    keep: Amount,
    start: Amount,
    n: int,
) -> Amount
    decreases n,
{
    if n <= 0 {
        start
    } else {
        let before = sales_credit(items, who, keep, start, n - 1);
        if sale_open(items[n - 1], who) {
            before.plus(items[n - 1].sold->0.hammer_price.times(keep))
        } else {
            before
        }
    }
}

/// `start`, less what `who` has to pay for the first `n` lots: the hammer
/// price of each lot they bought and have not paid for.
pub open spec fn purchases_debit(items: Seq<ItemView>, who: Seq<char>, start: Amount, n: int) -> Amount
    decreases n,
{
    if n <= 0 {
        start
    } else {
        let before = purchases_debit(items, who, start, n - 1);
        if purchase_open(items[n - 1], who) {
            before.minus(items[n - 1].sold->0.hammer_price)
        } else {
            before
        }
    }
}

/// `start`, and on top of it the hammer price of each of the first `n` lots
/// that `who` bought and has not paid for.
pub open spec fn purchases_owed(items: Seq<ItemView>, who: Seq<char>, start: Amount, n: int) -> Amount
    decreases n,
{
    if n <= 0 {
        start
    } else {
        let before = purchases_owed(items, who, start, n - 1);
        if purchase_open(items[n - 1], who) {
            before.plus(items[n - 1].sold->0.hammer_price)
        } else {
            before
        }
    }
}

/// `start`, less what `who` is due for those of the first `n` lots that they
/// sold and are not paid out for: the hammer price times `keep`.
pub open spec fn sales_owing(
    items: Seq<ItemView>,
    who: Seq<char>,
    keep: Amount,
    start: Amount,
    n: int,
) -> Amount
    decreases n,
{
    if n <= 0 {
        start
    } else {
        let before = sales_owing(items, who, keep, start, n - 1);
        if sale_open(items[n - 1], who) {
            before.minus(items[n - 1].sold->0.hammer_price.times(keep))
        } else {
            before
        }
    }
}

/// Those of the first `n` lots that `who` sold and is not paid out for, in
/// their order.
pub open spec fn open_sales(items: Seq<ItemView>, who: Seq<char>, n: int) -> Seq<ItemView>
    decreases n,
{
    if n <= 0 {
        Seq::empty()
    } else if sale_open(items[n - 1], who) {
        open_sales(items, who, n - 1).push(items[n - 1])
    } else {
        open_sales(items, who, n - 1)
    }
}

/// Those of the first `n` lots that `who` bought and has not paid for, in
/// their order.
pub open spec fn open_purchases(items: Seq<ItemView>, who: Seq<char>, n: int) -> Seq<ItemView>
    decreases n,
{
    if n <= 0 {
        Seq::empty()
    } else if purchase_open(items[n - 1], who) {
        open_purchases(items, who, n - 1).push(items[n - 1])
    } else {
        open_purchases(items, who, n - 1)
    }
}

/// How much of `due` is paid off from `working`: all of it if `working`
/// reaches, else `working` itself, which may be below zero.
pub open spec fn dues_paid(due: Amount, working: Amount) -> Amount {
    if working.less_than(due) {
        working
    } else {
        due
    }
}

/// The events of `log`, without their moments.
pub open spec fn events(log: Seq<AuditEntryView>) -> Seq<AuditItemView> {
    Seq::new(log.len(), |i: int| log[i].item)
}

/// `after` is `before` with one entry added at the end for each of `added`,
/// in their order. The entries of `before` are there unchanged.
pub open spec fn logged(
    before: Seq<AuditEntryView>,
    after: Seq<AuditEntryView>,
    added: Seq<AuditItemView>,
) -> bool {
    &&& after.len() == before.len() + added.len()
    &&& after.subrange(0, before.len() as int) == before
    &&& events(after.subrange(before.len() as int, after.len() as int)) == added
}

/// `after` begins with all of `before`: entries may have been added at the
/// end, and none was changed or taken away.
pub open spec fn extends(before: Seq<AuditEntryView>, after: Seq<AuditEntryView>) -> bool {
    before.len() <= after.len() && after.subrange(0, before.len() as int) == before
}

impl DatafileView {
    /// What holds of the books at all times: nobody is listed twice, neither
    /// among the parties nor among the debtors; every seller and every buyer
    /// is among the parties; and no liability is below zero.
    pub open spec fn wf(self) -> bool {
        &&& distinct_parties(self.callsigns)
        &&& distinct_debtors(self.liabilities)
        &&& forall|i: int|
            0 <= i < self.items.len() ==> parties_known(self.callsigns, #[trigger] self.items[i])
        &&& forall|i: int|
            0 <= i < self.liabilities.len() ==> (#[trigger] self.liabilities[i]).amount.non_negative()
    }

    /// The share of a hammer price that the seller keeps: one less the club
    /// taking.
    pub open spec fn keep(self) -> Amount {
        Amount::one().minus(self.club_taking)
    }

    /// What the seller is paid out of a hammer price of `price`.
    pub open spec fn payout(self, price: Amount) -> Amount {
        price.times(self.keep())
    }

    /// The club taking in percent.
    pub open spec fn club_taking_pct(self) -> Amount {
        self.club_taking.times(Amount::hundred())
    }

    /// What `who` still owes from earlier, if anything is on record.
    pub open spec fn owed(self, who: Seq<char>) -> Option<Amount> {
        match debtor_slot(self.liabilities, who) {
            Some(i) => Some(self.liabilities[i].amount),
            None => None,
        }
    }

    /// What `who` has to pay the club to be settled, before any money has
    /// changed hands: what they owe from earlier, and their open purchases,
    /// less what they are due for their open sales. Below zero, the club has
    /// to pay them.
    pub open spec fn amount_due(self, who: Seq<char>) -> Amount {
        let owed = match self.owed(who) {
            Some(due) => due,
            None => Amount::zero(),
        };
        let with_purchases = purchases_owed(self.items, who, owed, self.items.len() as int);
        sales_owing(self.items, who, self.keep(), with_purchases, self.items.len() as int)
    }

    /// `amount` and what `who` is due for the lots they sold.
    pub open spec fn credited(self, who: Seq<char>, amount: Amount) -> Amount {
        sales_credit(self.items, who, self.keep(), amount, self.items.len() as int)
    }

    /// What is left of the earlier liability of `who`, if there is one, once
    /// it has been paid from `amount` and the sales.
    pub open spec fn dues_left(self, who: Seq<char>, amount: Amount) -> Option<Amount> {
        match self.owed(who) {
            Some(due) => Some(due.minus(dues_paid(due, self.credited(who, amount)))),
            None => None,
        }
    }

    /// What is left of `amount` and the sales once the earlier liability has
    /// been paid from it.
    pub open spec fn after_dues(self, who: Seq<char>, amount: Amount) -> Amount {
        match self.owed(who) {
            Some(due) => self.credited(who, amount).minus(
                dues_paid(due, self.credited(who, amount)),
            ),
            None => self.credited(who, amount),
        }
    }

    /// Where `who` stands once everything is counted: `amount`, and the
    /// sales, less the earlier liability as far as it could be paid, less the
    /// purchases. Below zero, `who` owes the club that much.
    pub open spec fn balance(self, who: Seq<char>, amount: Amount) -> Amount {
        purchases_debit(self.items, who, self.after_dues(who, amount), self.items.len() as int)
    }

    /// The change to hand back to `who`: the balance, if it is above zero.
    pub open spec fn change(self, who: Seq<char>, amount: Amount) -> Amount {
        let balance = self.balance(who, amount);
        if Amount::zero().less_than(balance) {
            balance
        } else {
            Amount::zero()
        }
    }

    /// The lots after `who` has settled.
    pub open spec fn items_after(self, who: Seq<char>, all_funds_to_club: bool) -> Seq<ItemView> {
        Seq::new(self.items.len(), |i: int| settled(self.items[i], who, all_funds_to_club))
    }

    /// The liabilities after `party` has settled with `amount`. An earlier
    /// liability is first paid off as far as possible; a balance below zero
    /// is then added to it, or put on record as a new liability.
    pub open spec fn liabilities_after(self, party: CallsignView, amount: Amount) -> Seq<
        LiabilityView,
    > {
        let who = party.callsign;
        let balance = self.balance(who, amount);
        match debtor_slot(self.liabilities, who) {
            Some(i) => {
                let left = self.dues_left(who, amount)->0;
                self.liabilities.update(
                    i,
                    LiabilityView {
                        callsign: self.liabilities[i].callsign,
                        amount: if balance.less_than(Amount::zero()) {
                            left.minus(balance)
                        } else {
                            left
                        },
                    },
                )
            },
            None => {
                if balance.less_than(Amount::zero()) {
                    self.liabilities.push(
                        LiabilityView { callsign: party, amount: balance.negated() },
                    )
                } else {
                    self.liabilities
                }
            },
        }
    }

    /// What the audit log says of `party` settling with `amount`: first that
    /// it was attempted; then, unless a liability remains, that `party` is
    /// settled in full; then the change, if there is any.
    pub open spec fn reconcile_events(
        self,
        party: CallsignView,
        amount: Amount,
        all_funds_to_club: bool,
    ) -> Seq<AuditItemView> {
        let balance = self.balance(party.callsign, amount);
        let attempt = AuditItemView::Reconciled {
            callsign: party,
            amount,
            currency: self.currency,
            all_funds_to_club,
        };
        if balance.less_than(Amount::zero()) {
            seq![attempt]
        } else if Amount::zero().less_than(balance) {
            seq![
                attempt,
                AuditItemView::ReconciledFully { callsign: party },
                AuditItemView::ChangeGiven { callsign: party, amount: balance, currency: self.currency },
            ]
        } else {
            seq![attempt, AuditItemView::ReconciledFully { callsign: party }]
        }
    }

    /// `after` is what the books are once `party` has settled with `amount`.
    pub open spec fn reconciles_to(
        self,
        after: DatafileView,
        party: CallsignView,
        amount: Amount,
        all_funds_to_club: bool,
    ) -> bool {
        &&& after.auction_date == self.auction_date
        &&& after.club_taking == self.club_taking
        &&& after.currency == self.currency
        &&& after.callsigns == self.callsigns
        &&& after.items == self.items_after(party.callsign, all_funds_to_club)
        &&& after.liabilities == self.liabilities_after(party, amount)
        &&& logged(
            self.audit_log,
            after.audit_log,
            self.reconcile_events(party, amount, all_funds_to_club),
        )
    }

    /// What the audit log says of `item` being put on the books.
    pub open spec fn push_event(self, item: ItemView) -> AuditItemView {
        match item.sold {
            Some(sold) => AuditItemView::LotSold {
                lot_number: item.lot_number,
                description: item.description,
                seller: item.seller,
                buyer: sold.buyer,
                currency: self.currency,
                amount: sold.hammer_price,
            },
            None => AuditItemView::LotNotSold {
                lot_number: item.lot_number,
                description: item.description,
            },
        }
    }

    /// The parties once `item` is on the books: its seller, and then its
    /// buyer, are added unless they are known.
    pub open spec fn callsigns_with(self, item: ItemView) -> Seq<CallsignView> {
        let with_seller = with_party(self.callsigns, item.seller);
        match item.sold {
            Some(sold) => with_party(with_seller, sold.buyer),
            None => with_seller,
        }
    }

    /// `after` is what the books are once `item` has been put on them.
    pub open spec fn pushes_to(self, after: DatafileView, item: ItemView) -> bool {
        &&& after.auction_date == self.auction_date
        &&& after.club_taking == self.club_taking
        &&& after.currency == self.currency
        &&& after.callsigns == self.callsigns_with(item)
        &&& after.items == self.items.push(item)
        &&& after.liabilities == self.liabilities
        &&& logged(self.audit_log, after.audit_log, seq![self.push_event(item)])
    }

    /// `after` is what the books are once they are kept in `currency`: the
    /// same, if they were already; else changed, with the change on record.
    pub open spec fn currency_set_to(self, after: DatafileView, currency: Currency) -> bool {
        if currency == self.currency {
            after == self
        } else {
            &&& after.auction_date == self.auction_date
            &&& after.club_taking == self.club_taking
            &&& after.currency == currency
            &&& after.callsigns == self.callsigns
            &&& after.items == self.items
            &&& after.liabilities == self.liabilities
            &&& logged(
                self.audit_log,
                after.audit_log,
                seq![AuditItemView::CurrencyChanged { from: self.currency, to: currency }],
            )
        }
    }

    /// `after` is what the books are once the club taking is `club_taking`:
    /// the same, if it was already; else changed, with the change on record
    /// in percent.
    pub open spec fn club_taking_set_to(self, after: DatafileView, club_taking: Amount) -> bool {
        if club_taking == self.club_taking {
            after == self
        } else {
            &&& after.auction_date == self.auction_date
            &&& after.club_taking == club_taking
            &&& after.currency == self.currency
            &&& after.callsigns == self.callsigns
            &&& after.items == self.items
            &&& after.liabilities == self.liabilities
            &&& logged(
                self.audit_log,
                after.audit_log,
                seq![
                    AuditItemView::ClubTakingChanged {
                        from_pct: self.club_taking.times(Amount::hundred()),
                        to_pct: club_taking.times(Amount::hundred()),
                    },
                ],
            )
        }
    }
}

} // verus!
