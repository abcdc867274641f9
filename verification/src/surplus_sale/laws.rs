//! What holds of the books whatever is done with them.

use crate::amount::{
    lemma_below_zero, lemma_lifted_sign, lemma_minus_sign, lemma_of_sign, lemma_plus_zero, Amount,
};
use crate::currency::Currency;
use crate::surplus_sale::lots::{
    lemma_lot_numbers_unique, lemma_lots_numbered, lemma_next_lot_of_same_lots,
    lemma_numbering_goes_on, lot_label, lots_of, next_lot, numbered_in_turn,
};
use crate::surplus_sale::model::{
    debtor_slot, distinct_debtors, dues_paid, events, extends, logged, owed_at, purchase_open,
    purchases_debit, sale_open, sales_credit, settled, AuditEntryView, AuditItemView,
    DatafileView, ItemView, LiabilityView,
};
use crate::types::CallsignView;
use vstd::prelude::*;

verus! {

/// Where no lot of `who` is open for payout, the sales add nothing.
pub proof fn lemma_no_open_sales(
    items: Seq<ItemView>,
    who: Seq<char>,
    keep: Amount,
    start: Amount,
    n: int,
)
    requires
        n <= items.len(),
        forall|i: int| 0 <= i < items.len() ==> !sale_open(#[trigger] items[i], who),
    ensures
        sales_credit(items, who, keep, start, n) == start,
    decreases n,
{
    if n > 0 {
        lemma_no_open_sales(items, who, keep, start, n - 1);
    }
}

/// Where no lot is open for payment by `who`, the purchases take nothing.
pub proof fn lemma_no_open_purchases(items: Seq<ItemView>, who: Seq<char>, start: Amount, n: int)
    requires
        n <= items.len(),
        forall|i: int| 0 <= i < items.len() ==> !purchase_open(#[trigger] items[i], who),
    ensures
        purchases_debit(items, who, start, n) == start,
    decreases n,
{
    if n > 0 {
        lemma_no_open_purchases(items, who, start, n - 1);
    }
}

/// Settling is a latch. Once a party has settled, no lot is open for them
/// any more, so if they settle again straight away, with whatever amount,
/// their sales add nothing to it, their purchases take nothing from it, and
/// no lot is marked anew.
pub proof fn lemma_reconcile_latches(
    before: DatafileView,
    after: DatafileView,
    party: CallsignView,
    amount: Amount,
    all_funds_to_club: bool,
    next_amount: Amount,
    next_all_funds_to_club: bool,
)
    requires
        before.reconciles_to(after, party, amount, all_funds_to_club),
    ensures
        forall|i: int|
            0 <= i < after.items.len() ==> !sale_open(#[trigger] after.items[i], party.callsign)
                && !purchase_open(after.items[i], party.callsign),
        after.credited(party.callsign, next_amount) == next_amount,
        after.balance(party.callsign, next_amount) == after.after_dues(
            party.callsign,
            next_amount,
        ),
        after.items_after(party.callsign, next_all_funds_to_club) == after.items,
{
    let who = party.callsign;
    assert forall|i: int| 0 <= i < after.items.len() implies !sale_open(
        #[trigger] after.items[i],
        who,
    ) && !purchase_open(after.items[i], who) by {
        assert(after.items[i] == settled(before.items[i], who, all_funds_to_club));
    }
    lemma_no_open_sales(after.items, who, after.keep(), next_amount, after.items.len() as int);
    lemma_no_open_purchases(
        after.items,
        who,
        after.after_dues(who, next_amount),
        after.items.len() as int,
    );
    assert(after.items_after(who, next_all_funds_to_club) =~= after.items);
}

/// A party who owes nothing from earlier and has nothing to pay for comes
/// out with the amount and their sales, and gets that as change if it is
/// above zero.
pub proof fn lemma_change_is_the_credit(books: DatafileView, who: Seq<char>, amount: Amount)
    requires
        books.owed(who) is None,
        forall|i: int| 0 <= i < books.items.len() ==> !purchase_open(#[trigger] books.items[i], who),
    ensures
        books.balance(who, amount) == books.credited(who, amount),
        books.change(who, amount) == (if Amount::zero().less_than(books.credited(who, amount)) {
            books.credited(who, amount)
        } else {
            Amount::zero()
        }),
{
    lemma_no_open_purchases(
        books.items,
        who,
        books.after_dues(who, amount),
        books.items.len() as int,
    );
}

/// The seller of the one lot on the books, which somebody else bought, who
/// owes nothing from earlier and settles with nothing in hand, comes out
/// with the hammer price less the club taking.
pub proof fn lemma_single_sale(books: DatafileView, who: Seq<char>)
    requires
        books.items.len() == 1,
        sale_open(books.items[0], who),
        !purchase_open(books.items[0], who),
        books.owed(who) is None,
    ensures
        books.balance(who, Amount::zero()) == books.payout(books.items[0].sold->0.hammer_price),
{
    let price = books.items[0].sold->0.hammer_price;
    lemma_change_is_the_credit(books, who, Amount::zero());
    reveal_with_fuel(sales_credit, 2);
    assert(books.credited(who, Amount::zero()) == Amount::zero().plus(price.times(books.keep())));
    lemma_of_sign(price.digits * books.keep().digits, price.scale + books.keep().scale);
    lemma_plus_zero(price.times(books.keep()));
}

/// In liabilities where nobody stands twice, the one entry of a party is
/// their place.
pub proof fn lemma_debtor_slot(liabilities: Seq<LiabilityView>, who: Seq<char>, i: int)
    requires
        distinct_debtors(liabilities),
        owed_at(liabilities, who, i),
    ensures
        debtor_slot(liabilities, who) == Some(i),
{
    let chosen = choose|j: int| owed_at(liabilities, who, j);
    assert(liabilities[chosen].callsign.callsign == liabilities[i].callsign.callsign);
}

/// What is short is carried forward. A party with nothing on record from
/// earlier, whose balance comes out below zero, owes the club exactly that
/// much afterwards, and gets no change.
pub proof fn lemma_shortfall_carried_forward(
    before: DatafileView,
    after: DatafileView,
    party: CallsignView,
    amount: Amount,
    all_funds_to_club: bool,
)
    requires
        before.wf(),
        before.reconciles_to(after, party, amount, all_funds_to_club),
        before.owed(party.callsign) is None,
        before.balance(party.callsign, amount).less_than(Amount::zero()),
    ensures
        after.owed(party.callsign) == Some(before.balance(party.callsign, amount).negated()),
        before.change(party.callsign, amount) == Amount::zero(),
{
    let who = party.callsign;
    let balance = before.balance(who, amount);
    lemma_below_zero(balance);
    let slot = before.liabilities.len() as int;
    assert(owed_at(after.liabilities, who, slot));
    assert forall|i: int, j: int|
        #![trigger after.liabilities[i], after.liabilities[j]]
        0 <= i < after.liabilities.len() && 0 <= j < after.liabilities.len()
            && after.liabilities[i].callsign.callsign
            == after.liabilities[j].callsign.callsign implies i == j by {
        if i < slot && j < slot {
            assert(before.liabilities[i].callsign.callsign
                == before.liabilities[j].callsign.callsign);
        } else if i < slot {
            assert(owed_at(before.liabilities, who, i));
        } else if j < slot {
            assert(owed_at(before.liabilities, who, j));
        }
    }
    lemma_debtor_slot(after.liabilities, who, slot);
}

/// What was carried forward can be paid off. Once a party has settled, if
/// they then pay exactly what remains on record against them, nothing
/// remains, and there is no change.
pub proof fn lemma_liability_paid_off(
    before: DatafileView,
    settled_once: DatafileView,
    after: DatafileView,
    party: CallsignView,
    amount: Amount,
    all_funds_to_club: bool,
    next_all_funds_to_club: bool,
)
    requires
        before.reconciles_to(settled_once, party, amount, all_funds_to_club),
        settled_once.wf(),
        settled_once.owed(party.callsign) is Some,
        settled_once.reconciles_to(
            after,
            party,
            settled_once.owed(party.callsign)->0,
            next_all_funds_to_club,
        ),
    ensures
        after.owed(party.callsign) == Some(Amount::zero()),
        settled_once.change(party.callsign, settled_once.owed(party.callsign)->0)
            == Amount::zero(),
{
    let who = party.callsign;
    let due = settled_once.owed(who)->0;
    lemma_reconcile_latches(
        before,
        settled_once,
        party,
        amount,
        all_funds_to_club,
        due,
        next_all_funds_to_club,
    );
    lemma_minus_sign(due, due);
    assert(dues_paid(due, due) == due);
    assert(settled_once.balance(who, due) == Amount::zero());
    lemma_below_zero(Amount::zero());
    let slot = debtor_slot(settled_once.liabilities, who)->0;
    assert(owed_at(settled_once.liabilities, who, slot));
    assert(owed_at(after.liabilities, who, slot));
    assert forall|i: int, j: int|
        #![trigger after.liabilities[i], after.liabilities[j]]
        0 <= i < after.liabilities.len() && 0 <= j < after.liabilities.len()
            && after.liabilities[i].callsign.callsign
            == after.liabilities[j].callsign.callsign implies i == j by {
        assert(settled_once.liabilities[i].callsign.callsign
            == settled_once.liabilities[j].callsign.callsign);
    }
    lemma_debtor_slot(after.liabilities, who, slot);
}

/// Settling with one party leaves everybody else alone: what another party
/// owes stays as it is, and a lot that the one party neither sold nor bought
/// stays as it is.
pub proof fn lemma_reconcile_leaves_others(
    before: DatafileView,
    after: DatafileView,
    party: CallsignView,
    amount: Amount,
    all_funds_to_club: bool,
    other: Seq<char>,
)
    requires
        before.wf(),
        before.reconciles_to(after, party, amount, all_funds_to_club),
        other != party.callsign,
    ensures
        after.owed(other) == before.owed(other),
        forall|i: int|
            0 <= i < before.items.len() && !sale_open(#[trigger] before.items[i], party.callsign)
                && !purchase_open(before.items[i], party.callsign) ==> after.items[i]
                == before.items[i],
        forall|i: int|
            0 <= i < before.items.len() ==> (sale_open(#[trigger] after.items[i], other)
                <==> sale_open(before.items[i], other)) && (purchase_open(after.items[i], other)
                <==> purchase_open(before.items[i], other)),
{
    let who = party.callsign;
    assert forall|i: int| 0 <= i < before.items.len() implies #[trigger] after.items[i] == settled(
        before.items[i],
        who,
        all_funds_to_club,
    ) by {}
    assert forall|i: int| 0 <= i < before.liabilities.len() implies (
    #[trigger] after.liabilities[i]).callsign == before.liabilities[i].callsign by {}
    assert forall|i: int, j: int|
        #![trigger after.liabilities[i], after.liabilities[j]]
        0 <= i < after.liabilities.len() && 0 <= j < after.liabilities.len()
            && after.liabilities[i].callsign.callsign
            == after.liabilities[j].callsign.callsign implies i == j by {
        let n = before.liabilities.len();
        if i < n && j < n {
            assert(before.liabilities[i].callsign.callsign
                == before.liabilities[j].callsign.callsign);
        } else if i < n {
            assert(owed_at(before.liabilities, who, i));
        } else if j < n {
            assert(owed_at(before.liabilities, who, j));
        }
    }
    if exists|i: int| owed_at(before.liabilities, other, i) {
        let i = choose|i: int| owed_at(before.liabilities, other, i);
        lemma_debtor_slot(before.liabilities, other, i);
        assert(owed_at(after.liabilities, other, i));
        lemma_debtor_slot(after.liabilities, other, i);
        if debtor_slot(before.liabilities, who) is Some {
            assert(owed_at(before.liabilities, who, debtor_slot(before.liabilities, who)->0));
        }
    } else {
        assert forall|i: int| !owed_at(after.liabilities, other, i) by {
            if owed_at(after.liabilities, other, i) {
                if i < before.liabilities.len() {
                    assert(owed_at(before.liabilities, other, i));
                }
            }
        }
    }
}

/// The choice to leave the proceeds to the club is put on record for every
/// lot that the party is paid out for in this settling, and for no other lot.
pub proof fn lemma_donation_scope(
    before: DatafileView,
    after: DatafileView,
    party: CallsignView,
    amount: Amount,
    all_funds_to_club: bool,
)
    requires
        before.reconciles_to(after, party, amount, all_funds_to_club),
    ensures
        after.items.len() == before.items.len(),
        forall|i: int|
            0 <= i < before.items.len() && sale_open(#[trigger] before.items[i], party.callsign)
                ==> after.items[i].sold is Some && after.items[i].sold->0.seller_reconciled
                && after.items[i].sold->0.seller_all_funds_to_club == all_funds_to_club,
        forall|i: int|
            0 <= i < before.items.len() && before.items[i].sold is Some && !sale_open(
                #[trigger] before.items[i],
                party.callsign,
            ) ==> after.items[i].sold->0.seller_all_funds_to_club
                == before.items[i].sold->0.seller_all_funds_to_club
                && after.items[i].sold->0.seller_reconciled
                == before.items[i].sold->0.seller_reconciled,
{
    assert forall|i: int| 0 <= i < before.items.len() implies #[trigger] after.items[i] == settled(
        before.items[i],
        party.callsign,
        all_funds_to_club,
    ) by {}
}

/// Settling never undoes a sale: every lot keeps its number, its seller, its
/// description, and whether, to whom and for how much it was sold. The marks
/// of settlement are only ever set, never cleared.
pub proof fn lemma_reconcile_keeps_sales(
    before: DatafileView,
    after: DatafileView,
    party: CallsignView,
    amount: Amount,
    all_funds_to_club: bool,
)
    requires
        before.reconciles_to(after, party, amount, all_funds_to_club),
    ensures
        after.items.len() == before.items.len(),
        forall|i: int|
            #![trigger after.items[i]]
            0 <= i < before.items.len() ==> {
                &&& after.items[i].lot_number == before.items[i].lot_number
                &&& after.items[i].seller == before.items[i].seller
                &&& after.items[i].description == before.items[i].description
                &&& after.items[i].sold is Some <==> before.items[i].sold is Some
            },
        forall|i: int|
            #![trigger after.items[i]]
            0 <= i < before.items.len() && before.items[i].sold is Some ==> {
                &&& after.items[i].sold->0.hammer_price == before.items[i].sold->0.hammer_price
                &&& after.items[i].sold->0.buyer == before.items[i].sold->0.buyer
                &&& before.items[i].sold->0.seller_reconciled
                    ==> after.items[i].sold->0.seller_reconciled
                &&& before.items[i].sold->0.buyer_reconciled
                    ==> after.items[i].sold->0.buyer_reconciled
            },
{
    assert forall|i: int| 0 <= i < before.items.len() implies #[trigger] after.items[i] == settled(
        before.items[i],
        party.callsign,
        all_funds_to_club,
    ) by {}
}

/// Setting the club taking to what it is changes nothing, the audit log
/// included. Setting it to anything else puts exactly one entry on the log,
/// which says from what to what it changed.
pub proof fn lemma_club_taking_setter(before: DatafileView, after: DatafileView, club_taking: Amount)
    requires
        before.club_taking_set_to(after, club_taking),
    ensures
        club_taking == before.club_taking ==> after == before,
        club_taking != before.club_taking ==> {
            &&& after.club_taking == club_taking
            &&& after.audit_log.len() == before.audit_log.len() + 1
            &&& after.audit_log.last().item == (AuditItemView::ClubTakingChanged {
                from_pct: before.club_taking_pct(),
                to_pct: after.club_taking_pct(),
            })
        },
{
    if club_taking != before.club_taking {
        let added = after.audit_log.subrange(
            before.audit_log.len() as int,
            after.audit_log.len() as int,
        );
        assert(events(added)[0] == added[0].item);
    }
}

/// Setting the currency to what it is changes nothing, the audit log
/// included. Setting it to another puts exactly one entry on the log, which
/// says from what to what it changed.
pub proof fn lemma_currency_setter(before: DatafileView, after: DatafileView, currency: Currency)
    requires
        before.currency_set_to(after, currency),
    ensures
        currency == before.currency ==> after == before,
        currency != before.currency ==> {
            &&& after.currency == currency
            &&& after.audit_log.len() == before.audit_log.len() + 1
            &&& after.audit_log.last().item == (AuditItemView::CurrencyChanged {
                from: before.currency,
                to: currency,
            })
        },
{
    if currency != before.currency {
        let added = after.audit_log.subrange(
            before.audit_log.len() as int,
            after.audit_log.len() as int,
        );
        assert(events(added)[0] == added[0].item);
    }
}

/// One of the operations on the books leads from `before` to `after`.
pub open spec fn step(before: DatafileView, after: DatafileView) -> bool {
    ||| exists|item: ItemView| before.pushes_to(after, item)
    ||| exists|party: CallsignView, amount: Amount, all_funds_to_club: bool|
        before.reconciles_to(after, party, amount, all_funds_to_club)
    ||| exists|currency: Currency| before.currency_set_to(after, currency)
    ||| exists|club_taking: Amount| before.club_taking_set_to(after, club_taking)
}

/// `states` is a history of the books: each state comes from the one before
/// it by one of the operations.
pub open spec fn history(states: Seq<DatafileView>) -> bool {
    forall|i: int| 0 <= i < states.len() - 1 ==> step(#[trigger] states[i], states[i + 1])
}

/// A log to which entries were added begins with what it was.
pub proof fn lemma_logged_extends(
    before: Seq<AuditEntryView>,
    after: Seq<AuditEntryView>,
    added: Seq<AuditItemView>,
)
    requires
        logged(before, after, added),
    ensures
        extends(before, after),
{
}

/// Adding to a log twice is adding to it.
pub proof fn lemma_extends_transitive(
    first: Seq<AuditEntryView>,
    second: Seq<AuditEntryView>,
    third: Seq<AuditEntryView>,
)
    requires
        extends(first, second),
        extends(second, third),
    ensures
        extends(first, third),
{
    assert(third.subrange(0, first.len() as int) =~= second.subrange(0, first.len() as int)) by {
        assert(third.subrange(0, second.len() as int) == second);
    }
}

/// No operation takes an entry off the audit log or changes one.
pub proof fn lemma_step_appends(before: DatafileView, after: DatafileView)
    requires
        step(before, after),
    ensures
        extends(before.audit_log, after.audit_log),
{
    assert(before.audit_log.subrange(0, before.audit_log.len() as int) =~= before.audit_log);
}

/// The audit log only grows. Between any two states of a history, the later
/// log is at least as long as the earlier one and begins with it, entry for
/// entry.
pub proof fn lemma_audit_log_append_only(states: Seq<DatafileView>, earlier: int, later: int)
    requires
        history(states),
        0 <= earlier <= later < states.len(),
    ensures
        extends(states[earlier].audit_log, states[later].audit_log),
        states[earlier].audit_log.len() <= states[later].audit_log.len(),
        forall|k: int|
            0 <= k < states[earlier].audit_log.len() ==> states[later].audit_log[k]
                == states[earlier].audit_log[k],
    decreases later - earlier,
{
    let first = states[earlier].audit_log;
    if earlier == later {
        assert(first.subrange(0, first.len() as int) =~= first);
    } else {
        lemma_audit_log_append_only(states, earlier, later - 1);
        lemma_step_appends(states[later - 1], states[later]);
        lemma_extends_transitive(first, states[later - 1].audit_log, states[later].audit_log);
    }
    let last = states[later].audit_log;
    assert forall|k: int| 0 <= k < first.len() implies last[k] == first[k] by {
        assert(last.subrange(0, first.len() as int)[k] == last[k]);
    }
}

/// Putting a lot on the books keeps them numbered in turn, if the lot is
/// that of another seller or goes under the next lot number of its seller.
pub proof fn lemma_push_keeps_numbering(
    before: DatafileView,
    after: DatafileView,
    item: ItemView,
    callsign: Seq<char>,
)
    requires
        before.pushes_to(after, item),
        numbered_in_turn(before.items, callsign),
        item.seller.callsign == callsign ==> item.lot_number == lot_label(
            callsign,
            next_lot(before.items, callsign),
        ),
    ensures
        numbered_in_turn(after.items, callsign),
{
    lemma_numbering_goes_on(before.items, item, callsign);
}

/// Settling keeps the books numbered in turn: it changes no lot number and
/// no seller.
pub proof fn lemma_settling_keeps_numbering(
    before: DatafileView,
    after: DatafileView,
    party: CallsignView,
    amount: Amount,
    all_funds_to_club: bool,
    callsign: Seq<char>,
)
    requires
        before.reconciles_to(after, party, amount, all_funds_to_club),
        numbered_in_turn(before.items, callsign),
    ensures
        numbered_in_turn(after.items, callsign),
{
    assert forall|i: int| 0 <= i < before.items.len() implies #[trigger] after.items[i] == settled(
        before.items[i],
        party.callsign,
        all_funds_to_club,
    ) by {}
    assert forall|i: int|
        0 <= i < after.items.len() && (#[trigger] after.items[i]).seller.callsign
            == callsign implies after.items[i].lot_number == lot_label(
        callsign,
        next_lot(after.items.take(i), callsign),
    ) by {
        assert(before.items[i].seller.callsign == callsign);
        let front = before.items.take(i);
        let settled_front = after.items.take(i);
        assert forall|k: int| 0 <= k < front.len() implies (#[trigger] settled_front[k]).seller
            == front[k].seller && settled_front[k].lot_number == front[k].lot_number by {
            assert(settled_front[k] == after.items[k]);
            assert(front[k] == before.items[k]);
        }
        lemma_next_lot_of_same_lots(front, settled_front, callsign);
    }
}

/// One of the operations on the books leads from `before` to `after`, and if
/// it put a lot on the books, the lot went under the next lot number of its
/// seller.
pub open spec fn numbered_step(before: DatafileView, after: DatafileView) -> bool {
    ||| exists|item: ItemView|
        before.pushes_to(after, item) && item.lot_number == lot_label(
            item.seller.callsign,
            next_lot(before.items, item.seller.callsign),
        )
    ||| exists|party: CallsignView, amount: Amount, all_funds_to_club: bool|
        before.reconciles_to(after, party, amount, all_funds_to_club)
    ||| exists|currency: Currency| before.currency_set_to(after, currency)
    ||| exists|club_taking: Amount| before.club_taking_set_to(after, club_taking)
}

/// `states` is the history of books that were new at first, with no lot on
/// them, and on which every lot since was put under the next lot number of
/// its seller.
pub open spec fn numbered_history(states: Seq<DatafileView>) -> bool {
    &&& states.len() > 0
    &&& states[0].items.len() == 0
    &&& forall|i: int| 0 <= i < states.len() - 1 ==> numbered_step(#[trigger] states[i], states[i + 1])
}

/// Books whose lots were each put on them under the next lot number of the
/// seller are numbered in turn, for every seller, at every point of their
/// history.
pub proof fn lemma_history_numbered(states: Seq<DatafileView>, at: int, callsign: Seq<char>)
    requires
        numbered_history(states),
        0 <= at < states.len(),
    ensures
        numbered_in_turn(states[at].items, callsign),
    decreases at,
{
    if at > 0 {
        lemma_history_numbered(states, at - 1, callsign);
        let before = states[at - 1];
        let after = states[at];
        assert(numbered_step(before, after));
        if exists|item: ItemView|
            before.pushes_to(after, item) && item.lot_number == lot_label(
                item.seller.callsign,
                next_lot(before.items, item.seller.callsign),
            ) {
            let item = choose|item: ItemView|
                before.pushes_to(after, item) && item.lot_number == lot_label(
                    item.seller.callsign,
                    next_lot(before.items, item.seller.callsign),
                );
            lemma_push_keeps_numbering(before, after, item, callsign);
        } else if exists|party: CallsignView, amount: Amount, all_funds_to_club: bool|
            before.reconciles_to(after, party, amount, all_funds_to_club) {
            let (party, amount, all_funds_to_club) = choose|
                party: CallsignView,
                amount: Amount,
                all_funds_to_club: bool,
            | before.reconciles_to(after, party, amount, all_funds_to_club);
            lemma_settling_keeps_numbering(
                before,
                after,
                party,
                amount,
                all_funds_to_club,
                callsign,
            );
        } else {
            assert(after.items == before.items);
        }
    }
}

/// The lot numbers of the books. At every point of a history in which each
/// lot was put on the books under the next lot number of its seller, the
/// lots of a seller are numbered one, two, three and so on in the order in
/// which they came; their next lot number is one more than they have lots;
/// and no two lots on the books, whoever sold them, have the same number.
pub proof fn lemma_lot_numbers_in_turn(states: Seq<DatafileView>, at: int, callsign: Seq<char>)
    requires
        numbered_history(states),
        0 <= at < states.len(),
    ensures
        next_lot(states[at].items, callsign) == lots_of(states[at].items, callsign) + 1,
        forall|i: int|
            0 <= i < states[at].items.len() && (#[trigger] states[at].items[i]).seller.callsign
                == callsign ==> states[at].items[i].lot_number == lot_label(
                callsign,
                lots_of(states[at].items.take(i), callsign) + 1,
            ),
        forall|i: int, j: int|
            0 <= i < j < states[at].items.len() ==> (#[trigger] states[at].items[i]).lot_number
                != (#[trigger] states[at].items[j]).lot_number,
{
    let items = states[at].items;
    lemma_history_numbered(states, at, callsign);
    lemma_lots_numbered(items, callsign);
    assert forall|seller: Seq<char>| numbered_in_turn(items, seller) by {
        lemma_history_numbered(states, at, seller);
    }
    lemma_lot_numbers_unique(items);
}

/// Paying for lots at prices that are not below zero, out of what is not
/// above zero, leaves what is not above zero.
pub proof fn lemma_purchases_only_take(
    items: Seq<ItemView>,
    who: Seq<char>,
    start: Amount,
    n: int,
)
    requires
        n <= items.len(),
        start.digits <= 0,
        forall|i: int|
            0 <= i < items.len() && purchase_open(#[trigger] items[i], who)
                ==> items[i].sold->0.hammer_price.non_negative(),
    ensures
        purchases_debit(items, who, start, n).digits <= 0,
    decreases n,
{
    if n > 0 {
        lemma_purchases_only_take(items, who, start, n - 1);
        if purchase_open(items[n - 1], who) {
            let before = purchases_debit(items, who, start, n - 1);
            let price = items[n - 1].sold->0.hammer_price;
            let scale = before.common_scale(price);
            lemma_lifted_sign(before, scale);
            lemma_lifted_sign(price, scale);
            lemma_of_sign(before.lifted(scale) - price.lifted(scale), scale);
        }
    }
}

/// No change while a debt remains. Where no open purchase of a party has a
/// price below zero, the party gets change only if nothing remains of what
/// they owed from earlier: after the settling, what is on record against
/// them is zero.
pub proof fn lemma_no_change_while_owing(
    before: DatafileView,
    after: DatafileView,
    party: CallsignView,
    amount: Amount,
    all_funds_to_club: bool,
)
    requires
        before.wf(),
        before.reconciles_to(after, party, amount, all_funds_to_club),
        forall|i: int|
            0 <= i < before.items.len() && purchase_open(#[trigger] before.items[i], party.callsign)
                ==> before.items[i].sold->0.hammer_price.non_negative(),
        before.owed(party.callsign) is Some,
        before.change(party.callsign, amount) != Amount::zero(),
    ensures
        after.owed(party.callsign) == Some(Amount::zero()),
{
    let who = party.callsign;
    let due = before.owed(who)->0;
    let credited = before.credited(who, amount);
    let balance = before.balance(who, amount);
    lemma_below_zero(balance);
    lemma_minus_sign(credited, credited);
    lemma_minus_sign(due, due);
    if credited.less_than(due) {
        assert(before.after_dues(who, amount) == Amount::zero());
        lemma_purchases_only_take(before.items, who, Amount::zero(), before.items.len() as int);
    }
    assert(dues_paid(due, credited) == due);
    let slot = debtor_slot(before.liabilities, who)->0;
    assert(owed_at(before.liabilities, who, slot));
    assert(owed_at(after.liabilities, who, slot));
    assert forall|i: int, j: int|
        #![trigger after.liabilities[i], after.liabilities[j]]
        0 <= i < after.liabilities.len() && 0 <= j < after.liabilities.len()
            && after.liabilities[i].callsign.callsign
            == after.liabilities[j].callsign.callsign implies i == j by {
        assert(before.liabilities[i].callsign.callsign == before.liabilities[j].callsign.callsign);
    }
    lemma_debtor_slot(after.liabilities, who, slot);
}

} // verus!
