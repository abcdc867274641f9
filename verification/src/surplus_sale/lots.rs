//! Lot numbers.
//!
//! A lot is numbered by its seller's callsign, a hyphen, and a count that
//! starts at one for each seller: `M0ABC-1`, `M0ABC-2`, and so on.

use crate::surplus_sale::model::ItemView;
use crate::text::{
    decimal_digits, decimal_text, digit, lemma_decimal_digits_injective, lemma_decimal_digits_len,
};
use vstd::prelude::*;
use vstd::set_lib::{lemma_int_range, lemma_len_subset, lemma_map_size, set_int_range};
use vstd::string::StringExecFns;

verus! {

/// The number of lot `n` of the seller `callsign`.
pub open spec fn lot_label(callsign: Seq<char>, n: nat) -> Seq<char> {
    callsign + seq!['-'] + decimal_digits(n)
}

/// Whether some lot of the seller `callsign` among `items` has the number
/// that lot `n` of that seller would get.
pub open spec fn lot_taken(items: Seq<ItemView>, callsign: Seq<char>, n: nat) -> bool {
    exists|i: int| #[trigger] holds_lot(items, callsign, n, i)
}

/// Whether `items[i]` is a lot of the seller `callsign` and has the number of
/// their lot `n`.
pub open spec fn holds_lot(items: Seq<ItemView>, callsign: Seq<char>, n: nat, i: int) -> bool {
    &&& 0 <= i < items.len()
    &&& items[i].seller.callsign == callsign
    &&& items[i].lot_number == lot_label(callsign, n)
}

/// `n` is the next lot number of the seller `callsign`: the smallest count,
/// from one, that none of their lots among `items` is numbered with.
pub open spec fn is_next_lot(items: Seq<ItemView>, callsign: Seq<char>, n: nat) -> bool {
    &&& n >= 1
    &&& !lot_taken(items, callsign, n)
    &&& forall|m: nat| 1 <= m < n ==> lot_taken(items, callsign, m)
}

/// The next lot number of the seller `callsign`.
pub open spec fn next_lot(items: Seq<ItemView>, callsign: Seq<char>) -> nat {
    choose|n: nat| is_next_lot(items, callsign, n)
}

/// Different lots of one seller get different numbers.
pub proof fn lemma_lot_label_injective(callsign: Seq<char>, a: nat, b: nat)
    requires
        lot_label(callsign, a) == lot_label(callsign, b),
    ensures
        a == b,
{
    let prefix = callsign + seq!['-'];
    let label_a = lot_label(callsign, a);
    let label_b = lot_label(callsign, b);
    assert(label_a.subrange(prefix.len() as int, label_a.len() as int) =~= decimal_digits(a));
    assert(label_b.subrange(prefix.len() as int, label_b.len() as int) =~= decimal_digits(b));
    lemma_decimal_digits_injective(a, b);
}

/// If each of the lot numbers one to `k` of a seller is taken, there are at
/// least `k` items: no item has two numbers.
pub proof fn lemma_taken_lots_bounded(items: Seq<ItemView>, callsign: Seq<char>, k: nat)
    requires
        forall|n: nat| 1 <= n <= k ==> lot_taken(items, callsign, n),
    ensures
        k <= items.len(),
{
    let numbers = set_int_range(1, k as int + 1);
    let places = set_int_range(0, items.len() as int);
    let holder = |n: int| choose|i: int| #[trigger] holds_lot(items, callsign, n as nat, i);
    lemma_int_range(1, k as int + 1);
    lemma_int_range(0, items.len() as int);
    assert forall|n: int| numbers.contains(n) implies holds_lot(
        items,
        callsign,
        n as nat,
        #[trigger] holder(n),
    ) by {
        assert(lot_taken(items, callsign, n as nat));
    }
    assert forall|a: int, b: int|
        numbers.contains(a) && numbers.contains(b) && #[trigger] holder(a) == #[trigger] holder(
            b,
        ) implies a == b by {
        lemma_lot_label_injective(callsign, a as nat, b as nat);
    }
    let held = numbers.map(holder);
    lemma_map_size(numbers, held, holder);
    assert forall|i: int| held.contains(i) implies places.contains(i) by {
        let n = choose|n: int| numbers.contains(n) && holder(n) == i;
        assert(holds_lot(items, callsign, n as nat, holder(n)));
    }
    lemma_len_subset(held, places);
}

/// Every seller has a next lot number, whatever is on the books.
pub proof fn lemma_next_lot_exists(items: Seq<ItemView>, callsign: Seq<char>)
    ensures
        is_next_lot(items, callsign, next_lot(items, callsign)),
{
    lemma_free_lot_from(items, callsign, 1);
}

/// If every lot number below `from` is taken, there is a next lot number.
proof fn lemma_free_lot_from(items: Seq<ItemView>, callsign: Seq<char>, from: nat)
    requires
        1 <= from,
        forall|m: nat| 1 <= m < from ==> lot_taken(items, callsign, m),
    ensures
        exists|n: nat| is_next_lot(items, callsign, n),
    decreases items.len() + 1 - from,
{
    if lot_taken(items, callsign, from) {
        lemma_taken_lots_bounded(items, callsign, from);
        lemma_free_lot_from(items, callsign, from + 1);
    } else {
        assert(is_next_lot(items, callsign, from));
    }
}

/// There is one next lot number, and it is at most one more than there are
/// items.
pub proof fn lemma_next_lot(items: Seq<ItemView>, callsign: Seq<char>, n: nat)
    requires
        is_next_lot(items, callsign, n),
    ensures
        next_lot(items, callsign) == n,
        n <= items.len() + 1,
{
    let chosen = next_lot(items, callsign);
    assert(is_next_lot(items, callsign, chosen));
    if chosen < n {
        assert(lot_taken(items, callsign, chosen));
    } else if n < chosen {
        assert(lot_taken(items, callsign, n));
    }
    lemma_taken_lots_bounded(items, callsign, (n - 1) as nat);
}

/// The number of lot `n` of the seller `callsign`.
pub fn lot_number_text(callsign: &str, n: u128) -> (r: String)
    ensures
        r@ == lot_label(callsign@, n as nat),
{
    proof {
        reveal_strlit("-");
    }
    let count = decimal_text(n);
    let r = String::from_str(callsign).concat("-").concat(count.as_str());
    assert("-"@ =~= seq!['-']);
    r
}

/// How many of `items` are lots of the seller `callsign`.
pub open spec fn lots_of(items: Seq<ItemView>, callsign: Seq<char>) -> nat
    decreases items.len(),
{
    if items.len() == 0 {
        0
    } else if items.last().seller.callsign == callsign {
        lots_of(items.drop_last(), callsign) + 1
    } else {
        lots_of(items.drop_last(), callsign)
    }
}

/// Every lot of the seller `callsign` was numbered, when it was put on the
/// books, with the next lot number of that seller at the time.
pub open spec fn numbered_in_turn(items: Seq<ItemView>, callsign: Seq<char>) -> bool {
    forall|i: int|
        0 <= i < items.len() && (#[trigger] items[i]).seller.callsign == callsign
            ==> items[i].lot_number == lot_label(callsign, next_lot(items.take(i), callsign))
}

/// Empty books are numbered in turn.
pub proof fn lemma_numbering_starts(callsign: Seq<char>)
    ensures
        numbered_in_turn(Seq::<ItemView>::empty(), callsign),
        lots_of(Seq::<ItemView>::empty(), callsign) == 0,
{
}

/// Books that are numbered in turn stay so when a lot of the seller is added
/// under their next lot number, and when a lot of anybody else is added
/// under whatever number.
pub proof fn lemma_numbering_goes_on(items: Seq<ItemView>, item: ItemView, callsign: Seq<char>)
    requires
        numbered_in_turn(items, callsign),
        item.seller.callsign == callsign ==> item.lot_number == lot_label(
            callsign,
            next_lot(items, callsign),
        ),
    ensures
        numbered_in_turn(items.push(item), callsign),
{
    let longer = items.push(item);
    assert forall|i: int|
        0 <= i < longer.len() && (#[trigger] longer[i]).seller.callsign == callsign implies longer[i].lot_number
        == lot_label(callsign, next_lot(longer.take(i), callsign)) by {
        if i < items.len() {
            assert(longer[i] == items[i]);
            assert(longer.take(i) =~= items.take(i));
        } else {
            assert(longer.take(i) =~= items);
        }
    }
}

/// The front of books that are numbered in turn is numbered in turn.
pub proof fn lemma_numbering_of_front(items: Seq<ItemView>, callsign: Seq<char>, n: int)
    requires
        numbered_in_turn(items, callsign),
        0 <= n <= items.len(),
    ensures
        numbered_in_turn(items.take(n), callsign),
{
    let front = items.take(n);
    assert forall|i: int|
        0 <= i < front.len() && (#[trigger] front[i]).seller.callsign == callsign implies front[i].lot_number
        == lot_label(callsign, next_lot(front.take(i), callsign)) by {
        assert(front[i] == items[i]);
        assert(front.take(i) =~= items.take(i));
    }
}

/// A longer front holds at least as many lots of a seller, and one more if
/// the lot it goes up to is theirs.
pub proof fn lemma_lots_of_grows(items: Seq<ItemView>, callsign: Seq<char>, a: int, b: int)
    requires
        0 <= a <= b <= items.len(),
    ensures
        lots_of(items.take(a), callsign) <= lots_of(items.take(b), callsign),
        a < b && items[a].seller.callsign == callsign ==> lots_of(items.take(a), callsign)
            < lots_of(items.take(b), callsign),
    decreases b - a,
{
    if a < b {
        lemma_lots_of_grows(items, callsign, a, b - 1);
        assert(items.take(b).drop_last() =~= items.take(b - 1));
        assert(items.take(b).last() == items[b - 1]);
    }
}

/// In books that are numbered in turn, the lots of a seller are numbered one,
/// two, three and so on, in the order in which they were put on the books.
/// So the numbers taken are those from one up to the number of the seller's
/// lots, the next lot number is one more, and no two lots of the seller have
/// the same number.
pub proof fn lemma_lots_numbered(items: Seq<ItemView>, callsign: Seq<char>)
    requires
        numbered_in_turn(items, callsign),
    ensures
        forall|n: nat|
            #[trigger] lot_taken(items, callsign, n) <==> 1 <= n <= lots_of(items, callsign),
        next_lot(items, callsign) == lots_of(items, callsign) + 1,
        forall|i: int|
            0 <= i < items.len() && (#[trigger] items[i]).seller.callsign == callsign
                ==> items[i].lot_number == lot_label(
                callsign,
                lots_of(items.take(i), callsign) + 1,
            ),
        forall|i: int, j: int|
            0 <= i < j < items.len() && (#[trigger] items[i]).seller.callsign == callsign && (
            #[trigger] items[j]).seller.callsign == callsign ==> items[i].lot_number
                != items[j].lot_number,
    decreases items.len(),
{
    let count = lots_of(items, callsign);
    if items.len() > 0 {
        let front = items.drop_last();
        let last = items.last();
        let before = lots_of(front, callsign);
        assert(front =~= items.take(items.len() - 1));
        lemma_numbering_of_front(items, callsign, items.len() - 1);
        lemma_lots_numbered(front, callsign);
        assert forall|n: nat| #[trigger]
            lot_taken(items, callsign, n) <==> 1 <= n <= count by {
            if lot_taken(front, callsign, n) {
                let i = choose|i: int| #[trigger] holds_lot(front, callsign, n, i);
                assert(holds_lot(items, callsign, n, i));
            }
            if lot_taken(items, callsign, n) {
                let i = choose|i: int| #[trigger] holds_lot(items, callsign, n, i);
                if i < front.len() {
                    assert(holds_lot(front, callsign, n, i));
                } else {
                    lemma_lot_label_injective(callsign, n, before + 1);
                }
            }
            if last.seller.callsign == callsign && n == before + 1 {
                assert(holds_lot(items, callsign, n, items.len() - 1));
            }
        }
    } else {
        assert forall|n: nat| !#[trigger] lot_taken(items, callsign, n) by {
            if lot_taken(items, callsign, n) {
                let i = choose|i: int| #[trigger] holds_lot(items, callsign, n, i);
            }
        }
    }
    assert(is_next_lot(items, callsign, count + 1));
    lemma_next_lot(items, callsign, count + 1);
    assert forall|i: int|
        0 <= i < items.len() && (#[trigger] items[i]).seller.callsign == callsign implies items[i].lot_number
        == lot_label(callsign, lots_of(items.take(i), callsign) + 1) by {
        lemma_numbering_of_front(items, callsign, i);
        lemma_lots_numbered(items.take(i), callsign);
    }
    assert forall|i: int, j: int|
        0 <= i < j < items.len() && (#[trigger] items[i]).seller.callsign == callsign && (
        #[trigger] items[j]).seller.callsign == callsign implies items[i].lot_number
        != items[j].lot_number by {
        lemma_lots_of_grows(items, callsign, i, j);
        if items[i].lot_number == items[j].lot_number {
            lemma_lot_label_injective(
                callsign,
                lots_of(items.take(i), callsign) + 1,
                lots_of(items.take(j), callsign) + 1,
            );
        }
    }
}

/// Numbers that are all taken by lots of a seller are at most as many as
/// the seller has lots, whatever else is on the books.
pub proof fn lemma_taken_numbers_bounded(
    items: Seq<ItemView>,
    callsign: Seq<char>,
    numbers: Set<int>,
)
    requires
        numbers.finite(),
        forall|n: int| numbers.contains(n) ==> n >= 0 && lot_taken(items, callsign, n as nat),
    ensures
        numbers.len() <= lots_of(items, callsign),
    decreases items.len(),
{
    if items.len() == 0 {
        if !numbers.is_empty() {
            let n = numbers.choose();
            let i = choose|i: int| #[trigger] holds_lot(items, callsign, n as nat, i);
        }
        assert(numbers.len() == 0);
    } else {
        let front = items.drop_last();
        let last = items.last();
        let place = items.len() - 1;
        if exists|n: int| numbers.contains(n) && holds_lot(items, callsign, n as nat, place) {
            let held = choose|n: int| numbers.contains(n) && holds_lot(
                items,
                callsign,
                n as nat,
                place,
            );
            let rest = numbers.remove(held);
            assert forall|n: int| rest.contains(n) implies n >= 0 && lot_taken(
                front,
                callsign,
                n as nat,
            ) by {
                let i = choose|i: int| #[trigger] holds_lot(items, callsign, n as nat, i);
                if i == place {
                    lemma_lot_label_injective(callsign, n as nat, held as nat);
                }
                assert(holds_lot(front, callsign, n as nat, i));
            }
            lemma_taken_numbers_bounded(front, callsign, rest);
        } else {
            assert forall|n: int| numbers.contains(n) implies n >= 0 && lot_taken(
                front,
                callsign,
                n as nat,
            ) by {
                let i = choose|i: int| #[trigger] holds_lot(items, callsign, n as nat, i);
                assert(holds_lot(front, callsign, n as nat, i));
            }
            lemma_taken_numbers_bounded(front, callsign, numbers);
        }
    }
}

/// The next lot number of a seller is at most one more than the seller has
/// lots on the books.
pub proof fn lemma_next_lot_within_own_lots(items: Seq<ItemView>, callsign: Seq<char>)
    ensures
        1 <= next_lot(items, callsign) <= lots_of(items, callsign) + 1,
{
    lemma_next_lot_exists(items, callsign);
    let next = next_lot(items, callsign);
    let below = set_int_range(1, next as int);
    lemma_int_range(1, next as int);
    assert forall|n: int| below.contains(n) implies n >= 0 && lot_taken(
        items,
        callsign,
        n as nat,
    ) by {}
    lemma_taken_numbers_bounded(items, callsign, below);
}

/// The next lot number of a seller depends only on who sold each lot and
/// how it is numbered.
pub proof fn lemma_next_lot_of_same_lots(
    items: Seq<ItemView>,
    others: Seq<ItemView>,
    callsign: Seq<char>,
)
    requires
        others.len() == items.len(),
        forall|i: int|
            0 <= i < items.len() ==> (#[trigger] others[i]).seller == items[i].seller
                && others[i].lot_number == items[i].lot_number,
    ensures
        next_lot(others, callsign) == next_lot(items, callsign),
{
    lemma_next_lot_exists(items, callsign);
    let n = next_lot(items, callsign);
    assert forall|m: nat| lot_taken(others, callsign, m) <==> lot_taken(items, callsign, m) by {
        if lot_taken(items, callsign, m) {
            let i = choose|i: int| #[trigger] holds_lot(items, callsign, m, i);
            assert(holds_lot(others, callsign, m, i));
        }
        if lot_taken(others, callsign, m) {
            let i = choose|i: int| #[trigger] holds_lot(others, callsign, m, i);
            assert(holds_lot(items, callsign, m, i));
        }
    }
    assert(is_next_lot(others, callsign, n));
    lemma_next_lot(others, callsign, n);
}

/// No digit is a hyphen.
pub proof fn lemma_digits_have_no_hyphen(n: nat)
    ensures
        forall|i: int| 0 <= i < decimal_digits(n).len() ==> decimal_digits(n)[i] != '-',
    decreases n,
{
    let digits = decimal_digits(n);
    if n >= 10 {
        lemma_digits_have_no_hyphen(n / 10);
        let front = decimal_digits(n / 10);
        assert forall|i: int| 0 <= i < digits.len() implies digits[i] != '-' by {
            if i < front.len() {
                assert(digits[i] == front[i]);
            } else {
                assert(digits[i] == digit((n % 10) as int));
            }
        }
    } else {
        assert forall|i: int| 0 <= i < digits.len() implies digits[i] != '-' by {
            assert(digits[i] == digit(n as int));
        }
    }
}

/// A lot number says whose lot it is and which: different sellers never get
/// the same number, nor do different lots of one seller.
pub proof fn lemma_lot_label_decides(first: Seq<char>, a: nat, second: Seq<char>, b: nat)
    requires
        lot_label(first, a) == lot_label(second, b),
    ensures
        first == second,
        a == b,
{
    let label = lot_label(first, a);
    let same = lot_label(second, b);
    lemma_digits_have_no_hyphen(a);
    lemma_digits_have_no_hyphen(b);
    lemma_decimal_digits_len(a);
    lemma_decimal_digits_len(b);
    assert(label.len() == first.len() + 1 + decimal_digits(a).len());
    assert(same.len() == second.len() + 1 + decimal_digits(b).len());
    assert(label[first.len() as int] == '-');
    assert(same[second.len() as int] == '-');
    if first.len() < second.len() {
        let place = second.len() - first.len() - 1;
        assert(0 <= place < decimal_digits(a).len());
        assert(label[second.len() as int] == decimal_digits(a)[place]);
    } else if second.len() < first.len() {
        let place = first.len() - second.len() - 1;
        assert(0 <= place < decimal_digits(b).len());
        assert(same[first.len() as int] == decimal_digits(b)[place]);
    }
    assert(first =~= label.subrange(0, first.len() as int));
    assert(second =~= same.subrange(0, second.len() as int));
    lemma_lot_label_injective(first, a, b);
}

/// In books in which every seller's lots are numbered in turn, no two lots
/// have the same number.
pub proof fn lemma_lot_numbers_unique(items: Seq<ItemView>)
    requires
        forall|callsign: Seq<char>| numbered_in_turn(items, callsign),
    ensures
        forall|i: int, j: int|
            0 <= i < j < items.len() ==> (#[trigger] items[i]).lot_number != (
            #[trigger] items[j]).lot_number,
{
    assert forall|i: int, j: int| 0 <= i < j < items.len() implies (
    #[trigger] items[i]).lot_number != (#[trigger] items[j]).lot_number by {
        let first = items[i].seller.callsign;
        let second = items[j].seller.callsign;
        assert(numbered_in_turn(items, first));
        assert(numbered_in_turn(items, second));
        lemma_lots_numbered(items, first);
        lemma_lots_numbered(items, second);
        if items[i].lot_number == items[j].lot_number {
            lemma_lot_label_decides(
                first,
                lots_of(items.take(i), first) + 1,
                second,
                lots_of(items.take(j), second) + 1,
            );
        }
    }
}

} // verus!
