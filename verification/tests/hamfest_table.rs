use club_ledger::clock::Timestamp;
use club_ledger::decimal::Decimal;
use club_ledger::hamfest_table::export::transactions as takings;
use club_ledger::hamfest_table::types::{
    Datafile as Till, Item as StockItem, Receipt, ReceiptLine, TransactionMethod,
};

fn stocked(barcode: &str, name: &str, pence: i64) -> StockItem {
    let mut item = StockItem::new(barcode.to_string());
    item.set_name(name.to_string())
        .set_description(format!("{name}, as new"))
        .set_price(Decimal::new(pence, 2));
    item
}

fn pence(amount: &Decimal, pence: i64) -> bool {
    amount.equals(&Decimal::new(pence, 2))
}

fn receipt_with(items: &[StockItem]) -> Receipt {
    let mut receipt = Receipt::at(Timestamp { seconds: 1_700_000_000, nanos: 0, offset: 0 }, 7);
    for item in items {
        assert!(receipt.add_item(item.clone()));
    }
    receipt
}

#[test]
fn transaction_methods_have_their_words() {
    assert_eq!(TransactionMethod::Cash.label(), "Cash");
    assert_eq!(TransactionMethod::Card.label(), "Card");
    assert_eq!(TransactionMethod::BankTransfer.label(), "Bank Transfer");
    assert_eq!(TransactionMethod::Cheque.label(), "Cheque");
    assert_ne!(TransactionMethod::Cash, TransactionMethod::Cheque);
}

#[test]
fn a_new_stock_item_has_only_its_barcode() {
    let item = StockItem::new("5012345678900".to_string());
    assert_eq!(item.barcode(), "5012345678900");
    assert_eq!(item.name(), "");
    assert_eq!(item.description(), "");
    assert!(item.price().is_zero());
    let blank = StockItem::default();
    assert_eq!(blank.barcode(), "");
    assert!(blank.price().is_zero());
}

#[test]
fn stock_item_setters_chain() {
    let item = stocked("1", "Patch lead", 350);
    assert_eq!(item.barcode(), "1");
    assert_eq!(item.name(), "Patch lead");
    assert_eq!(item.description(), "Patch lead, as new");
    assert!(pence(item.price(), 350));
}

#[test]
fn a_new_receipt_is_empty_and_numbered_at_random() {
    let first = Receipt::new();
    let second = Receipt::new();
    assert!(first.lines().is_empty());
    assert!(first.total().is_zero());
    assert_ne!(first.receipt_number(), second.receipt_number());
    assert_eq!(first.receipt_number() >> 76 & 0xf, 4);
    assert!(first.timestamp().seconds > 1_600_000_000);
}

#[test]
fn total_adds_items_takes_payments_and_adds_change() {
    let mut receipt = receipt_with(&[stocked("1", "Patch lead", 350), stocked("2", "Log book", 1299)]);
    assert!(pence(&receipt.total(), 1649));
    receipt.lines_mut().push(ReceiptLine::Payment {
        method: TransactionMethod::Cash,
        amount: Decimal::new(20, 0),
    });
    assert!(pence(&receipt.total(), -351));
    receipt.lines_mut().push(ReceiptLine::Change {
        method: TransactionMethod::Cash,
        amount: Decimal::new(351, 2),
    });
    assert!(receipt.total().is_zero());
    assert!(receipt.is_settled());
}

#[test]
fn total_before_is_the_running_total() {
    let mut receipt = receipt_with(&[stocked("1", "Patch lead", 350), stocked("2", "Log book", 1299)]);
    receipt.pay(TransactionMethod::Card);
    assert!(receipt.total_before(0).is_zero());
    assert!(pence(&receipt.total_before(1), 350));
    assert!(pence(&receipt.total_before(2), 1649));
    assert!(receipt.total_before(3).is_zero());
}

#[test]
fn an_item_is_rung_up_once() {
    let mut receipt = receipt_with(&[stocked("1", "Patch lead", 350)]);
    assert!(receipt.has_item(&"1".to_string()));
    assert!(!receipt.has_item(&"2".to_string()));
    assert!(!receipt.add_item(stocked("1", "Patch lead again", 999)));
    assert_eq!(receipt.lines().len(), 1);
    assert!(pence(&receipt.total(), 350));
    assert!(receipt.add_item(stocked("2", "Log book", 1299)));
    assert_eq!(receipt.lines().len(), 2);
}

#[test]
fn pay_settles_what_is_left() {
    let mut receipt = receipt_with(&[stocked("1", "Patch lead", 350)]);
    assert!(!receipt.is_settled());
    receipt.pay(TransactionMethod::Cheque);
    assert!(receipt.is_settled());
    match &receipt.lines()[1] {
        ReceiptLine::Payment { method, amount } => {
            assert_eq!(*method, TransactionMethod::Cheque);
            assert!(pence(amount, 350));
        }
        _ => panic!("the second line should be the payment"),
    }
}

#[test]
fn cash_over_the_total_gives_change() {
    let mut receipt = receipt_with(&[stocked("1", "Patch lead", 350)]);
    assert!(pence(&receipt.change_for(&Decimal::new(5, 0)), 150));
    receipt.pay_cash(Decimal::new(5, 0));
    assert_eq!(receipt.lines().len(), 3);
    match &receipt.lines()[1] {
        ReceiptLine::Payment { method, amount } => {
            assert_eq!(*method, TransactionMethod::Cash);
            assert!(pence(amount, 500));
        }
        _ => panic!("the second line should be the payment"),
    }
    match &receipt.lines()[2] {
        ReceiptLine::Change { method, amount } => {
            assert_eq!(*method, TransactionMethod::Cash);
            assert!(pence(amount, 150));
        }
        _ => panic!("the third line should be the change"),
    }
    assert!(receipt.is_settled());
}

#[test]
fn cash_short_of_the_total_gives_no_change() {
    let mut receipt = receipt_with(&[stocked("1", "Patch lead", 350)]);
    assert!(receipt.change_for(&Decimal::new(3, 0)).is_zero());
    assert!(receipt.change_for(&Decimal::new(350, 2)).is_zero());
    receipt.pay_cash(Decimal::new(3, 0));
    assert_eq!(receipt.lines().len(), 3);
    assert!(pence(&receipt.total(), 50));
    assert!(!receipt.is_settled());
}

#[test]
fn remove_line_takes_that_line_off() {
    let mut receipt = receipt_with(&[
        stocked("1", "Patch lead", 350),
        stocked("2", "Log book", 1299),
        stocked("3", "Mug", 600),
    ]);
    match receipt.remove_line(1) {
        ReceiptLine::Item { item } => assert_eq!(item.barcode(), "2"),
        _ => panic!("the line taken off should be the log book"),
    }
    assert_eq!(receipt.lines().len(), 2);
    assert!(pence(&receipt.total(), 950));
    assert!(!receipt.has_item(&"2".to_string()));
}

#[test]
fn a_receipt_clone_holds_the_same_lines() {
    let mut receipt = receipt_with(&[stocked("1", "Patch lead", 350)]);
    receipt.pay(TransactionMethod::BankTransfer);
    let copy = receipt.clone();
    assert_eq!(copy.receipt_number(), receipt.receipt_number());
    assert_eq!(copy.timestamp(), receipt.timestamp());
    assert_eq!(copy.lines().len(), 2);
    assert!(copy.is_settled());
}

#[test]
fn record_item_adds_and_then_updates() {
    let mut till = Till::new();
    assert!(till.record_item(&stocked("1", "Patch lead", 350)));
    assert!(till.record_item(&stocked("2", "Log book", 1299)));
    assert_eq!(till.items().len(), 2);
    assert!(till.record_item(&stocked("1", "Patch lead, 1m", 400)));
    assert_eq!(till.items().len(), 2);
    assert_eq!(till.items()[0].name(), "Patch lead, 1m");
    assert_eq!(till.items()[0].description(), "Patch lead, 1m, as new");
    assert!(pence(till.items()[0].price(), 400));
    assert_eq!(till.items()[1].name(), "Log book");
}

#[test]
fn record_item_ignores_unfinished_details() {
    let mut till = Till::new();
    assert!(!till.record_item(&stocked("", "Patch lead", 350)));
    assert!(!till.record_item(&stocked("1", "", 350)));
    assert!(!till.record_item(&stocked("1", "Patch lead", 0)));
    assert!(till.items().is_empty());
    assert!(till.record_item(&stocked("1", "Refund", -350)));
    assert_eq!(till.items().len(), 1);
}

#[test]
fn find_item_is_the_first_with_that_barcode() {
    let mut till = Till::new();
    till.items_mut().push(stocked("1", "Patch lead", 350));
    till.items_mut().push(stocked("2", "Log book", 1299));
    till.items_mut().push(stocked("1", "Shadowed", 1));
    assert_eq!(till.find_item(&"1".to_string()).unwrap().name(), "Patch lead");
    assert_eq!(till.position_of(&"2".to_string()), Some(1));
    assert!(till.find_item(&"3".to_string()).is_none());
    assert_eq!(till.position_of(&"3".to_string()), None);
    assert!(till.record_item(&stocked("1", "Renamed", 2)));
    assert_eq!(till.items()[0].name(), "Renamed");
    assert_eq!(till.items()[2].name(), "Shadowed");
}

#[test]
fn ensure_receipt_keeps_an_open_receipt() {
    let mut till = Till::new();
    let open = receipt_with(&[stocked("1", "Patch lead", 350)]);
    let kept = till.ensure_receipt(Some(open));
    assert_eq!(*kept.receipt_number(), 7);
    assert_eq!(kept.lines().len(), 1);
    assert!(till.receipts().is_empty());
}

#[test]
fn ensure_receipt_files_a_settled_receipt() {
    let mut till = Till::new();
    let mut paid = receipt_with(&[stocked("1", "Patch lead", 350)]);
    paid.pay(TransactionMethod::Card);
    let fresh = till.ensure_receipt(Some(paid));
    assert!(fresh.lines().is_empty());
    assert_eq!(till.receipts().len(), 1);
    assert_eq!(*till.receipts()[0].receipt_number(), 7);
    assert_eq!(till.receipts()[0].lines().len(), 2);
}

#[test]
fn ensure_receipt_starts_one_where_there_is_none() {
    let mut till = Till::new();
    let fresh = till.ensure_receipt(None);
    assert!(fresh.lines().is_empty());
    assert!(till.receipts().is_empty());
    let next = till.ensure_receipt(Some(fresh));
    assert!(next.lines().is_empty());
    assert_eq!(till.receipts().len(), 1);
}

#[test]
fn a_till_from_parts_holds_them() {
    let mut paid = receipt_with(&[stocked("1", "Patch lead", 350)]);
    paid.pay(TransactionMethod::Card);
    let lines = vec![ReceiptLine::Item { item: stocked("2", "Log book", 1299) }];
    let other = Receipt::from_parts(Timestamp { seconds: 5, nanos: 6, offset: 7 }, 9, lines);
    let mut till = Till::from_parts(vec![stocked("1", "Patch lead", 350)], vec![paid, other]);
    assert_eq!(till.items().len(), 1);
    assert_eq!(till.receipts().len(), 2);
    assert_eq!(*till.receipts()[1].timestamp(), Timestamp { seconds: 5, nanos: 6, offset: 7 });
    assert_eq!(*till.receipts()[1].receipt_number(), 9);
    till.receipts_mut().pop();
    till.file_receipt(Receipt::at(Timestamp { seconds: 1, nanos: 2, offset: 3 }, 11));
    assert_eq!(*till.receipts()[1].receipt_number(), 11);
}

#[test]
fn the_takings_have_a_row_for_each_payment_and_change() {
    let mut till = Till::new();
    let mut first = receipt_with(&[stocked("1", "Patch lead", 350), stocked("2", "Mug", 600)]);
    first.pay_cash(Decimal::new(10, 0));
    till.file_receipt(first);
    let mut second =
        Receipt::at(Timestamp { seconds: 1_700_000_100, nanos: 0, offset: 3600 }, 8);
    second.add_item(stocked("3", "Log book", 1299));
    second.pay(TransactionMethod::Card);
    till.file_receipt(second);
    till.file_receipt(Receipt::at(Timestamp { seconds: 0, nanos: 0, offset: 0 }, 9));

    let rows = takings(&till);
    assert_eq!(rows.len(), 3);
    assert_eq!(rows[0].receipt_number, 7);
    assert_eq!(rows[0].method, TransactionMethod::Cash);
    assert!(!rows[0].change);
    assert!(rows[1].change);
    assert!(!rows[2].change);
    assert!(rows[0].debit.is_zero());
    assert!(pence(&rows[0].credit, 1000));
    assert!(pence(&rows[0].balance, 1000));
    assert_eq!(rows[1].receipt_number, 7);
    assert!(pence(&rows[1].debit, 50));
    assert!(rows[1].credit.is_zero());
    assert!(pence(&rows[1].balance, 950));
    assert_eq!(rows[2].receipt_number, 8);
    assert_eq!(rows[2].timestamp.seconds, 1_700_000_100);
    assert_eq!(rows[2].method, TransactionMethod::Card);
    assert!(pence(&rows[2].credit, 1299));
    assert!(pence(&rows[2].balance, 2249));
}

#[test]
fn details_are_worth_recording_once_they_are_complete() {
    assert!(stocked("1", "Patch lead", 350).worth_recording());
    assert!(!stocked("", "Patch lead", 350).worth_recording());
    assert!(!stocked("1", "", 350).worth_recording());
    assert!(!stocked("1", "Patch lead", 0).worth_recording());
    assert!(!StockItem::default().worth_recording());
}
