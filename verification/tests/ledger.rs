use cryptfolio::error::CryptfolioError;
use cryptfolio::recording::lot_ledger::LotLedger;
use cryptfolio::recording::matching::{match_sell, DisposalSlice};
use cryptfolio::recording::transaction::TransactionRecord;

fn ledger_of(lots: &[(&str, u64, u64)]) -> LotLedger {
    let mut ledger = LotLedger::new();
    for (date, price, quantity) in lots {
        ledger.push(date.to_string(), *price, *quantity);
    }
    ledger
}

fn sell(date: &str, price: u64, shares: u64) -> TransactionRecord {
    TransactionRecord::new(date.to_string(), price, shares, 0)
}

#[test]
fn a_new_ledger_is_empty() {
    let ledger = LotLedger::new();
    assert!(ledger.is_empty());
    assert_eq!(ledger.len(), 0);
    assert!(ledger.get(0).is_none());
    assert_eq!(ledger.remaining_shares(), 0);
    assert_eq!(ledger.cost_basis(), Some(0));
    assert!(matches!(ledger.peek_oldest(), Err(CryptfolioError::EmptyLedger)));
}

#[test]
fn push_appends_in_order() {
    let ledger = ledger_of(&[("a", 10, 5), ("b", 20, 7)]);
    assert_eq!(ledger.len(), 2);
    assert!(!ledger.is_empty());
    let first = ledger.get(0).unwrap();
    assert_eq!((first.date.as_str(), first.unit_price, first.remaining_quantity), ("a", 10, 5));
    let second = ledger.get(1).unwrap();
    assert_eq!((second.date.as_str(), second.unit_price, second.remaining_quantity), ("b", 20, 7));
    assert!(ledger.get(2).is_none());
    let oldest = ledger.peek_oldest().unwrap();
    assert_eq!(oldest.date, "a");
}

#[test]
fn push_of_nothing_opens_no_lot() {
    let ledger = ledger_of(&[("a", 10, 0), ("b", 20, 7), ("c", 30, 0)]);
    assert_eq!(ledger.len(), 1);
    assert_eq!(ledger.peek_oldest().unwrap().date, "b");
}

#[test]
fn sums_over_the_open_lots() {
    let ledger = ledger_of(&[("a", 10, 5), ("b", 20, 7)]);
    assert_eq!(ledger.remaining_shares(), 12);
    assert_eq!(ledger.cost_basis(), Some(190));
}

#[test]
fn sums_beyond_a_u64() {
    let ledger = ledger_of(&[("a", 1, u64::MAX), ("b", 1, u64::MAX)]);
    assert_eq!(ledger.remaining_shares(), 2 * (u64::MAX as u128));
    assert_eq!(ledger.cost_basis(), Some(2 * (u64::MAX as u128)));
}

#[test]
fn cost_beyond_a_u128() {
    let ledger = ledger_of(&[("a", u64::MAX, u64::MAX), ("b", u64::MAX, u64::MAX)]);
    assert_eq!(ledger.cost_basis(), None);
    let ledger = ledger_of(&[("a", u64::MAX, u64::MAX)]);
    assert_eq!(ledger.cost_basis(), Some((u64::MAX as u128) * (u64::MAX as u128)));
}

#[test]
fn consume_reduces_the_oldest_lot() {
    let mut ledger = ledger_of(&[("a", 10, 5), ("b", 20, 7)]);
    ledger.consume(2).unwrap();
    assert_eq!(ledger.len(), 2);
    let oldest = ledger.peek_oldest().unwrap();
    assert_eq!((oldest.date.as_str(), oldest.unit_price, oldest.remaining_quantity), ("a", 10, 3));
    assert_eq!(ledger.get(1).unwrap().remaining_quantity, 7);
}

#[test]
fn consume_removes_a_lot_that_is_used_up() {
    let mut ledger = ledger_of(&[("a", 10, 5), ("b", 20, 7)]);
    ledger.consume(5).unwrap();
    assert_eq!(ledger.len(), 1);
    assert_eq!(ledger.peek_oldest().unwrap().date, "b");
    ledger.consume(7).unwrap();
    assert!(ledger.is_empty());
}

#[test]
fn consume_of_nothing_changes_nothing() {
    let mut ledger = ledger_of(&[("a", 10, 5)]);
    ledger.consume(0).unwrap();
    assert_eq!(ledger.len(), 1);
    assert_eq!(ledger.peek_oldest().unwrap().remaining_quantity, 5);
}

#[test]
fn consume_of_too_much_is_refused() {
    let mut ledger = ledger_of(&[("a", 10, 5), ("b", 20, 7)]);
    let r = ledger.consume(6);
    assert!(matches!(r, Err(CryptfolioError::InsufficientLotQuantity)));
    assert_eq!(ledger.len(), 2);
    assert_eq!(ledger.peek_oldest().unwrap().remaining_quantity, 5);
}

#[test]
fn consume_on_an_empty_ledger_is_refused() {
    let mut ledger = LotLedger::new();
    assert!(matches!(ledger.consume(1), Err(CryptfolioError::EmptyLedger)));
    assert!(matches!(ledger.consume(0), Err(CryptfolioError::EmptyLedger)));
}

fn fields(slice: &DisposalSlice) -> (&str, &str, u64, u64, u64) {
    (
        slice.buy_date.as_str(),
        slice.sell_date.as_str(),
        slice.buy_price,
        slice.sell_price,
        slice.quantity,
    )
}

#[test]
fn match_sell_takes_the_oldest_first() {
    let mut ledger = ledger_of(&[("a", 10, 5), ("b", 20, 5)]);
    let found = match_sell(&mut ledger, &sell("s", 30, 7));
    assert_eq!(found.unmatched, 0);
    assert_eq!(found.slices.len(), 2);
    assert_eq!(fields(&found.slices[0]), ("a", "s", 10, 30, 5));
    assert_eq!(fields(&found.slices[1]), ("b", "s", 20, 30, 2));
    assert_eq!(ledger.len(), 1);
    let left = ledger.peek_oldest().unwrap();
    assert_eq!((left.date.as_str(), left.unit_price, left.remaining_quantity), ("b", 20, 3));
}

#[test]
fn match_sell_within_one_lot() {
    let mut ledger = ledger_of(&[("a", 10, 5), ("b", 20, 5)]);
    let found = match_sell(&mut ledger, &sell("s", 30, 4));
    assert_eq!(found.unmatched, 0);
    assert_eq!(found.slices.len(), 1);
    assert_eq!(fields(&found.slices[0]), ("a", "s", 10, 30, 4));
    assert_eq!(ledger.len(), 2);
    assert_eq!(ledger.peek_oldest().unwrap().remaining_quantity, 1);
}

#[test]
fn match_sell_of_exactly_one_lot() {
    let mut ledger = ledger_of(&[("a", 10, 5), ("b", 20, 5)]);
    let found = match_sell(&mut ledger, &sell("s", 30, 5));
    assert_eq!(found.unmatched, 0);
    assert_eq!(found.slices.len(), 1);
    assert_eq!(fields(&found.slices[0]), ("a", "s", 10, 30, 5));
    assert_eq!(ledger.len(), 1);
    assert_eq!(ledger.peek_oldest().unwrap().date, "b");
    assert_eq!(ledger.peek_oldest().unwrap().remaining_quantity, 5);
}

#[test]
fn match_sell_of_more_than_there_is() {
    let mut ledger = ledger_of(&[("a", 10, 5)]);
    let found = match_sell(&mut ledger, &sell("s", 30, 8));
    assert_eq!(found.unmatched, 3);
    assert_eq!(found.slices.len(), 1);
    assert_eq!(fields(&found.slices[0]), ("a", "s", 10, 30, 5));
    assert!(ledger.is_empty());
}

#[test]
fn match_sell_against_an_empty_ledger() {
    let mut ledger = LotLedger::new();
    let found = match_sell(&mut ledger, &sell("s", 30, 8));
    assert_eq!(found.unmatched, 8);
    assert!(found.slices.is_empty());
    assert!(ledger.is_empty());
}

#[test]
fn match_sell_of_nothing() {
    let mut ledger = ledger_of(&[("a", 10, 5)]);
    let found = match_sell(&mut ledger, &sell("s", 30, 0));
    assert_eq!(found.unmatched, 0);
    assert!(found.slices.is_empty());
    assert_eq!(ledger.len(), 1);
    assert_eq!(ledger.peek_oldest().unwrap().remaining_quantity, 5);
}

#[test]
fn match_sell_across_many_lots() {
    let mut ledger = ledger_of(&[("a", 1, 1), ("b", 2, 2), ("c", 3, 3), ("d", 4, 4)]);
    let found = match_sell(&mut ledger, &sell("s", 9, 6));
    assert_eq!(found.unmatched, 0);
    assert_eq!(found.slices.len(), 3);
    let taken: u64 = found.slices.iter().map(|s| s.quantity).sum();
    assert_eq!(taken, 6);
    assert_eq!(ledger.len(), 1);
    assert_eq!(ledger.remaining_shares(), 4);
}

#[test]
fn slice_amounts() {
    let slice = DisposalSlice {
        buy_date: String::new(),
        sell_date: String::new(),
        buy_price: 20,
        sell_price: 30,
        quantity: 2,
    };
    assert_eq!(slice.proceeds(), 60);
    assert_eq!(slice.cost_basis(), 40);
    assert_eq!(slice.realized_profit(), Some(20));
    let loss = DisposalSlice { buy_price: 30, sell_price: 20, ..slice };
    assert_eq!(loss.realized_profit(), Some(-20));
}

#[test]
fn slice_profit_beyond_an_i128() {
    let slice = DisposalSlice {
        buy_date: String::new(),
        sell_date: String::new(),
        buy_price: 0,
        sell_price: u64::MAX,
        quantity: u64::MAX,
    };
    assert_eq!(slice.proceeds(), (u64::MAX as u128) * (u64::MAX as u128));
    assert_eq!(slice.realized_profit(), None);
    let loss = DisposalSlice { buy_price: u64::MAX, sell_price: 0, ..slice };
    assert_eq!(loss.realized_profit(), None);
    // 2^63 * 2^64 = 2^127: as a gain it does not fit, as a loss it does
    let edge = DisposalSlice {
        buy_date: String::new(),
        sell_date: String::new(),
        buy_price: 1 << 63,
        sell_price: 0,
        quantity: u64::MAX,
    };
    assert_eq!(edge.realized_profit(), Some(-((1i128 << 63) * (u64::MAX as i128))));
}

#[test]
fn event_amount() {
    let event = TransactionRecord::new("d".to_string(), 7, 6, 5);
    assert_eq!(event.amount(), 42);
    assert_eq!(event.date, "d");
    assert_eq!((event.price, event.shares, event.fee), (7, 6, 5));
    let big = TransactionRecord::new(String::new(), u64::MAX, u64::MAX, 0);
    assert_eq!(big.amount(), (u64::MAX as u128) * (u64::MAX as u128));
}
