use cryptfolio::error::CryptfolioError;
use cryptfolio::recording::coin_record::{CoinRecord, MAX_TOTAL};
use cryptfolio::recording::tax_record::TaxObligationType;

const JAN_1: &str = "2023-01-01T00:00:00Z";
const FEB_1: &str = "2023-02-01T00:00:00Z";
const MAR_1: &str = "2023-03-01T00:00:00Z";
const APR_1: &str = "2023-04-01T00:00:00Z";

fn day(text: &str) -> String {
    text.to_string()
}

#[test]
fn new_record_has_no_figures() {
    let record = CoinRecord::new();
    assert!(!record.is_finalized());
    assert!(!record.is_fully_divested());
    assert_eq!(record.get_shares(), 0);
    assert_eq!(record.get_average_cost(), 0);
    assert_eq!(record.get_gross_profit(), 0);
    assert_eq!(record.get_net_profit(), 0);
    assert_eq!(record.get_total_invested(), 0);
    assert_eq!(record.get_current_invested(), 0);
    assert_eq!(record.get_total_fees(), 0);
    assert!(record.get_tax_records().is_empty());
    assert!(record.get_warnings().is_empty());
    assert!(record.get_open_lots().is_empty());
}

#[test]
fn figures_stay_unset_until_update() {
    let mut record = CoinRecord::new();
    record.add_buy(day(JAN_1), 10, 5, 3).unwrap();
    record.add_sell(day(FEB_1), 30, 2, 4).unwrap();
    assert!(!record.is_finalized());
    assert_eq!(record.get_shares(), 0);
    assert_eq!(record.get_total_fees(), 0);
    assert_eq!(record.get_gross_profit(), 0);
    assert!(record.get_tax_records().is_empty());
}

#[test]
fn fifo_order_splits_the_second_lot() {
    let mut record = CoinRecord::new();
    record.add_buy(day(JAN_1), 10, 5, 0).unwrap();
    record.add_buy(day(FEB_1), 20, 5, 0).unwrap();
    record.add_sell(day(MAR_1), 30, 7, 0).unwrap();
    record.update().unwrap();

    let records = record.get_tax_records();
    assert_eq!(records.len(), 2);
    assert_eq!(records[0].buy_price, 10);
    assert_eq!(records[0].sell_price, 30);
    assert_eq!(records[0].unit_size, 5);
    assert_eq!(records[0].buy_date, JAN_1);
    assert_eq!(records[0].sell_date, MAR_1);
    assert_eq!(records[0].profit, 100);
    assert_eq!(records[1].buy_price, 20);
    assert_eq!(records[1].sell_price, 30);
    assert_eq!(records[1].unit_size, 2);
    assert_eq!(records[1].buy_date, FEB_1);
    assert_eq!(records[1].sell_date, MAR_1);
    assert_eq!(records[1].profit, 20);

    let open = record.get_open_lots();
    assert_eq!(open.len(), 1);
    let lot = open.get(0).unwrap();
    assert_eq!(lot.unit_price, 20);
    assert_eq!(lot.remaining_quantity, 3);
    assert_eq!(lot.date, FEB_1);
    assert!(open.get(1).is_none());
    assert!(record.get_warnings().is_empty());
}

#[test]
fn figures_of_a_split_sale() {
    let mut record = CoinRecord::new();
    record.add_buy(day(JAN_1), 10, 5, 1).unwrap();
    record.add_buy(day(FEB_1), 20, 5, 2).unwrap();
    record.add_sell(day(MAR_1), 30, 7, 4).unwrap();
    record.update().unwrap();

    assert!(record.is_finalized());
    assert!(!record.is_fully_divested());
    assert_eq!(record.get_shares(), 3);
    assert_eq!(record.get_current_invested(), 60);
    assert_eq!(record.get_average_cost(), 20);
    assert_eq!(record.get_total_invested(), 150);
    assert_eq!(record.get_gross_profit(), 120);
    assert_eq!(record.get_total_fees(), 7);
    assert_eq!(record.get_net_profit(), 113);
}

#[test]
fn average_cost_is_weighted_and_rounded_down() {
    let mut record = CoinRecord::new();
    record.add_buy(day(JAN_1), 10, 1, 0).unwrap();
    record.add_buy(day(FEB_1), 15, 2, 0).unwrap();
    record.update().unwrap();
    // (10 * 1 + 15 * 2) / 3 = 13.33..
    assert_eq!(record.get_shares(), 3);
    assert_eq!(record.get_current_invested(), 40);
    assert_eq!(record.get_average_cost(), 13);
    assert_eq!(record.get_total_invested(), 40);
    assert_eq!(record.get_gross_profit(), 0);
}

#[test]
fn a_loss_is_a_negative_profit() {
    let mut record = CoinRecord::new();
    record.add_buy(day(JAN_1), 50, 4, 1).unwrap();
    record.add_sell(day(FEB_1), 20, 3, 2).unwrap();
    record.update().unwrap();
    assert_eq!(record.get_gross_profit(), -90);
    assert_eq!(record.get_net_profit(), -93);
    let records = record.get_tax_records();
    assert_eq!(records.len(), 1);
    assert_eq!(records[0].profit, -90);
    assert_eq!(records[0].tax_obligation, -90 * 22);
    assert_eq!(record.get_shares(), 1);
    assert_eq!(record.get_current_invested(), 50);
    assert_eq!(record.get_total_invested(), 200);
}

#[test]
fn conservation_of_units() {
    let mut record = CoinRecord::new();
    record.add_buy(day(JAN_1), 10, 5, 0).unwrap();
    record.add_buy(day(FEB_1), 20, 7, 0).unwrap();
    record.add_buy(day(MAR_1), 30, 11, 0).unwrap();
    record.add_sell(day(MAR_1), 40, 6, 0).unwrap();
    record.add_sell(day(APR_1), 50, 9, 0).unwrap();
    record.update().unwrap();
    assert!(record.get_warnings().is_empty());
    let sold: u128 = record.get_tax_records().iter().map(|r| r.unit_size as u128).sum();
    let ledger = record.get_open_lots();
    let mut open: u128 = 0;
    for i in 0..ledger.len() {
        open += ledger.get(i).unwrap().remaining_quantity as u128;
    }
    assert_eq!(sold, 15);
    assert_eq!(open, 8);
    assert_eq!(sold + open, 5 + 7 + 11);
    assert_eq!(record.get_shares(), open);
    assert_eq!(ledger.remaining_shares(), open);
}

#[test]
fn zero_share_average_cost() {
    let mut record = CoinRecord::new();
    record.add_buy(day(JAN_1), 10, 5, 0).unwrap();
    record.add_buy(day(FEB_1), 20, 5, 0).unwrap();
    record.add_sell(day(MAR_1), 30, 10, 0).unwrap();
    record.update().unwrap();
    assert_eq!(record.get_shares(), 0);
    assert_eq!(record.get_average_cost(), 0);
    assert!(record.is_fully_divested());
    assert_eq!(record.get_current_invested(), 0);
    assert_eq!(record.get_total_invested(), 150);
    assert_eq!(record.get_gross_profit(), 150);
    assert!(record.get_open_lots().is_empty());
    assert!(record.get_warnings().is_empty());
}

#[test]
fn a_record_without_events_is_fully_divested() {
    let mut record = CoinRecord::new();
    record.update().unwrap();
    assert!(record.is_finalized());
    assert!(record.is_fully_divested());
    assert_eq!(record.get_shares(), 0);
    assert_eq!(record.get_average_cost(), 0);
}

#[test]
fn fees_count_once_however_the_sale_is_split() {
    let mut split = CoinRecord::new();
    split.add_buy(day(JAN_1), 10, 1, 3).unwrap();
    split.add_buy(day(JAN_1), 10, 1, 5).unwrap();
    split.add_buy(day(JAN_1), 10, 1, 7).unwrap();
    split.add_sell(day(FEB_1), 20, 3, 11).unwrap();
    split.update().unwrap();
    assert_eq!(split.get_tax_records().len(), 3);
    assert_eq!(split.get_total_fees(), 3 + 5 + 7 + 11);

    let mut whole = CoinRecord::new();
    whole.add_buy(day(JAN_1), 10, 3, 15).unwrap();
    whole.add_sell(day(FEB_1), 20, 3, 11).unwrap();
    whole.update().unwrap();
    assert_eq!(whole.get_tax_records().len(), 1);
    assert_eq!(whole.get_total_fees(), 15 + 11);
    assert_eq!(whole.get_net_profit(), 30 - 26);
}

#[test]
fn fees_of_unmatched_events_count_too() {
    let mut record = CoinRecord::new();
    record.add_buy(day(JAN_1), 10, 5, 2).unwrap();
    record.add_sell(day(FEB_1), 20, 0, 9).unwrap();
    record.add_sell(day(MAR_1), 20, 50, 4).unwrap();
    record.update().unwrap();
    assert_eq!(record.get_total_fees(), 15);
}

#[test]
fn oversold_drains_the_ledger_and_warns() {
    let mut record = CoinRecord::new();
    record.add_buy(day(JAN_1), 10, 5, 0).unwrap();
    record.add_sell(day(FEB_1), 30, 8, 0).unwrap();
    record.update().unwrap();

    let records = record.get_tax_records();
    assert_eq!(records.len(), 1);
    assert_eq!(records[0].unit_size, 5);
    assert_eq!(records[0].buy_price, 10);
    assert_eq!(records[0].sell_price, 30);
    assert!(record.get_open_lots().is_empty());
    assert_eq!(record.get_shares(), 0);
    let warnings = record.get_warnings();
    assert_eq!(warnings.len(), 1);
    assert!(matches!(warnings[0], CryptfolioError::OversoldQuantity(3)));
    assert_eq!(record.get_gross_profit(), 100);
}

#[test]
fn sales_after_an_oversold_one_are_still_processed() {
    let mut record = CoinRecord::new();
    record.add_buy(day(JAN_1), 10, 5, 0).unwrap();
    record.add_sell(day(FEB_1), 30, 8, 1).unwrap();
    record.add_sell(day(MAR_1), 30, 0, 1).unwrap();
    record.add_sell(day(APR_1), 30, 2, 1).unwrap();
    record.update().unwrap();
    assert_eq!(record.get_tax_records().len(), 1);
    let warnings = record.get_warnings();
    assert_eq!(warnings.len(), 2);
    assert!(matches!(warnings[0], CryptfolioError::OversoldQuantity(3)));
    assert!(matches!(warnings[1], CryptfolioError::OversoldQuantity(2)));
    assert_eq!(record.get_total_fees(), 3);
}

#[test]
fn a_sale_of_nothing_makes_no_slice() {
    let mut record = CoinRecord::new();
    record.add_buy(day(JAN_1), 10, 5, 1).unwrap();
    record.add_sell(day(FEB_1), 30, 0, 2).unwrap();
    record.update().unwrap();
    assert!(record.get_tax_records().is_empty());
    assert!(record.get_warnings().is_empty());
    assert_eq!(record.get_shares(), 5);
    assert_eq!(record.get_total_fees(), 3);
    assert_eq!(record.get_gross_profit(), 0);
}

#[test]
fn a_sale_that_drains_a_lot_exactly_makes_no_empty_slice() {
    let mut record = CoinRecord::new();
    record.add_buy(day(JAN_1), 10, 5, 0).unwrap();
    record.add_buy(day(FEB_1), 20, 5, 0).unwrap();
    record.add_sell(day(MAR_1), 30, 5, 0).unwrap();
    record.update().unwrap();
    assert_eq!(record.get_tax_records().len(), 1);
    assert_eq!(record.get_tax_records()[0].unit_size, 5);
    let open = record.get_open_lots();
    assert_eq!(open.len(), 1);
    assert_eq!(open.get(0).unwrap().unit_price, 20);
    assert_eq!(open.get(0).unwrap().remaining_quantity, 5);
}

#[test]
fn a_purchase_of_nothing_opens_no_lot() {
    let mut record = CoinRecord::new();
    record.add_buy(day(JAN_1), 10, 0, 4).unwrap();
    record.add_buy(day(FEB_1), 20, 5, 0).unwrap();
    record.add_sell(day(MAR_1), 30, 1, 0).unwrap();
    record.update().unwrap();
    let records = record.get_tax_records();
    assert_eq!(records.len(), 1);
    assert_eq!(records[0].buy_price, 20);
    assert_eq!(records[0].unit_size, 1);
    assert_eq!(record.get_open_lots().len(), 1);
    assert_eq!(record.get_total_fees(), 4);
}

#[test]
fn rewards_at_price_zero_are_lots_like_any_other() {
    let mut record = CoinRecord::new();
    record.add_buy(day(JAN_1), 0, 4, 0).unwrap();
    record.add_sell(day(FEB_1), 25, 4, 0).unwrap();
    record.update().unwrap();
    assert_eq!(record.get_gross_profit(), 100);
    assert_eq!(record.get_total_invested(), 0);
    assert!(record.is_fully_divested());
}

#[test]
fn update_twice_is_refused() {
    let mut record = CoinRecord::new();
    record.add_buy(day(JAN_1), 10, 5, 1).unwrap();
    record.add_sell(day(FEB_1), 30, 2, 1).unwrap();
    record.update().unwrap();
    let again = record.update();
    assert!(matches!(again, Err(CryptfolioError::PreconditionViolated)));
    assert_eq!(record.get_shares(), 3);
    assert_eq!(record.get_total_fees(), 2);
    assert_eq!(record.get_gross_profit(), 40);
    assert_eq!(record.get_tax_records().len(), 1);
}

#[test]
fn events_after_update_are_refused() {
    let mut record = CoinRecord::new();
    record.add_buy(day(JAN_1), 10, 5, 1).unwrap();
    record.update().unwrap();
    assert!(matches!(
        record.add_buy(day(FEB_1), 10, 5, 1),
        Err(CryptfolioError::PreconditionViolated)
    ));
    assert!(matches!(
        record.add_sell(day(FEB_1), 10, 5, 1),
        Err(CryptfolioError::PreconditionViolated)
    ));
    assert_eq!(record.get_shares(), 5);
    assert_eq!(record.get_total_fees(), 1);
}

#[test]
fn an_unreadable_date_aborts_the_update() {
    let mut record = CoinRecord::new();
    record.add_buy(day("yesterday"), 10, 5, 1).unwrap();
    record.add_sell(day(FEB_1), 30, 2, 1).unwrap();
    let r = record.update();
    assert!(matches!(r, Err(CryptfolioError::DateTimeParseError(_))));
    assert!(!record.is_finalized());
    assert_eq!(record.get_shares(), 0);
    assert_eq!(record.get_total_fees(), 0);
    assert!(record.get_tax_records().is_empty());
    assert!(record.get_open_lots().is_empty());
}

#[test]
fn an_unreadable_sell_date_aborts_the_update() {
    let mut record = CoinRecord::new();
    record.add_buy(day(JAN_1), 10, 5, 1).unwrap();
    record.add_sell(day("2023-02-01"), 30, 2, 1).unwrap();
    assert!(matches!(record.update(), Err(CryptfolioError::DateTimeParseError(_))));
    assert!(!record.is_finalized());
}

#[test]
fn dates_that_no_slice_uses_are_never_read() {
    let mut record = CoinRecord::new();
    record.add_buy(day(JAN_1), 10, 5, 0).unwrap();
    record.add_buy(day("not a date"), 20, 5, 0).unwrap();
    record.add_sell(day(FEB_1), 30, 5, 0).unwrap();
    record.add_sell(day("neither"), 30, 0, 0).unwrap();
    record.update().unwrap();
    assert_eq!(record.get_tax_records().len(), 1);
    assert_eq!(record.get_shares(), 5);
}

#[test]
fn amounts_beyond_the_limit_are_rejected_one_by_one() {
    let mut record = CoinRecord::new();
    // u64::MAX * u64::MAX is more than MAX_TOTAL
    let r = record.add_buy(day(JAN_1), u64::MAX, u64::MAX, 0);
    assert!(matches!(r, Err(CryptfolioError::AmountOutOfRange)));
    let r = record.add_sell(day(JAN_1), u64::MAX, u64::MAX, 0);
    assert!(matches!(r, Err(CryptfolioError::AmountOutOfRange)));
    // the record is as it was and takes other events
    record.add_buy(day(JAN_1), 10, 5, 0).unwrap();
    record.add_sell(day(FEB_1), 30, 5, 0).unwrap();
    record.update().unwrap();
    assert_eq!(record.get_gross_profit(), 100);
    assert_eq!(record.get_total_invested(), 50);
}

#[test]
fn the_limit_itself_is_accepted() {
    // MAX_TOTAL = 10^36 = (10^18) * (10^18)
    assert_eq!(MAX_TOTAL, 1_000_000_000_000_000_000u128 * 1_000_000_000_000_000_000u128);
    let mut record = CoinRecord::new();
    record
        .add_buy(day(JAN_1), 1_000_000_000_000_000_000, 1_000_000_000_000_000_000, 0)
        .unwrap();
    let r = record.add_buy(day(FEB_1), 1, 1, 0);
    assert!(matches!(r, Err(CryptfolioError::AmountOutOfRange)));
    record
        .add_sell(day(MAR_1), 0, 1_000_000_000_000_000_000, 0)
        .unwrap();
    record.update().unwrap();
    assert_eq!(record.get_total_invested(), MAX_TOTAL);
    assert_eq!(record.get_gross_profit(), -(MAX_TOTAL as i128));
    assert_eq!(record.get_tax_records()[0].tax_obligation, -(MAX_TOTAL as i128) * 22);
}

#[test]
fn large_fees_add_up() {
    let mut record = CoinRecord::new();
    let big = u64::MAX;
    let mut accepted: u128 = 0;
    record.add_buy(day(JAN_1), 0, 0, big).unwrap();
    accepted += big as u128;
    record.add_sell(day(JAN_1), 0, 0, big).unwrap();
    accepted += big as u128;
    record.update().unwrap();
    assert_eq!(record.get_total_fees(), accepted);
    assert_eq!(record.get_net_profit(), -(accepted as i128));
}

#[test]
fn tax_records_carry_category_and_obligation() {
    let mut record = CoinRecord::new();
    record.add_buy(day("2021-01-01T00:00:00Z"), 10, 5, 0).unwrap();
    record.add_buy(day("2023-01-01T00:00:00Z"), 20, 5, 0).unwrap();
    record.add_sell(day("2023-06-01T00:00:00Z"), 30, 7, 0).unwrap();
    record.update().unwrap();
    let records = record.get_tax_records();
    assert_eq!(records[0].tax_obligation_type, TaxObligationType::LongTermCapitalGains);
    assert_eq!(records[0].holding_period_days, 881);
    assert_eq!(records[0].profit, 100);
    assert_eq!(records[0].tax_obligation, 1500);
    assert_eq!(records[1].tax_obligation_type, TaxObligationType::ShortTermCapitalGains);
    assert_eq!(records[1].holding_period_days, 151);
    assert_eq!(records[1].profit, 20);
    assert_eq!(records[1].tax_obligation, 440);
}
