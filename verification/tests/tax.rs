use cryptfolio::error::CryptfolioError;
use cryptfolio::recording::tax_record::{TaxObligationType, TaxRecord, LONG_TERM_DAYS};

fn record(buy: &str, sell: &str, profit: i128) -> Result<TaxRecord, CryptfolioError> {
    TaxRecord::new(buy.to_string(), sell.to_string(), 10, 30, 5, profit)
}

#[test]
fn rates_of_the_two_categories() {
    assert_eq!(TaxObligationType::ShortTermCapitalGains.to_percentage(), 22);
    assert_eq!(TaxObligationType::LongTermCapitalGains.to_percentage(), 15);
}

#[test]
fn category_by_holding_period() {
    assert_eq!(LONG_TERM_DAYS, 365);
    let short = TaxObligationType::ShortTermCapitalGains;
    let long = TaxObligationType::LongTermCapitalGains;
    assert_eq!(TaxObligationType::for_holding_period(0), short);
    assert_eq!(TaxObligationType::for_holding_period(364), short);
    assert_eq!(TaxObligationType::for_holding_period(365), long);
    assert_eq!(TaxObligationType::for_holding_period(366), long);
    assert_eq!(TaxObligationType::for_holding_period(-1), short);
    assert_eq!(TaxObligationType::for_holding_period(i64::MIN), short);
    assert_eq!(TaxObligationType::for_holding_period(i64::MAX), long);
}

#[test]
fn tax_boundary_364_days_is_short_term() {
    let r = record("2023-01-01T00:00:00Z", "2023-12-31T00:00:00Z", 100).unwrap();
    assert_eq!(r.holding_period_days, 364);
    assert_eq!(r.tax_obligation_type, TaxObligationType::ShortTermCapitalGains);
    assert_eq!(r.tax_obligation, 2200);
}

#[test]
fn tax_boundary_366_days_is_long_term() {
    let r = record("2024-01-01T00:00:00Z", "2025-01-01T00:00:00Z", 100).unwrap();
    assert_eq!(r.holding_period_days, 366);
    assert_eq!(r.tax_obligation_type, TaxObligationType::LongTermCapitalGains);
    assert_eq!(r.tax_obligation, 1500);
}

#[test]
fn tax_boundary_a_year_later_is_long_term() {
    let r = record("2023-01-01T00:00:00Z", "2024-01-01T00:00:00Z", 100).unwrap();
    assert_eq!(r.holding_period_days, 365);
    assert_eq!(r.tax_obligation_type, TaxObligationType::LongTermCapitalGains);
}

#[test]
fn tax_boundary_exactly_365_days_is_long_term() {
    let r = record("2022-03-01T08:00:00Z", "2023-03-01T08:00:00Z", 100).unwrap();
    assert_eq!(r.holding_period_days, 365);
    assert_eq!(r.tax_obligation_type, TaxObligationType::LongTermCapitalGains);
    let r = record("2022-03-01T08:00:01Z", "2023-03-01T08:00:00Z", 100).unwrap();
    assert_eq!(r.holding_period_days, 364);
    assert_eq!(r.tax_obligation_type, TaxObligationType::ShortTermCapitalGains);
}

#[test]
fn new_keeps_what_it_is_given() {
    let r = TaxRecord::new(
        "2023-01-01T00:00:00Z".to_string(),
        "2023-01-11T00:00:00Z".to_string(),
        7,
        9,
        4,
        8,
    )
    .unwrap();
    assert_eq!(r.buy_date, "2023-01-01T00:00:00Z");
    assert_eq!(r.sell_date, "2023-01-11T00:00:00Z");
    assert_eq!(r.buy_price, 7);
    assert_eq!(r.sell_price, 9);
    assert_eq!(r.unit_size, 4);
    assert_eq!(r.profit, 8);
    assert_eq!(r.holding_period_days, 10);
    assert_eq!(r.tax_obligation, 176);
}

#[test]
fn new_rejects_unreadable_dates() {
    assert!(matches!(
        record("2023-01-01", "2023-12-31T00:00:00Z", 100),
        Err(CryptfolioError::DateTimeParseError(_))
    ));
    assert!(matches!(
        record("2023-01-01T00:00:00Z", "", 100),
        Err(CryptfolioError::DateTimeParseError(_))
    ));
    // the dates are looked at before the amount
    assert!(matches!(
        record("2023-01-01", "2023-12-31T00:00:00Z", i128::MAX),
        Err(CryptfolioError::DateTimeParseError(_))
    ));
}

#[test]
fn new_rejects_an_obligation_that_does_not_fit() {
    assert!(matches!(
        record("2023-01-01T00:00:00Z", "2023-12-31T00:00:00Z", i128::MAX),
        Err(CryptfolioError::AmountOutOfRange)
    ));
    assert!(matches!(
        record("2023-01-01T00:00:00Z", "2023-12-31T00:00:00Z", i128::MIN),
        Err(CryptfolioError::AmountOutOfRange)
    ));
}

#[test]
fn classify_at_the_edge_of_the_range() {
    let most = i128::MAX / 22;
    let r = TaxRecord::classify(String::new(), String::new(), 0, 0, 0, most, 10).unwrap();
    assert_eq!(r.tax_obligation, most * 22);
    assert_eq!(r.tax_obligation_type, TaxObligationType::ShortTermCapitalGains);
    let r = TaxRecord::classify(String::new(), String::new(), 0, 0, 0, most + 1, 10);
    assert!(matches!(r, Err(CryptfolioError::AmountOutOfRange)));
    // the lower rate admits a larger gain
    let r = TaxRecord::classify(String::new(), String::new(), 0, 0, 0, most + 1, 365).unwrap();
    assert_eq!(r.tax_obligation, (most + 1) * 15);
    assert_eq!(r.tax_obligation_type, TaxObligationType::LongTermCapitalGains);
}

#[test]
fn classify_keeps_the_holding_period() {
    let r = TaxRecord::classify("a".to_string(), "b".to_string(), 1, 2, 3, -40, -7).unwrap();
    assert_eq!(r.buy_date, "a");
    assert_eq!(r.sell_date, "b");
    assert_eq!(r.holding_period_days, -7);
    assert_eq!(r.tax_obligation_type, TaxObligationType::ShortTermCapitalGains);
    assert_eq!(r.tax_obligation, -880);
}
