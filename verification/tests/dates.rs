use cryptfolio::error::CryptfolioError;
use cryptfolio::util::{Timestamp, Util};

#[test]
fn parses_whole_seconds() {
    let t = Util::parse_date("2023-01-01T00:00:00Z").unwrap();
    assert_eq!(t, Timestamp { seconds: 1_672_531_200, nanos: 0 });
}

#[test]
fn parses_the_epoch() {
    let t = Util::parse_date("1970-01-01T00:00:00Z").unwrap();
    assert_eq!(t, Timestamp { seconds: 0, nanos: 0 });
}

#[test]
fn parses_fractions_of_a_second() {
    let t = Util::parse_date("2023-01-01T00:00:01.250000Z").unwrap();
    assert_eq!(t, Timestamp { seconds: 1_672_531_201, nanos: 250_000_000 });
}

#[test]
fn parses_the_form_with_space_and_offset() {
    let t = Util::parse_date("2023-01-01 12:30:00.000001+00").unwrap();
    assert_eq!(t, Timestamp { seconds: 1_672_531_200 + 12 * 3600 + 30 * 60, nanos: 1_000 });
}

#[test]
fn parses_dates_before_the_epoch() {
    let t = Util::parse_date("1969-12-31T23:59:59Z").unwrap();
    assert_eq!(t, Timestamp { seconds: -1, nanos: 0 });
}

#[test]
fn a_leap_second_runs_past_a_full_second() {
    let t = Util::parse_date("2016-12-31T23:59:60Z").unwrap();
    assert_eq!(t.nanos, 1_000_000_000);
    assert_eq!(t.seconds % 60, 59);
}

#[test]
fn rejects_what_fits_no_format() {
    for text in [
        "",
        "2023-01-01",
        "2023-01-01T00:00:00",
        "2023-01-01 00:00:00Z",
        "2023-01-01T00:00:00+00",
        "2023-13-01T00:00:00Z",
        "2023-02-30T00:00:00Z",
        "2023-01-01T24:00:00Z",
        "01/01/2023",
        "yesterday",
    ] {
        let r = Util::parse_date(text);
        assert!(matches!(r, Err(CryptfolioError::DateTimeParseError(_))), "{}", text);
    }
}

#[test]
fn the_error_carries_a_message() {
    match Util::parse_date("yesterday") {
        Err(CryptfolioError::DateTimeParseError(message)) => assert!(!message.is_empty()),
        _ => panic!("a date was read out of a word"),
    }
}

#[test]
fn holding_days_counts_whole_days() {
    assert_eq!(Util::holding_days("2023-01-01T00:00:00Z", "2023-01-02T00:00:00Z").unwrap(), 1);
    assert_eq!(Util::holding_days("2023-01-01T00:00:00Z", "2023-01-01T23:59:59Z").unwrap(), 0);
    assert_eq!(Util::holding_days("2023-01-01T00:00:01Z", "2023-01-02T00:00:00Z").unwrap(), 0);
    assert_eq!(Util::holding_days("2023-01-01T00:00:00Z", "2023-01-01T00:00:00Z").unwrap(), 0);
}

#[test]
fn holding_days_is_negative_when_the_sale_comes_first() {
    assert_eq!(Util::holding_days("2023-01-03T00:00:00Z", "2023-01-01T00:00:00Z").unwrap(), -2);
    assert_eq!(Util::holding_days("2023-01-02T00:00:00Z", "2023-01-01T12:00:00Z").unwrap(), 0);
}

#[test]
fn holding_days_mixes_formats() {
    let days = Util::holding_days("2022-01-01 00:00:00.000000+00", "2023-01-01T00:00:00.500000Z");
    assert_eq!(days.unwrap(), 365);
}

#[test]
fn holding_days_across_the_tax_boundary() {
    assert_eq!(Util::holding_days("2023-01-01T00:00:00Z", "2023-12-31T00:00:00Z").unwrap(), 364);
    assert_eq!(Util::holding_days("2023-01-01T00:00:00Z", "2024-01-01T00:00:00Z").unwrap(), 365);
    assert_eq!(Util::holding_days("2024-01-01T00:00:00Z", "2025-01-01T00:00:00Z").unwrap(), 366);
}

#[test]
fn holding_days_of_a_fraction_short_of_a_day() {
    let days = Util::holding_days("2023-01-01T00:00:00.000001Z", "2023-01-02T00:00:00.000000Z");
    assert_eq!(days.unwrap(), 0);
}

#[test]
fn holding_days_rejects_an_unreadable_date() {
    assert!(matches!(
        Util::holding_days("soon", "2023-01-01T00:00:00Z"),
        Err(CryptfolioError::DateTimeParseError(_))
    ));
    assert!(matches!(
        Util::holding_days("2023-01-01T00:00:00Z", "later"),
        Err(CryptfolioError::DateTimeParseError(_))
    ));
}
