//! Dates as the exchanges write them, and the time between two of them.

use crate::error::CryptfolioError;
use vstd::prelude::*;
use vstd::string::StringExecFns;
use vstd::utf8::{encode_utf8, encode_utf8_decode_utf8};

verus! {

/// The error with which chrono rejects a text. Nothing is known of its contents.
#[verifier::external_type_specification]
#[verifier::external_body]
pub struct ExParseError(chrono::format::ParseError);

/// A date and time of day without a time zone: whole seconds since
/// 1970-01-01T00:00:00, leap seconds not counted, and the nanoseconds since the
/// last whole second. During a leap second `nanos` runs on past 999,999,999.
#[derive(Clone, Copy, Debug, PartialEq, Eq, Structural)]
pub struct Timestamp {
    pub seconds: i64,
    pub nanos: u32,
}

/// The format of a date with whole seconds, as in `2023-01-01T00:00:00Z`.
pub const FORMAT_SECONDS: &'static str = "%Y-%m-%dT%H:%M:%SZ";

/// The format of a date with a fraction of a second, as in `2023-01-01T00:00:00.000000Z`.
pub const FORMAT_FRACTION: &'static str = "%Y-%m-%dT%H:%M:%S%.6fZ";

/// The format of a date with a space and an offset, as in `2023-01-01 00:00:00.000000+00`.
pub const FORMAT_OFFSET: &'static str = "%Y-%m-%d %H:%M:%S%.6f+00";

/// What chrono reads out of `text` under the strftime pattern `format`, if it
/// accepts the text.
pub uninterp spec fn parsed_timestamp(text: Seq<char>, format: Seq<char>) -> Option<Timestamp>;

/// The whole days that chrono counts from `earlier` to `later`, negative where
/// `later` comes first; `None` where chrono cannot represent one of the two.
pub uninterp spec fn elapsed_days(later: Timestamp, earlier: Timestamp) -> Option<i64>;

/// What a date means: the first of the three accepted formats that fits decides.
pub open spec fn parsed_date(text: Seq<char>) -> Option<Timestamp> {
    if parsed_timestamp(text, FORMAT_SECONDS@) is Some {
        parsed_timestamp(text, FORMAT_SECONDS@)
    } else if parsed_timestamp(text, FORMAT_FRACTION@) is Some {
        parsed_timestamp(text, FORMAT_FRACTION@)
    } else {
        parsed_timestamp(text, FORMAT_OFFSET@)
    }
}

/// The whole days between a purchase and a sale, where both dates can be read
/// and chrono can tell the time between them.
pub open spec fn holding_period(buy_date: Seq<char>, sell_date: Seq<char>) -> Option<i64> {
    match (parsed_date(sell_date), parsed_date(buy_date)) {
        (Some(sold), Some(bought)) => elapsed_days(sold, bought),
        _ => None,
    }
}

/// The view of a text that may be missing.
pub open spec fn text_view(text: Option<&str>) -> Option<Seq<char>> {
    match text {
        Some(text) => Some(text@),
        None => None,
    }
}

/// Calls `chrono::NaiveDateTime::parse_from_str` and hands back the seconds and
/// nanoseconds of what it read (`and_utc().timestamp()` and
/// `and_utc().timestamp_subsec_nanos()`). Trusted: the call succeeds exactly on
/// the texts for which `parsed_timestamp` holds a value, and that value is the
/// one returned.
#[verifier::external_body]
fn parse_with_format(date: &str, format: &str) -> (r: Result<Timestamp, chrono::format::ParseError>)
    ensures
        r is Ok <==> parsed_timestamp(date@, format@) is Some,
        r matches Ok(t) ==> parsed_timestamp(date@, format@) == Some(t),
{
    match chrono::NaiveDateTime::parse_from_str(date, format) {
        Ok(dt) => Ok(
            Timestamp {
                seconds: dt.and_utc().timestamp(),
                nanos: dt.and_utc().timestamp_subsec_nanos(),
            },
        ),
        Err(e) => Err(e),
    }
}

/// Rebuilds both instants with `chrono::DateTime::from_timestamp`, subtracts
/// them with `NaiveDateTime::signed_duration_since` and counts the whole days
/// with `TimeDelta::num_days`. Trusted: the result is `elapsed_days` of the two
/// arguments, `None` where chrono refuses one of them.
#[verifier::external_body]
fn days_between(later: Timestamp, earlier: Timestamp) -> (r: Option<i64>)
    ensures
        r == elapsed_days(later, earlier),
{
    let a = chrono::DateTime::from_timestamp(later.seconds, later.nanos)?;
    let b = chrono::DateTime::from_timestamp(earlier.seconds, earlier.nanos)?;
    Some(a.naive_utc().signed_duration_since(b.naive_utc()).num_days())
}

/// Helpers that belong to no type.
pub struct Util {}

impl Util {
    /// Whether two texts are the same.
    pub fn same_text(text: &str, word: &str) -> (same: bool)
        ensures
            same == (text@ == word@),
    {
        let left = text.as_bytes();
        let right = word.as_bytes();
        proof {
            encode_utf8_decode_utf8(text@);
            encode_utf8_decode_utf8(word@);
        }
        if left.len() != right.len() {
            return false;
        }
        let mut i: usize = 0;
        while i < left.len()
            invariant
                i <= left@.len(),
                left@.len() == right@.len(),
                forall|j: int| 0 <= j < i ==> left@[j] == right@[j],
                left@ == encode_utf8(text@),
                right@ == encode_utf8(word@),
            decreases left@.len() - i,
        {
            if left[i] != right[i] {
                return false;
            }
            i = i + 1;
        }
        assert(left@ =~= right@);
        true
    }

    /// The name of the market in which a coin is traded against the dollar.
    pub fn usd_pair(coin: &str) -> (pair: String)
        ensures
            pair@ == coin@ + "-USD"@,
    {
        coin.to_owned().concat("-USD")
    }

    /// Reads a date in one of the three accepted formats, trying them in order.
    pub fn parse_date(date: &str) -> (r: Result<Timestamp, CryptfolioError>)
        ensures
            match r {
                Ok(t) => parsed_date(date@) == Some(t),
                Err(e) => parsed_date(date@) is None && e is DateTimeParseError,
            },
    {
        match parse_with_format(date, FORMAT_SECONDS) {
            Ok(t) => Ok(t),
            Err(_) => match parse_with_format(date, FORMAT_FRACTION) {
                Ok(t) => Ok(t),
                Err(_) => match parse_with_format(date, FORMAT_OFFSET) {
                    Ok(t) => Ok(t),
                    Err(e) => Err(CryptfolioError::DateTimeParseError(e.to_string())),
                },
            },
        }
    }

    /// The whole days from `buy_date` to `sell_date`.
    pub fn holding_days(buy_date: &str, sell_date: &str) -> (r: Result<i64, CryptfolioError>)
        ensures
            match r {
                Ok(days) => holding_period(buy_date@, sell_date@) == Some(days),
                Err(e) => holding_period(buy_date@, sell_date@) is None && e is DateTimeParseError,
            },
    {
        let sold = Util::parse_date(sell_date)?;
        let bought = Util::parse_date(buy_date)?;
        match days_between(sold, bought) {
            Some(days) => Ok(days),
            None => Err(CryptfolioError::DateTimeParseError("date out of range".to_owned())),
        }
    }
}

} // verus!
