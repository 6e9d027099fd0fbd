//! The tax record of one disposal.

use crate::error::CryptfolioError;
use crate::util::{holding_period, Util};
use vstd::prelude::*;

verus! {

/// The holding period in days from which a gain counts as long-term.
pub const LONG_TERM_DAYS: i64 = 365;

/// How a realized gain is taxed.
#[derive(Debug, Clone, Copy, PartialEq, Eq, Structural)]
pub enum TaxObligationType {
    /// Held for less than 365 days.
    ShortTermCapitalGains,
    /// Held for 365 days or more.
    LongTermCapitalGains,
}

impl TaxObligationType {
    /// The category of a gain on something held for `days` whole days.
    pub open spec fn of_holding_period(days: int) -> TaxObligationType {
        if days < 365 {
            TaxObligationType::ShortTermCapitalGains
        } else {
            TaxObligationType::LongTermCapitalGains
        }
    }

    /// The tax rate of the category, in hundredths.
    pub open spec fn percent(self) -> int {
        match self {
            TaxObligationType::ShortTermCapitalGains => 22,
            TaxObligationType::LongTermCapitalGains => 15,
        }
    }

    /// The category of a gain on something held for `days` whole days: short
    /// term below 365 days, long term from 365 days on.
    pub fn for_holding_period(days: i64) -> (category: TaxObligationType)
        ensures
            category == TaxObligationType::of_holding_period(days as int),
    {
        if days < LONG_TERM_DAYS {
            TaxObligationType::ShortTermCapitalGains
        } else {
            TaxObligationType::LongTermCapitalGains
        }
    }

    /// The tax rate of the category, in hundredths: 22 for short-term gains,
    /// 15 for long-term gains.
    pub fn to_percentage(&self) -> (percent: u8)
        ensures
            percent == self.percent(),
    {
        match self {
            TaxObligationType::ShortTermCapitalGains => 22,
            TaxObligationType::LongTermCapitalGains => 15,
        }
    }
}

/// A tax record as a mathematical value.
pub struct TaxRecordView {
    pub buy_date: Seq<char>,
    pub sell_date: Seq<char>,
    pub buy_price: nat,
    pub sell_price: nat,
    pub unit_size: nat,
    pub holding_period_days: int,
    pub tax_obligation_type: TaxObligationType,
    pub profit: int,
    pub tax_obligation: int,
}

/// The record of a disposal with the given gain after the given holding
/// period: the period decides the category, and the obligation is the gain
/// times the category's rate.
pub open spec fn classified(
    buy_date: Seq<char>,
    sell_date: Seq<char>,
    buy_price: nat,
    sell_price: nat,
    unit_size: nat,
    profit: int,
    days: int,
) -> TaxRecordView {
    TaxRecordView {
        buy_date,
        sell_date,
        buy_price,
        sell_price,
        unit_size,
        holding_period_days: days,
        tax_obligation_type: TaxObligationType::of_holding_period(days),
        profit,
        tax_obligation: profit * TaxObligationType::of_holding_period(days).percent(),
    }
}

/// Whether the obligation on a gain after a holding period fits an `i128`.
pub open spec fn obligation_fits(profit: int, days: int) -> bool {
    i128::MIN <= profit * TaxObligationType::of_holding_period(days).percent() <= i128::MAX
}

/// The views of a sequence of tax records.
pub open spec fn record_views(records: Seq<TaxRecord>) -> Seq<TaxRecordView> {
    records.map_values(|record: TaxRecord| record@)
}

/// One taxable event: a quantity bought at one date and sold at another.
#[derive(Debug)]
pub struct TaxRecord {
    /// When the units were bought.
    pub buy_date: String,
    /// When they were sold.
    pub sell_date: String,
    /// What one unit had cost.
    pub buy_price: u64,
    /// What one unit brought in.
    pub sell_price: u64,
    /// The units sold.
    pub unit_size: u64,
    /// The whole days between purchase and sale.
    pub holding_period_days: i64,
    /// The category that the holding period gives.
    pub tax_obligation_type: TaxObligationType,
    /// The gain, negative for a loss.
    pub profit: i128,
    /// The gain times the rate of the category, in hundredths of the unit of
    /// the gain.
    pub tax_obligation: i128,
}

impl View for TaxRecord {
    type V = TaxRecordView;

    open spec fn view(&self) -> TaxRecordView {
        TaxRecordView {
            buy_date: self.buy_date@,
            sell_date: self.sell_date@,
            buy_price: self.buy_price as nat,
            sell_price: self.sell_price as nat,
            unit_size: self.unit_size as nat,
            holding_period_days: self.holding_period_days as int,
            tax_obligation_type: self.tax_obligation_type,
            profit: self.profit as int,
            tax_obligation: self.tax_obligation as int,
        }
    }
}

impl TaxRecord {
    /// The record of a disposal whose holding period is known. Fails with
    /// `AmountOutOfRange` exactly when the obligation does not fit an `i128`.
    pub fn classify(
        buy_date: String,
        sell_date: String,
        buy_price: u64,
        sell_price: u64,
        unit_size: u64,
        profit: i128,
        days: i64,
    ) -> (r: Result<TaxRecord, CryptfolioError>)
        ensures
            match r {
                Ok(record) => obligation_fits(profit as int, days as int) && record@ == classified(
                    buy_date@,
                    sell_date@,
                    buy_price as nat,
                    sell_price as nat,
                    unit_size as nat,
                    profit as int,
                    days as int,
                ),
                Err(e) => !obligation_fits(profit as int, days as int) && e is AmountOutOfRange,
            },
    {
        let category = TaxObligationType::for_holding_period(days);
        match profit.checked_mul(category.to_percentage() as i128) {
            Some(obligation) => Ok(
                TaxRecord {
                    buy_date,
                    sell_date,
                    buy_price,
                    sell_price,
                    unit_size,
                    holding_period_days: days,
                    tax_obligation_type: category,
                    profit,
                    tax_obligation: obligation,
                },
            ),
            None => Err(CryptfolioError::AmountOutOfRange),
        }
    }

    /// The record of a disposal between two dates. Fails with
    /// `DateTimeParseError` when the holding period cannot be told from the
    /// dates, and else with `AmountOutOfRange` when the obligation does not fit
    /// an `i128`.
    pub fn new(
        buy_date: String,
        sell_date: String,
        buy_price: u64,
        sell_price: u64,
        unit_size: u64,
        profit: i128,
    ) -> (r: Result<TaxRecord, CryptfolioError>)
        ensures
            match r {
                Ok(record) => holding_period(buy_date@, sell_date@) matches Some(days)
                    && obligation_fits(profit as int, days as int) && record@ == classified(
                    buy_date@,
                    sell_date@,
                    buy_price as nat,
                    sell_price as nat,
                    unit_size as nat,
                    profit as int,
                    days as int,
                ),
                Err(e) => match holding_period(buy_date@, sell_date@) {
                    Some(days) => !obligation_fits(profit as int, days as int)
                        && e is AmountOutOfRange,
                    None => e is DateTimeParseError,
                },
            },
    {
        let days = Util::holding_days(buy_date.as_str(), sell_date.as_str())?;
        TaxRecord::classify(buy_date, sell_date, buy_price, sell_price, unit_size, profit, days)
    }
}

} // verus!
