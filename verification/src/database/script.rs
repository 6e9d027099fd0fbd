//! From the rows of the database to the record of a coin.

use crate::error::CryptfolioError;
use crate::recording::coin_record::{classifiable, finalized_view, within_limits, CoinRecord};
use crate::recording::lot_ledger::lots_of;
use crate::recording::matching::matched;
use crate::recording::sums::lemma_sum_by_push;
use crate::recording::transaction::{
    event_amount, event_fee, total_amount, total_fees, EventView,
};
use crate::util::Util;
use vstd::prelude::*;

verus! {

/// The side of a row that records a purchase.
pub const BUY: &'static str = "buy";

/// The side of a row that records a sale.
pub const SELL: &'static str = "sell";

/// A row as a mathematical value.
pub struct RowView {
    pub date: Seq<char>,
    pub side: Seq<char>,
    pub unit_price: nat,
    pub unit_size: nat,
    pub fee: nat,
}

/// One row of the history of a coin: an order, a reward or the fee of a
/// transfer, as the database hands it out.
#[derive(Debug)]
pub struct CoinRow {
    /// When it happened.
    pub date: String,
    /// `buy` for what was acquired, `sell` for what was given away.
    pub side: String,
    /// The price of one unit.
    pub unit_price: u64,
    /// The units.
    pub unit_size: u64,
    /// The fee paid.
    pub fee: u64,
}

impl View for CoinRow {
    type V = RowView;

    open spec fn view(&self) -> RowView {
        RowView {
            date: self.date@,
            side: self.side@,
            unit_price: self.unit_price as nat,
            unit_size: self.unit_size as nat,
            fee: self.fee as nat,
        }
    }
}

/// The views of a sequence of rows.
pub open spec fn row_views(rows: Seq<CoinRow>) -> Seq<RowView> {
    rows.map_values(|row: CoinRow| row@)
}

/// The event that a row records.
pub open spec fn event_of(row: RowView) -> EventView {
    EventView { date: row.date, price: row.unit_price, shares: row.unit_size, fee: row.fee }
}

/// The events of the rows of one side, in the order of the rows.
pub open spec fn events_of_side(rows: Seq<RowView>, side: Seq<char>) -> Seq<EventView>
    decreases rows.len(),
{
    if rows.len() == 0 {
        Seq::empty()
    } else if rows.last().side == side {
        events_of_side(rows.drop_last(), side).push(event_of(rows.last()))
    } else {
        events_of_side(rows.drop_last(), side)
    }
}

/// The purchases among the rows.
pub open spec fn purchases(rows: Seq<RowView>) -> Seq<EventView> {
    events_of_side(rows, BUY@)
}

/// The sales among the rows.
pub open spec fn sales(rows: Seq<RowView>) -> Seq<EventView> {
    events_of_side(rows, SELL@)
}

/// The first rows hold no more of one side than all rows do.
proof fn lemma_side_grows(rows: Seq<RowView>, n: int, side: Seq<char>)
    requires
        0 <= n <= rows.len(),
    ensures
        0 <= total_amount(events_of_side(rows.take(n), side)) <= total_amount(
            events_of_side(rows, side),
        ),
        0 <= total_fees(events_of_side(rows.take(n), side)) <= total_fees(
            events_of_side(rows, side),
        ),
    decreases rows.len(),
{
    if n == rows.len() {
        assert(rows.take(n) =~= rows);
        lemma_side_nonnegative(rows, side);
    } else {
        assert(rows.drop_last().take(n) =~= rows.take(n));
        lemma_side_grows(rows.drop_last(), n, side);
        if rows.last().side == side {
            let event = event_of(rows.last());
            lemma_sum_by_push(events_of_side(rows.drop_last(), side), event, event_amount());
            lemma_sum_by_push(events_of_side(rows.drop_last(), side), event, event_fee());
        }
    }
}

/// The events of one side amount to nothing or more, and so do their fees.
proof fn lemma_side_nonnegative(rows: Seq<RowView>, side: Seq<char>)
    ensures
        0 <= total_amount(events_of_side(rows, side)),
        0 <= total_fees(events_of_side(rows, side)),
    decreases rows.len(),
{
    if rows.len() > 0 {
        lemma_side_nonnegative(rows.drop_last(), side);
        if rows.last().side == side {
            let event = event_of(rows.last());
            lemma_sum_by_push(events_of_side(rows.drop_last(), side), event, event_amount());
            lemma_sum_by_push(events_of_side(rows.drop_last(), side), event, event_fee());
        }
    }
}

/// What is done with the tables of the database.
pub struct DatabaseScript {}

impl DatabaseScript {
    /// The record of a coin from the rows of its history, which come oldest
    /// first: the rows of side `buy` are its purchases, those of side `sell` its
    /// sales, and rows of any other side are passed over. The record is
    /// updated.
    ///
    /// Fails with `AmountOutOfRange` where the rows hold more than a record
    /// accounts for, and else with `DateTimeParseError` where the holding
    /// period of a slice cannot be told from its dates.
    pub fn fetch_coin_record(rows: &Vec<CoinRow>) -> (r: Result<CoinRecord, CryptfolioError>)
        ensures
            match r {
                Ok(record) => {
                    let buys = purchases(row_views(rows@));
                    let sells = sales(row_views(rows@));
                    &&& record.wf()
                    &&& within_limits(buys, sells)
                    &&& classifiable(matched(lots_of(buys), sells).slices)
                    &&& record@ == finalized_view(buys, sells)
                },
                Err(e) => {
                    let buys = purchases(row_views(rows@));
                    let sells = sales(row_views(rows@));
                    if within_limits(buys, sells) {
                        !classifiable(matched(lots_of(buys), sells).slices)
                            && e is DateTimeParseError
                    } else {
                        e is AmountOutOfRange
                    }
                },
            },
    {
        let mut record = CoinRecord::new();
        let ghost all = row_views(rows@);
        let mut i: usize = 0;
        proof {
            reveal_strlit("buy");
            reveal_strlit("sell");
            assert(BUY@.len() != SELL@.len());
        }
        while i < rows.len()
            invariant
                i <= rows@.len(),
                all == row_views(rows@),
                BUY@ != SELL@,
                record.wf(),
                !record@.finalized,
                record@.buys == purchases(all.take(i as int)),
                record@.sells == sales(all.take(i as int)),
            decreases rows@.len() - i,
        {
            let row = &rows[i];
            proof {
                assert(all.take(i as int + 1).drop_last() =~= all.take(i as int));
                lemma_side_grows(all, i as int + 1, BUY@);
                lemma_side_grows(all, i as int + 1, SELL@);
            }
            if Util::same_text(row.side.as_str(), BUY) {
                record.add_buy(row.date.clone(), row.unit_price, row.unit_size, row.fee)?;
            } else if Util::same_text(row.side.as_str(), SELL) {
                record.add_sell(row.date.clone(), row.unit_price, row.unit_size, row.fee)?;
            }
            i = i + 1;
        }
        proof {
            assert(all.take(i as int) =~= all);
            record.lemma_figures();
        }
        record.update()?;
        Ok(record)
    }
}

} // verus!
