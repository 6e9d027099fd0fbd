//! The record of one asset: the events handed in, and after `update` the
//! snapshot that they give.

use crate::error::CryptfolioError;
use crate::recording::conservation::{
    lemma_cost_splits, lemma_fill_conserves, lemma_fill_supplies, lemma_lots_of_purchases,
    lemma_matched_conserves_cost, lemma_matched_proceeds, lemma_open_quantity_nonnegative,
    lemma_slices_measure,
};
use crate::recording::lot_ledger::{
    lemma_open_cost_of_prefix, lot_cost, lots_of, open_cost, open_quantity, LotLedger, LotView,
};
use crate::recording::matching::{
    fill, lemma_profit_is_proceeds_less_cost, match_sell, matched, slice_cost, slice_proceeds,
    slice_profit, slice_views, slices_of, SliceView,
};
use crate::recording::sums::{lemma_sum_by_concat, lemma_sum_by_prefix, lemma_sum_by_push, sum_by};
use crate::recording::tax_record::{classified, record_views, TaxRecord, TaxRecordView};
use crate::recording::transaction::{
    event_amount, event_fee, event_views, total_amount, total_fees, EventView, TransactionRecord,
};
use crate::util::holding_period;
use vstd::prelude::*;

verus! {

/// The most that a record accounts for: the purchases together, the sales
/// together and the fees together each stay at or below it.
pub const MAX_TOTAL: u128 = 1_000_000_000_000_000_000_000_000_000_000_000_000;

/// Whether a record can take these events: the cost of the purchases, the
/// proceeds asked by the sales, and all fees each stay within `MAX_TOTAL`.
pub open spec fn within_limits(buys: Seq<EventView>, sells: Seq<EventView>) -> bool {
    &&& total_amount(buys) <= MAX_TOTAL
    &&& total_amount(sells) <= MAX_TOTAL
    &&& total_fees(buys) + total_fees(sells) <= MAX_TOTAL
}

/// Whether the holding period of every slice can be told from its dates.
pub open spec fn classifiable(slices: Seq<SliceView>) -> bool {
    forall|i: int|
        0 <= i < slices.len() ==> holding_period(
            (#[trigger] slices[i]).buy_date,
            slices[i].sell_date,
        ) is Some
}

/// The tax record of a slice.
pub open spec fn tax_record_of(slice: SliceView) -> TaxRecordView {
    classified(
        slice.buy_date,
        slice.sell_date,
        slice.buy_price,
        slice.sell_price,
        slice.quantity,
        slice.realized_profit(),
        match holding_period(slice.buy_date, slice.sell_date) {
            Some(days) => days as int,
            None => 0,
        },
    )
}

/// The tax records of a sequence of slices, one for each, in their order.
pub open spec fn tax_records_of(slices: Seq<SliceView>) -> Seq<TaxRecordView> {
    Seq::new(slices.len(), |i: int| tax_record_of(slices[i]))
}

/// The warnings for the sales that found too little, in their order.
pub open spec fn warnings_of(oversold: Seq<nat>) -> Seq<CryptfolioError> {
    Seq::new(oversold.len(), |i: int| CryptfolioError::OversoldQuantity(oversold[i] as u64))
}

/// A record as a mathematical value.
pub struct CoinRecordView {
    /// The purchases handed in, in their order.
    pub buys: Seq<EventView>,
    /// The sales handed in, in their order.
    pub sells: Seq<EventView>,
    /// Whether `update` has run.
    pub finalized: bool,
    pub shares: int,
    pub average_cost: int,
    pub gross_profit: int,
    pub net_profit: int,
    pub total_invested: int,
    pub current_invested: int,
    pub total_fees: int,
    pub fully_divested: bool,
    pub tax_records: Seq<TaxRecordView>,
    pub warnings: Seq<CryptfolioError>,
    pub open_lots: Seq<LotView>,
}

/// A record that holds these events and has not been updated: none of its
/// figures is set.
pub open spec fn accumulating_view(buys: Seq<EventView>, sells: Seq<EventView>) -> CoinRecordView {
    CoinRecordView {
        buys,
        sells,
        finalized: false,
        shares: 0,
        average_cost: 0,
        gross_profit: 0,
        net_profit: 0,
        total_invested: 0,
        current_invested: 0,
        total_fees: 0,
        fully_divested: false,
        tax_records: Seq::empty(),
        warnings: Seq::empty(),
        open_lots: Seq::empty(),
    }
}

/// The snapshot that these events give: the purchases open their lots, the
/// sales are matched against them oldest lot first, and the figures are summed
/// over the slices and over the lots that stay open.
pub open spec fn finalized_view(buys: Seq<EventView>, sells: Seq<EventView>) -> CoinRecordView {
    let outcome = matched(lots_of(buys), sells);
    let shares = open_quantity(outcome.rest);
    let invested = open_cost(outcome.rest);
    CoinRecordView {
        buys,
        sells,
        finalized: true,
        shares,
        average_cost: if shares == 0 {
            0
        } else {
            invested / shares
        },
        gross_profit: sum_by(outcome.slices, slice_profit()),
        net_profit: sum_by(outcome.slices, slice_profit()) - (total_fees(buys) + total_fees(sells)),
        total_invested: invested + sum_by(outcome.slices, slice_cost()),
        current_invested: invested,
        total_fees: total_fees(buys) + total_fees(sells),
        fully_divested: shares == 0,
        tax_records: tax_records_of(outcome.slices),
        warnings: warnings_of(outcome.oversold),
        open_lots: outcome.rest,
    }
}

/// The record of one asset.
///
/// A record is first filled with purchases and sales, each kind in the order
/// of its dates. One call of `update` then matches the sales against the
/// purchases and sets the figures. A record is updated once: to account for
/// further events, fill a new one.
#[derive(Debug)]
pub struct CoinRecord {
    shares: u128,
    average_cost: u128,
    gross_profit: i128,
    net_profit: i128,
    total_invested: u128,
    current_invested: u128,
    total_fees: u128,
    fully_divested: bool,
    finalized: bool,
    buys: Vec<TransactionRecord>,
    sells: Vec<TransactionRecord>,
    ledger: LotLedger,
    tax_records: Vec<TaxRecord>,
    warnings: Vec<CryptfolioError>,
    bought: u128,
    sold: u128,
    fees: u128,
}

impl View for CoinRecord {
    type V = CoinRecordView;

    closed spec fn view(&self) -> CoinRecordView {
        CoinRecordView {
            buys: event_views(self.buys@),
            sells: event_views(self.sells@),
            finalized: self.finalized,
            shares: self.shares as int,
            average_cost: self.average_cost as int,
            gross_profit: self.gross_profit as int,
            net_profit: self.net_profit as int,
            total_invested: self.total_invested as int,
            current_invested: self.current_invested as int,
            total_fees: self.total_fees as int,
            fully_divested: self.fully_divested,
            tax_records: record_views(self.tax_records@),
            warnings: self.warnings@,
            open_lots: self.ledger@,
        }
    }
}

impl CoinRecord {
    /// What holds of every record: its events are within the limits, and its
    /// figures are those that its events give once it is updated, and unset
    /// before.
    pub closed spec fn wf(&self) -> bool {
        &&& self.ledger.wf()
        &&& within_limits(self@.buys, self@.sells)
        &&& self.bought == total_amount(self@.buys)
        &&& self.sold == total_amount(self@.sells)
        &&& self.fees == total_fees(self@.buys) + total_fees(self@.sells)
        &&& if self.finalized {
            &&& classifiable(matched(lots_of(self@.buys), self@.sells).slices)
            &&& self@ == finalized_view(self@.buys, self@.sells)
        } else {
            self@ == accumulating_view(self@.buys, self@.sells)
        }
    }

    /// The figures of a record are always those of its events.
    pub proof fn lemma_figures(&self)
        requires
            self.wf(),
        ensures
            within_limits(self@.buys, self@.sells),
            self@.finalized ==> classifiable(matched(lots_of(self@.buys), self@.sells).slices),
            self@ == if self@.finalized {
                finalized_view(self@.buys, self@.sells)
            } else {
                accumulating_view(self@.buys, self@.sells)
            },
    {
    }

    /// A record without events.
    pub fn new() -> (record: CoinRecord)
        ensures
            record.wf(),
            record@ == accumulating_view(Seq::empty(), Seq::empty()),
    {
        let record = CoinRecord {
            shares: 0,
            average_cost: 0,
            gross_profit: 0,
            net_profit: 0,
            total_invested: 0,
            current_invested: 0,
            total_fees: 0,
            fully_divested: false,
            finalized: false,
            buys: Vec::new(),
            sells: Vec::new(),
            ledger: LotLedger::new(),
            tax_records: Vec::new(),
            warnings: Vec::new(),
            bought: 0,
            sold: 0,
            fees: 0,
        };
        assert(record@.buys =~= Seq::empty());
        assert(record@.sells =~= Seq::empty());
        assert(record@.tax_records =~= Seq::empty());
        record
    }

    /// The units still held.
    pub fn get_shares(&self) -> (shares: u128)
        ensures
            shares == self@.shares,
    {
        self.shares
    }

    /// What one unit still held cost on average, rounded down; zero where
    /// nothing is held.
    pub fn get_average_cost(&self) -> (cost: u128)
        ensures
            cost == self@.average_cost,
    {
        self.average_cost
    }

    /// The sum of the realized gains and losses.
    pub fn get_gross_profit(&self) -> (profit: i128)
        ensures
            profit == self@.gross_profit,
    {
        self.gross_profit
    }

    /// The realized gains and losses less all fees.
    pub fn get_net_profit(&self) -> (profit: i128)
        ensures
            profit == self@.net_profit,
    {
        self.net_profit
    }

    /// What every unit ever bought cost, whether it is sold or not.
    pub fn get_total_invested(&self) -> (invested: u128)
        ensures
            invested == self@.total_invested,
    {
        self.total_invested
    }

    /// What the units still held cost.
    pub fn get_current_invested(&self) -> (invested: u128)
        ensures
            invested == self@.current_invested,
    {
        self.current_invested
    }

    /// The fees of all purchases and sales.
    pub fn get_total_fees(&self) -> (fees: u128)
        ensures
            fees == self@.total_fees,
    {
        self.total_fees
    }

    /// One tax record for every slice, in the order in which the slices were
    /// made.
    pub fn get_tax_records(&self) -> (records: &Vec<TaxRecord>)
        ensures
            record_views(records@) == self@.tax_records,
    {
        &self.tax_records
    }

    /// One `OversoldQuantity` for every sale that found too little, with the
    /// quantity that stayed unmatched, in the order of the sales.
    pub fn get_warnings(&self) -> (warnings: &Vec<CryptfolioError>)
        ensures
            warnings@ == self@.warnings,
    {
        &self.warnings
    }

    /// The lots that are still open.
    pub fn get_open_lots(&self) -> (ledger: &LotLedger)
        ensures
            ledger@ == self@.open_lots,
    {
        &self.ledger
    }

    /// Whether `update` has run.
    pub fn is_finalized(&self) -> (finalized: bool)
        ensures
            finalized == self@.finalized,
    {
        self.finalized
    }

    /// Whether the record is updated and nothing is held any more.
    pub fn is_fully_divested(&self) -> (divested: bool)
        ensures
            divested == self@.fully_divested,
    {
        self.fully_divested
    }

    /// Hands in a purchase. Purchases are handed in oldest first.
    ///
    /// A record that was updated takes no more events, and one whose totals
    /// would pass `MAX_TOTAL` with this event rejects it; the record then stays
    /// as it was.
    pub fn add_buy(&mut self, date: String, price: u64, shares: u64, fee: u64) -> (r: Result<
        (),
        CryptfolioError,
    >)
        requires
            old(self).wf(),
        ensures
            final(self).wf(),
            match r {
                Ok(_) => {
                    let event = EventView {
                        date: date@,
                        price: price as nat,
                        shares: shares as nat,
                        fee: fee as nat,
                    };
                    &&& !old(self)@.finalized
                    &&& within_limits(old(self)@.buys.push(event), old(self)@.sells)
                    &&& final(self)@ == accumulating_view(
                        old(self)@.buys.push(event),
                        old(self)@.sells,
                    )
                },
                Err(e) => {
                    let event = EventView {
                        date: date@,
                        price: price as nat,
                        shares: shares as nat,
                        fee: fee as nat,
                    };
                    &&& final(self)@ == old(self)@
                    &&& if old(self)@.finalized {
                        e is PreconditionViolated
                    } else {
                        !within_limits(old(self)@.buys.push(event), old(self)@.sells)
                            && e is AmountOutOfRange
                    }
                },
            },
    {
        if self.finalized {
            return Err(CryptfolioError::PreconditionViolated);
        }
        let event = TransactionRecord::new(date, price, shares, fee);
        let amount = event.amount();
        proof {
            lemma_sum_by_push(self@.buys, event@, event_amount());
            lemma_sum_by_push(self@.buys, event@, event_fee());
        }
        if amount > MAX_TOTAL - self.bought || fee as u128 > MAX_TOTAL - self.fees {
            return Err(CryptfolioError::AmountOutOfRange);
        }
        self.bought = self.bought + amount;
        self.fees = self.fees + fee as u128;
        self.buys.push(event);
        assert(self@.buys =~= old(self)@.buys.push(event@));
        Ok(())
    }

    /// Hands in a sale. Sales are handed in oldest first.
    ///
    /// A record that was updated takes no more events, and one whose totals
    /// would pass `MAX_TOTAL` with this event rejects it; the record then stays
    /// as it was.
    pub fn add_sell(&mut self, date: String, price: u64, shares: u64, fee: u64) -> (r: Result<
        (),
        CryptfolioError,
    >)
        requires
            old(self).wf(),
        ensures
            final(self).wf(),
            match r {
                Ok(_) => {
                    let event = EventView {
                        date: date@,
                        price: price as nat,
                        shares: shares as nat,
                        fee: fee as nat,
                    };
                    &&& !old(self)@.finalized
                    &&& within_limits(old(self)@.buys, old(self)@.sells.push(event))
                    &&& final(self)@ == accumulating_view(
                        old(self)@.buys,
                        old(self)@.sells.push(event),
                    )
                },
                Err(e) => {
                    let event = EventView {
                        date: date@,
                        price: price as nat,
                        shares: shares as nat,
                        fee: fee as nat,
                    };
                    &&& final(self)@ == old(self)@
                    &&& if old(self)@.finalized {
                        e is PreconditionViolated
                    } else {
                        !within_limits(old(self)@.buys, old(self)@.sells.push(event))
                            && e is AmountOutOfRange
                    }
                },
            },
    {
        if self.finalized {
            return Err(CryptfolioError::PreconditionViolated);
        }
        let event = TransactionRecord::new(date, price, shares, fee);
        let amount = event.amount();
        proof {
            lemma_sum_by_push(self@.sells, event@, event_amount());
            lemma_sum_by_push(self@.sells, event@, event_fee());
        }
        if amount > MAX_TOTAL - self.sold || fee as u128 > MAX_TOTAL - self.fees {
            return Err(CryptfolioError::AmountOutOfRange);
        }
        self.sold = self.sold + amount;
        self.fees = self.fees + fee as u128;
        self.sells.push(event);
        assert(self@.sells =~= old(self)@.sells.push(event@));
        Ok(())
    }

    /// Matches the sales against the purchases and sets the figures of the
    /// record.
    ///
    /// The purchases open their lots in the order in which they were handed
    /// in. Every sale then draws on the oldest lots, and every slice gets its
    /// tax record. A sale that finds too little is matched as far as the lots
    /// reach and leaves a warning. The fee of every event counts once, however
    /// the event was matched.
    ///
    /// A record is updated once: a second call fails with
    /// `PreconditionViolated`. Where the holding period of a slice cannot be
    /// told from its dates the call fails with `DateTimeParseError`. A record
    /// on which the call fails stays as it was.
    pub fn update(&mut self) -> (r: Result<(), CryptfolioError>)
        requires
            old(self).wf(),
        ensures
            final(self).wf(),
            match r {
                Ok(_) => {
                    &&& !old(self)@.finalized
                    &&& classifiable(matched(lots_of(old(self)@.buys), old(self)@.sells).slices)
                    &&& final(self)@ == finalized_view(old(self)@.buys, old(self)@.sells)
                },
                Err(e) => {
                    &&& final(self)@ == old(self)@
                    &&& if old(self)@.finalized {
                        e is PreconditionViolated
                    } else {
                        !classifiable(matched(lots_of(old(self)@.buys), old(self)@.sells).slices)
                            && e is DateTimeParseError
                    }
                },
            },
    {
        if self.finalized {
            return Err(CryptfolioError::PreconditionViolated);
        }
        let ghost buys = self@.buys;
        let ghost sells = self@.sells;
        let ghost lots = lots_of(buys);
        let mut ledger = LotLedger::new();
        let mut i: usize = 0;
        while i < self.buys.len()
            invariant
                i <= self.buys@.len(),
                *self == *old(self),
                buys == event_views(self.buys@),
                ledger.wf(),
                ledger@ == lots_of(buys.take(i as int)),
            decreases self.buys@.len() - i,
        {
            let buy = &self.buys[i];
            proof {
                assert(buys.take(i as int + 1).drop_last() =~= buys.take(i as int));
            }
            ledger.push(buy.date.clone(), buy.price, buy.shares);
            i = i + 1;
        }
        proof {
            assert(buys.take(i as int) =~= buys);
            lemma_lots_of_purchases(buys);
        }
        let mut records: Vec<TaxRecord> = Vec::new();
        let mut warnings: Vec<CryptfolioError> = Vec::new();
        let mut proceeds: u128 = 0;
        let mut cost: u128 = 0;
        let mut j: usize = 0;
        while j < self.sells.len()
            invariant
                j <= self.sells@.len(),
                *self == *old(self),
                self.wf(),
                !self.finalized,
                buys == self@.buys,
                sells == event_views(self.sells@),
                lots == lots_of(buys),
                ledger.wf(),
                ledger@ == matched(lots, sells.take(j as int)).rest,
                record_views(records@) == tax_records_of(
                    matched(lots, sells.take(j as int)).slices,
                ),
                classifiable(matched(lots, sells.take(j as int)).slices),
                warnings@ == warnings_of(matched(lots, sells.take(j as int)).oversold),
                proceeds == sum_by(matched(lots, sells.take(j as int)).slices, slice_proceeds()),
                cost == sum_by(matched(lots, sells.take(j as int)).slices, slice_cost()),
                open_cost(lots) <= MAX_TOTAL,
                total_amount(sells) <= MAX_TOTAL,
            decreases self.sells@.len() - j,
        {
            let sell = &self.sells[j];
            let ghost before = matched(lots, sells.take(j as int));
            let ghost after = matched(lots, sells.take(j as int + 1));
            let ghost found = fill(before.rest, sell@.shares);
            let ghost slices = slices_of(found.taken, sell@);
            proof {
                assert(sells.take(j as int + 1).drop_last() =~= sells.take(j as int));
                lemma_events_prefix(sells, j as int + 1);
                lemma_matched_conserves_cost(lots, sells.take(j as int));
                lemma_matched_conserves_cost(lots, sells.take(j as int + 1));
                lemma_matched_proceeds(lots, sells.take(j as int));
                lemma_matched_proceeds(lots, sells.take(j as int + 1));
                lemma_open_cost_of_prefix(after.rest, 0);
                lemma_sum_by_concat(before.slices, slices, slice_proceeds());
                lemma_sum_by_concat(before.slices, slices, slice_cost());
                lemma_classifiable_parts(before.slices, slices);
            }
            match process_sell(&mut ledger, sell, &mut records) {
                Ok(totals) => {
                    if totals.unmatched > 0 {
                        warnings.push(CryptfolioError::OversoldQuantity(totals.unmatched));
                    }
                    proceeds = proceeds + totals.proceeds;
                    cost = cost + totals.cost;
                },
                Err(e) => {
                    proof {
                        lemma_matched_prefix(lots, sells, j as int + 1);
                    }
                    return Err(e);
                },
            }
            j = j + 1;
        }
        proof {
            assert(sells.take(j as int) =~= sells);
            lemma_matched_conserves_cost(lots, sells);
            lemma_matched_proceeds(lots, sells);
            lemma_open_cost_of_prefix(matched(lots, sells).rest, 0);
            lemma_profit_sums(matched(lots, sells).slices);
        }
        let shares = ledger.remaining_shares();
        let invested: u128 = self.bought - cost;
        self.shares = shares;
        self.average_cost = if shares == 0 {
            0
        } else {
            invested / shares
        };
        self.gross_profit = proceeds as i128 - cost as i128;
        self.net_profit = self.gross_profit - self.fees as i128;
        self.total_invested = self.bought;
        self.current_invested = invested;
        self.total_fees = self.fees;
        self.fully_divested = shares == 0;
        self.tax_records = records;
        self.warnings = warnings;
        self.ledger = ledger;
        self.finalized = true;
        Ok(())
    }
}

/// What one sale adds to the totals of a record.
struct SellTotals {
    proceeds: u128,
    cost: u128,
    unmatched: u64,
}

/// The slices of one sale bring in no more than the sale asked for and cost no
/// more than the lots did.
proof fn lemma_sell_bounds(lots: Seq<LotView>, sell: EventView)
    ensures
        0 <= sum_by(slices_of(fill(lots, sell.shares).taken, sell), slice_proceeds())
            <= sell.amount(),
        0 <= sum_by(slices_of(fill(lots, sell.shares).taken, sell), slice_cost()) <= open_cost(
            lots,
        ),
        forall|i: int|
            0 <= i < slices_of(fill(lots, sell.shares).taken, sell).len() ==> slice_proceeds()(
                #[trigger] slices_of(fill(lots, sell.shares).taken, sell)[i],
            ) >= 0,
        forall|i: int|
            0 <= i < slices_of(fill(lots, sell.shares).taken, sell).len() ==> slice_cost()(
                #[trigger] slices_of(fill(lots, sell.shares).taken, sell)[i],
            ) >= 0,
{
    let found = fill(lots, sell.shares);
    let slices = slices_of(found.taken, sell);
    lemma_slices_measure(found.taken, sell);
    lemma_fill_supplies(lots, sell.shares);
    lemma_cost_splits();
    lemma_fill_conserves(lots, sell.shares, lot_cost());
    lemma_open_quantity_nonnegative(found.taken);
    lemma_open_cost_of_prefix(found.rest, 0);
    lemma_open_cost_of_prefix(found.taken, 0);
    let p = sell.price as int;
    let t = open_quantity(found.taken);
    let q = sell.shares as int;
    assert(0 <= p * t <= p * q) by (nonlinear_arith)
        requires
            0 <= p,
            0 <= t <= q,
    ;
}

/// The gains of slices sum to what they brought in less what they had cost.
proof fn lemma_profit_sums(slices: Seq<SliceView>)
    ensures
        sum_by(slices, slice_profit()) == sum_by(slices, slice_proceeds()) - sum_by(
            slices,
            slice_cost(),
        ),
    decreases slices.len(),
{
    if slices.len() > 0 {
        lemma_profit_sums(slices.drop_last());
        lemma_profit_is_proceeds_less_cost(slices.last());
    }
}

/// Matches one sale against the ledger and appends the tax record of every
/// slice to `records`. Fails when the holding period of a slice cannot be told.
fn process_sell(
    ledger: &mut LotLedger,
    sell: &TransactionRecord,
    records: &mut Vec<TaxRecord>,
) -> (r: Result<SellTotals, CryptfolioError>)
    requires
        old(ledger).wf(),
        sell@.amount() <= MAX_TOTAL,
        open_cost(old(ledger)@) <= MAX_TOTAL,
    ensures
        final(ledger).wf(),
        final(ledger)@ == fill(old(ledger)@, sell@.shares).rest,
        match r {
            Ok(totals) => {
                let slices = slices_of(fill(old(ledger)@, sell@.shares).taken, sell@);
                &&& classifiable(slices)
                &&& record_views(final(records)@) == record_views(old(records)@) + tax_records_of(
                    slices,
                )
                &&& totals.proceeds == sum_by(slices, slice_proceeds())
                &&& totals.cost == sum_by(slices, slice_cost())
                &&& totals.unmatched == fill(old(ledger)@, sell@.shares).unmatched
            },
            Err(e) => !classifiable(slices_of(fill(old(ledger)@, sell@.shares).taken, sell@))
                && e is DateTimeParseError,
        },
{
    let found = match_sell(ledger, sell);
    let ghost slices = slice_views(found.slices@);
    proof {
        lemma_sell_bounds(old(ledger)@, sell@);
    }
    let mut proceeds: u128 = 0;
    let mut cost: u128 = 0;
    let mut k: usize = 0;
    while k < found.slices.len()
        invariant
            k <= found.slices@.len(),
            ledger.wf(),
            ledger@ == fill(old(ledger)@, sell@.shares).rest,
            slices == slice_views(found.slices@),
            slices == slices_of(fill(old(ledger)@, sell@.shares).taken, sell@),
            proceeds == sum_by(slices.take(k as int), slice_proceeds()),
            cost == sum_by(slices.take(k as int), slice_cost()),
            record_views(records@) == record_views(old(records)@) + tax_records_of(
                slices.take(k as int),
            ),
            classifiable(slices.take(k as int)),
            sum_by(slices, slice_proceeds()) <= MAX_TOTAL,
            sum_by(slices, slice_cost()) <= MAX_TOTAL,
            forall|i: int| 0 <= i < slices.len() ==> slice_proceeds()(#[trigger] slices[i]) >= 0,
            forall|i: int| 0 <= i < slices.len() ==> slice_cost()(#[trigger] slices[i]) >= 0,
        decreases found.slices@.len() - k,
    {
        let slice = &found.slices[k];
        let ghost done = slices.take(k as int);
        proof {
            assert(slices.take(k as int + 1) =~= done.push(slice@));
            lemma_sum_by_push(done, slice@, slice_proceeds());
            lemma_sum_by_push(done, slice@, slice_cost());
            lemma_sum_by_prefix(slices, k as int + 1, slice_proceeds());
            lemma_sum_by_prefix(slices, k as int + 1, slice_cost());
            lemma_profit_is_proceeds_less_cost(slice@);
        }
        let slice_proceeds = slice.proceeds();
        let slice_cost = slice.cost_basis();
        let profit: i128 = slice_proceeds as i128 - slice_cost as i128;
        let ghost records_before = records@;
        match TaxRecord::new(
            slice.buy_date.clone(),
            slice.sell_date.clone(),
            slice.buy_price,
            slice.sell_price,
            slice.quantity,
            profit,
        ) {
            Ok(record) => {
                records.push(record);
                proof {
                    assert(record_views(records@) =~= record_views(records_before).push(record@));
                }
            },
            Err(e) => {
                return Err(e);
            },
        }
        proceeds = proceeds + slice_proceeds;
        cost = cost + slice_cost;
        k = k + 1;
    }
    assert(slices.take(k as int) =~= slices);
    Ok(SellTotals { proceeds, cost, unmatched: found.unmatched })
}

/// The first events of a sequence amount to no more than all of them.
proof fn lemma_events_prefix(events: Seq<EventView>, n: int)
    requires
        0 <= n <= events.len(),
    ensures
        0 <= total_amount(events.take(n)) <= total_amount(events),
{
    lemma_sum_by_prefix(events, n, event_amount());
}

/// Two sequences of slices in a row can be classified exactly when each of
/// them can.
proof fn lemma_classifiable_parts(front: Seq<SliceView>, back: Seq<SliceView>)
    ensures
        classifiable(front + back) <==> classifiable(front) && classifiable(back),
{
    let whole = front + back;
    if classifiable(whole) {
        assert forall|i: int| 0 <= i < front.len() implies holding_period(
            (#[trigger] front[i]).buy_date,
            front[i].sell_date,
        ) is Some by {
            assert(whole[i] == front[i]);
        }
        assert forall|i: int| 0 <= i < back.len() implies holding_period(
            (#[trigger] back[i]).buy_date,
            back[i].sell_date,
        ) is Some by {
            assert(whole[front.len() + i] == back[i]);
        }
    }
    if classifiable(front) && classifiable(back) {
        assert forall|i: int| 0 <= i < whole.len() implies holding_period(
            (#[trigger] whole[i]).buy_date,
            whole[i].sell_date,
        ) is Some by {
        }
    }
}

/// The slices of the first sales are the first slices of all sales.
proof fn lemma_matched_prefix(lots: Seq<LotView>, sells: Seq<EventView>, n: int)
    requires
        0 <= n <= sells.len(),
    ensures
        matched(lots, sells.take(n)).slices.len() <= matched(lots, sells).slices.len(),
        matched(lots, sells.take(n)).slices == matched(lots, sells).slices.take(
            matched(lots, sells.take(n)).slices.len() as int,
        ),
    decreases sells.len(),
{
    if n == sells.len() {
        assert(sells.take(n) =~= sells);
    } else {
        lemma_matched_prefix(lots, sells.drop_last(), n);
        assert(sells.drop_last().take(n) =~= sells.take(n));
        let shorter = matched(lots, sells.drop_last()).slices;
        let first = matched(lots, sells.take(n)).slices;
    }
}

} // verus!
