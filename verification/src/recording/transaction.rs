//! Buy and sell events as they are handed to a record.

use crate::recording::sums::sum_by;
use vstd::prelude::*;

verus! {

/// A buy or sell event as a mathematical value.
pub struct EventView {
    pub date: Seq<char>,
    pub price: nat,
    pub shares: nat,
    pub fee: nat,
}

impl EventView {
    /// The price of one unit times the units of the event.
    pub open spec fn amount(self) -> int {
        (self.price * self.shares) as int
    }
}

/// The measure of an event by its fee.
pub open spec fn event_fee() -> spec_fn(EventView) -> int {
    |event: EventView| event.fee as int
}

/// The measure of an event by its units.
pub open spec fn event_shares() -> spec_fn(EventView) -> int {
    |event: EventView| event.shares as int
}

/// The measure of an event by the price of its units.
pub open spec fn event_amount() -> spec_fn(EventView) -> int {
    |event: EventView| event.amount()
}

/// The fees of a sequence of events.
pub open spec fn total_fees(events: Seq<EventView>) -> int {
    sum_by(events, event_fee())
}

/// The units of a sequence of events.
pub open spec fn total_shares(events: Seq<EventView>) -> int {
    sum_by(events, event_shares())
}

/// What the units of a sequence of events cost or brought in.
pub open spec fn total_amount(events: Seq<EventView>) -> int {
    sum_by(events, event_amount())
}

/// The views of a sequence of events.
pub open spec fn event_views(events: Seq<TransactionRecord>) -> Seq<EventView> {
    events.map_values(|event: TransactionRecord| event@)
}

/// One purchase or one sale. Nothing changes in it once it is recorded.
#[derive(Debug)]
pub struct TransactionRecord {
    /// When it happened.
    pub date: String,
    /// The price of one unit.
    pub price: u64,
    /// The units bought or sold.
    pub shares: u64,
    /// The fee paid for it.
    pub fee: u64,
}

impl View for TransactionRecord {
    type V = EventView;

    open spec fn view(&self) -> EventView {
        EventView {
            date: self.date@,
            price: self.price as nat,
            shares: self.shares as nat,
            fee: self.fee as nat,
        }
    }
}

impl TransactionRecord {
    /// An event from its four fields.
    pub fn new(date: String, price: u64, shares: u64, fee: u64) -> (event: TransactionRecord)
        ensures
            event@ == (EventView {
                date: date@,
                price: price as nat,
                shares: shares as nat,
                fee: fee as nat,
            }),
    {
        TransactionRecord { date, price, shares, fee }
    }

    /// The price of one unit times the units of the event.
    pub fn amount(&self) -> (amount: u128)
        ensures
            amount == self@.amount(),
    {
        assert(self.price * self.shares <= u64::MAX * u64::MAX) by (nonlinear_arith)
            requires
                self.price <= u64::MAX,
                self.shares <= u64::MAX,
        ;
        self.price as u128 * self.shares as u128
    }
}

} // verus!
