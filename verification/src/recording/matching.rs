//! Matching sales against the ledger, oldest lot first.

use crate::recording::lot_ledger::{LotLedger, LotView};
use crate::recording::transaction::{EventView, TransactionRecord};
use vstd::prelude::*;

verus! {

/// What taking a quantity out of a sequence of lots leaves behind.
pub struct Fill {
    /// The parts taken, each with the date and price of its lot, oldest first.
    pub taken: Seq<LotView>,
    /// The lots that stay open.
    pub rest: Seq<LotView>,
    /// What the lots could not supply.
    pub unmatched: nat,
}

/// Takes `quantity` units out of `lots`, oldest first: a lot that holds more
/// than is still wanted is split, any other is used up whole, and what is
/// wanted when the lots run out stays unmatched.
pub open spec fn fill(lots: Seq<LotView>, quantity: nat) -> Fill
    decreases lots.len(),
{
    if quantity == 0 || lots.len() == 0 {
        Fill { taken: Seq::empty(), rest: lots, unmatched: quantity }
    } else if lots[0].quantity > quantity {
        Fill {
            taken: seq![lots[0].with_quantity(quantity)],
            rest: lots.update(0, lots[0].with_quantity((lots[0].quantity - quantity) as nat)),
            unmatched: 0,
        }
    } else {
        let later = fill(lots.drop_first(), (quantity - lots[0].quantity) as nat);
        Fill { taken: seq![lots[0]] + later.taken, rest: later.rest, unmatched: later.unmatched }
    }
}

/// The part of one sale that was matched to one lot, as a mathematical value.
pub struct SliceView {
    pub buy_date: Seq<char>,
    pub sell_date: Seq<char>,
    pub buy_price: nat,
    pub sell_price: nat,
    pub quantity: nat,
}

impl SliceView {
    /// What the units brought in.
    pub open spec fn proceeds(self) -> int {
        (self.sell_price * self.quantity) as int
    }

    /// What the units had cost.
    pub open spec fn cost_basis(self) -> int {
        (self.buy_price * self.quantity) as int
    }

    /// The gain realized with the units, negative for a loss.
    pub open spec fn realized_profit(self) -> int {
        self.quantity * (self.sell_price - self.buy_price)
    }
}

/// The slice that a part taken from a lot makes with the sale that took it.
pub open spec fn slice_of(taken: LotView, sell: EventView) -> SliceView {
    SliceView {
        buy_date: taken.date,
        sell_date: sell.date,
        buy_price: taken.unit_price,
        sell_price: sell.price,
        quantity: taken.quantity,
    }
}

/// The slices that the parts taken for one sale make, in their order.
pub open spec fn slices_of(taken: Seq<LotView>, sell: EventView) -> Seq<SliceView> {
    Seq::new(taken.len(), |i: int| slice_of(taken[i], sell))
}

/// The measure of a slice by its units.
pub open spec fn slice_quantity() -> spec_fn(SliceView) -> int {
    |slice: SliceView| slice.quantity as int
}

/// The measure of a slice by what its units had cost.
pub open spec fn slice_cost() -> spec_fn(SliceView) -> int {
    |slice: SliceView| slice.cost_basis()
}

/// The measure of a slice by what its units brought in.
pub open spec fn slice_proceeds() -> spec_fn(SliceView) -> int {
    |slice: SliceView| slice.proceeds()
}

/// The measure of a slice by the gain realized with it.
pub open spec fn slice_profit() -> spec_fn(SliceView) -> int {
    |slice: SliceView| slice.realized_profit()
}

/// The measure of an unmatched quantity by itself.
pub open spec fn unmatched_quantity() -> spec_fn(nat) -> int {
    |quantity: nat| quantity as int
}

/// What matching a sequence of sales against a sequence of lots gives.
pub struct Matching {
    /// The slices of all sales, in the order in which they were made.
    pub slices: Seq<SliceView>,
    /// The lots that stay open.
    pub rest: Seq<LotView>,
    /// The unmatched quantity of every sale that found the lots empty, in the
    /// order of the sales.
    pub oversold: Seq<nat>,
}

/// Matches the sales one after the other against what the sales before them
/// left of `lots`. A sale that finds too little is matched as far as the lots
/// reach, and the sales after it go on.
pub open spec fn matched(lots: Seq<LotView>, sells: Seq<EventView>) -> Matching
    decreases sells.len(),
{
    if sells.len() == 0 {
        Matching { slices: Seq::empty(), rest: lots, oversold: Seq::empty() }
    } else {
        let before = matched(lots, sells.drop_last());
        let last = fill(before.rest, sells.last().shares);
        Matching {
            slices: before.slices + slices_of(last.taken, sells.last()),
            rest: last.rest,
            oversold: if last.unmatched > 0 {
                before.oversold.push(last.unmatched)
            } else {
                before.oversold
            },
        }
    }
}

/// The views of a sequence of slices.
pub open spec fn slice_views(slices: Seq<DisposalSlice>) -> Seq<SliceView> {
    slices.map_values(|slice: DisposalSlice| slice@)
}

/// The part of one sale that was matched to one lot.
#[derive(Debug)]
pub struct DisposalSlice {
    /// When the units were bought.
    pub buy_date: String,
    /// When they were sold.
    pub sell_date: String,
    /// What one unit had cost.
    pub buy_price: u64,
    /// What one unit brought in.
    pub sell_price: u64,
    /// The units matched.
    pub quantity: u64,
}

impl View for DisposalSlice {
    type V = SliceView;

    open spec fn view(&self) -> SliceView {
        SliceView {
            buy_date: self.buy_date@,
            sell_date: self.sell_date@,
            buy_price: self.buy_price as nat,
            sell_price: self.sell_price as nat,
            quantity: self.quantity as nat,
        }
    }
}

/// The gain of a slice is what it brought in less what it had cost.
pub proof fn lemma_profit_is_proceeds_less_cost(slice: SliceView)
    ensures
        slice.realized_profit() == slice.proceeds() - slice.cost_basis(),
        slice.proceeds() >= 0,
        slice.cost_basis() >= 0,
{
    let q = slice.quantity as int;
    let s = slice.sell_price as int;
    let b = slice.buy_price as int;
    assert(q * (s - b) == s * q - b * q) by (nonlinear_arith);
    assert(s * q >= 0) by (nonlinear_arith)
        requires
            s >= 0,
            q >= 0,
    ;
    assert(b * q >= 0) by (nonlinear_arith)
        requires
            b >= 0,
            q >= 0,
    ;
}

impl DisposalSlice {
    /// What the units brought in.
    pub fn proceeds(&self) -> (amount: u128)
        ensures
            amount == self@.proceeds(),
    {
        assert(self.sell_price * self.quantity <= u64::MAX * u64::MAX) by (nonlinear_arith)
            requires
                self.sell_price <= u64::MAX,
                self.quantity <= u64::MAX,
        ;
        self.sell_price as u128 * self.quantity as u128
    }

    /// What the units had cost.
    pub fn cost_basis(&self) -> (amount: u128)
        ensures
            amount == self@.cost_basis(),
    {
        assert(self.buy_price * self.quantity <= u64::MAX * u64::MAX) by (nonlinear_arith)
            requires
                self.buy_price <= u64::MAX,
                self.quantity <= u64::MAX,
        ;
        self.buy_price as u128 * self.quantity as u128
    }

    /// The gain realized with the units, negative for a loss, unless it is
    /// beyond what an `i128` holds.
    pub fn realized_profit(&self) -> (profit: Option<i128>)
        ensures
            match profit {
                Some(profit) => profit == self@.realized_profit(),
                None => self@.realized_profit() < i128::MIN || self@.realized_profit() > i128::MAX,
            },
    {
        let proceeds = self.proceeds();
        let cost = self.cost_basis();
        proof {
            lemma_profit_is_proceeds_less_cost(self@);
        }
        if proceeds >= cost {
            let gain: u128 = proceeds - cost;
            if gain <= i128::MAX as u128 {
                Some(gain as i128)
            } else {
                None
            }
        } else {
            let loss: u128 = cost - proceeds;
            if loss <= i128::MAX as u128 {
                Some(-(loss as i128))
            } else if loss == i128::MAX as u128 + 1 {
                Some(i128::MIN)
            } else {
                None
            }
        }
    }
}

/// What matching one sale against the ledger gave.
#[derive(Debug)]
pub struct SellMatch {
    /// One slice for every lot that the sale drew on, oldest first.
    pub slices: Vec<DisposalSlice>,
    /// The units of the sale for which no lot was left.
    pub unmatched: u64,
}

/// Matches one sale against the ledger: the oldest lots supply its units, a
/// lot that holds more than is still wanted is split, and the sale stops when
/// the ledger runs empty. A sale of nothing leaves the ledger as it is.
pub fn match_sell(ledger: &mut LotLedger, sell: &TransactionRecord) -> (r: SellMatch)
    requires
        old(ledger).wf(),
    ensures
        final(ledger).wf(),
        final(ledger)@ == fill(old(ledger)@, sell@.shares).rest,
        slice_views(r.slices@) == slices_of(fill(old(ledger)@, sell@.shares).taken, sell@),
        r.unmatched == fill(old(ledger)@, sell@.shares).unmatched,
{
    let mut slices: Vec<DisposalSlice> = Vec::new();
    let mut remaining: u64 = sell.shares;
    let ghost whole = fill(ledger@, sell@.shares);
    let ghost mut taken: Seq<LotView> = Seq::empty();
    while remaining > 0
        invariant
            ledger.wf(),
            whole.taken == taken + fill(ledger@, remaining as nat).taken,
            whole.rest == fill(ledger@, remaining as nat).rest,
            whole.unmatched == fill(ledger@, remaining as nat).unmatched,
            slice_views(slices@) == slices_of(taken, sell@),
        ensures
            remaining == 0 || ledger@.len() == 0,
        decreases ledger@.len(), remaining,
    {
        let ghost before = ledger@;
        let (buy_date, buy_price, held) = match ledger.peek_oldest() {
            Ok(lot) => (lot.date.clone(), lot.unit_price, lot.remaining_quantity),
            Err(_) => {
                break ;
            },
        };
        let quantity: u64 = if held > remaining {
            remaining
        } else {
            held
        };
        let slice = DisposalSlice {
            buy_date,
            sell_date: sell.date.clone(),
            buy_price,
            sell_price: sell.price,
            quantity,
        };
        let ghost part = before[0].with_quantity(quantity as nat);
        let ghost slices_before = slices@;
        slices.push(slice);
        let consumed = ledger.consume(quantity);
        assert(consumed is Ok);
        remaining = remaining - quantity;
        proof {
            assert(slice_views(slices@) =~= slices_of(taken.push(part), sell@)) by {
                assert(slice_views(slices_before).len() == slices_of(taken, sell@).len());
                assert forall|i: int| 0 <= i < slices@.len() implies slice_views(slices@)[i]
                    == slices_of(taken.push(part), sell@)[i] by {
                    if i < slices_before.len() {
                        assert(slices_of(taken, sell@)[i] == slice_of(taken[i], sell@));
                    }
                }
            }
            taken = taken.push(part);
        }
    }
    SellMatch { slices, unmatched: remaining }
}

} // verus!
