//! The ledger of open lots: what was bought and is not yet sold, oldest first.

use crate::error::CryptfolioError;
use crate::recording::sums::{lemma_sum_by_prefix, lemma_sum_by_push, sum_by};
use crate::recording::transaction::EventView;
use std::collections::VecDeque;
use vstd::prelude::*;

verus! {

/// An open lot as a mathematical value.
pub struct LotView {
    pub date: Seq<char>,
    pub unit_price: nat,
    pub quantity: nat,
}

impl LotView {
    /// The same lot holding another quantity.
    pub open spec fn with_quantity(self, quantity: nat) -> LotView {
        LotView { date: self.date, unit_price: self.unit_price, quantity }
    }

    /// What the lot's quantity cost.
    pub open spec fn cost(self) -> int {
        (self.unit_price * self.quantity) as int
    }
}

/// The measure of a lot by its quantity.
pub open spec fn lot_quantity() -> spec_fn(LotView) -> int {
    |lot: LotView| lot.quantity as int
}

/// The measure of a lot by the cost of its quantity.
pub open spec fn lot_cost() -> spec_fn(LotView) -> int {
    |lot: LotView| lot.cost()
}

/// The units that a sequence of lots holds.
pub open spec fn open_quantity(lots: Seq<LotView>) -> int {
    sum_by(lots, lot_quantity())
}

/// What the units that a sequence of lots holds cost.
pub open spec fn open_cost(lots: Seq<LotView>) -> int {
    sum_by(lots, lot_cost())
}

/// Every lot of the sequence still holds something.
pub open spec fn all_open(lots: Seq<LotView>) -> bool {
    forall|i: int| 0 <= i < lots.len() ==> (#[trigger] lots[i]).quantity > 0
}

/// The lot that a purchase opens.
pub open spec fn lot_of(buy: EventView) -> LotView {
    LotView { date: buy.date, unit_price: buy.price, quantity: buy.shares }
}

/// The lots that a sequence of purchases opens, in the order of the purchases.
/// A purchase of nothing opens no lot.
pub open spec fn lots_of(buys: Seq<EventView>) -> Seq<LotView>
    decreases buys.len(),
{
    if buys.len() == 0 {
        Seq::empty()
    } else if buys.last().shares > 0 {
        lots_of(buys.drop_last()).push(lot_of(buys.last()))
    } else {
        lots_of(buys.drop_last())
    }
}

/// One acquisition, as far as it is not yet sold.
#[derive(Debug)]
pub struct OpenLot {
    /// When it was bought.
    pub date: String,
    /// What one unit cost.
    pub unit_price: u64,
    /// How many units are left of it.
    pub remaining_quantity: u64,
}

impl View for OpenLot {
    type V = LotView;

    open spec fn view(&self) -> LotView {
        LotView {
            date: self.date@,
            unit_price: self.unit_price as nat,
            quantity: self.remaining_quantity as nat,
        }
    }
}

/// The open lots of one asset in the order in which they were bought.
///
/// The ledger does not sort: whoever fills it pushes the lots oldest first.
#[derive(Debug)]
pub struct LotLedger {
    lots: VecDeque<OpenLot>,
}

impl View for LotLedger {
    type V = Seq<LotView>;

    closed spec fn view(&self) -> Seq<LotView> {
        self.lots@.map_values(|lot: OpenLot| lot@)
    }
}

impl LotLedger {
    /// No lot in the ledger is empty.
    pub open spec fn wf(&self) -> bool {
        all_open(self@)
    }

    /// A ledger without lots.
    pub fn new() -> (ledger: LotLedger)
        ensures
            ledger@ == Seq::<LotView>::empty(),
            ledger.wf(),
    {
        LotLedger { lots: VecDeque::new() }
    }

    /// The number of open lots.
    pub fn len(&self) -> (n: usize)
        ensures
            n == self@.len(),
    {
        self.lots.len()
    }

    /// Whether nothing is left to sell.
    pub fn is_empty(&self) -> (empty: bool)
        ensures
            empty == (self@.len() == 0),
    {
        self.lots.len() == 0
    }

    /// The lot at `index`, counted from the oldest.
    pub fn get(&self, index: usize) -> (lot: Option<&OpenLot>)
        ensures
            match lot {
                Some(lot) => index < self@.len() && lot@ == self@[index as int],
                None => index >= self@.len(),
            },
    {
        if index < self.lots.len() {
            Some(&self.lots[index])
        } else {
            None
        }
    }

    /// Appends a lot as the youngest. A purchase of nothing opens no lot.
    pub fn push(&mut self, date: String, unit_price: u64, quantity: u64)
        requires
            old(self).wf(),
        ensures
            final(self).wf(),
            final(self)@ == if quantity > 0 {
                old(self)@.push(
                    LotView {
                        date: date@,
                        unit_price: unit_price as nat,
                        quantity: quantity as nat,
                    },
                )
            } else {
                old(self)@
            },
    {
        if quantity > 0 {
            let lot = OpenLot { date, unit_price, remaining_quantity: quantity };
            self.lots.push_back(lot);
            assert(self@ =~= old(self)@.push(lot@));
        }
    }

    /// The oldest open lot.
    pub fn peek_oldest(&self) -> (r: Result<&OpenLot, CryptfolioError>)
        ensures
            match r {
                Ok(lot) => self@.len() > 0 && lot@ == self@[0],
                Err(e) => self@.len() == 0 && e is EmptyLedger,
            },
    {
        if self.lots.len() == 0 {
            Err(CryptfolioError::EmptyLedger)
        } else {
            Ok(&self.lots[0])
        }
    }

    /// Takes `amount` units out of the oldest lot and removes the lot when
    /// nothing is left of it.
    pub fn consume(&mut self, amount: u64) -> (r: Result<(), CryptfolioError>)
        requires
            old(self).wf(),
        ensures
            final(self).wf(),
            match r {
                Ok(_) => {
                    &&& old(self)@.len() > 0
                    &&& amount <= old(self)@[0].quantity
                    &&& final(self)@ == if amount == old(self)@[0].quantity {
                        old(self)@.drop_first()
                    } else {
                        old(self)@.update(
                            0,
                            old(self)@[0].with_quantity((old(self)@[0].quantity - amount) as nat),
                        )
                    }
                },
                Err(e) => {
                    &&& final(self)@ == old(self)@
                    &&& if old(self)@.len() == 0 {
                        e is EmptyLedger
                    } else {
                        amount > old(self)@[0].quantity && e is InsufficientLotQuantity
                    }
                },
            },
    {
        if self.lots.len() == 0 {
            return Err(CryptfolioError::EmptyLedger);
        }
        if amount > self.lots[0].remaining_quantity {
            return Err(CryptfolioError::InsufficientLotQuantity);
        }
        let oldest = self.lots.pop_front();
        match oldest {
            Some(lot) => {
                assert(self@ =~= old(self)@.drop_first());
                if amount < lot.remaining_quantity {
                    let left = OpenLot {
                        date: lot.date,
                        unit_price: lot.unit_price,
                        remaining_quantity: lot.remaining_quantity - amount,
                    };
                    self.lots.push_front(left);
                    assert(self@ =~= old(self)@.update(0, left@));
                }
            },
            None => {},
        }
        Ok(())
    }

    /// The units that the open lots hold together.
    pub fn remaining_shares(&self) -> (shares: u128)
        ensures
            shares == open_quantity(self@),
    {
        let mut shares: u128 = 0;
        let mut i: usize = 0;
        while i < self.lots.len()
            invariant
                i <= self.lots@.len(),
                shares == open_quantity(self@.take(i as int)),
                shares <= i * u64::MAX,
            decreases self.lots@.len() - i,
        {
            proof {
                assert(self@.take(i as int + 1) =~= self@.take(i as int).push(self@[i as int]));
                lemma_sum_by_push(self@.take(i as int), self@[i as int], lot_quantity());
                assert(i * u64::MAX <= usize::MAX * u64::MAX) by (nonlinear_arith)
                    requires
                        i <= usize::MAX,
                ;
            }
            shares = shares + self.lots[i].remaining_quantity as u128;
            i = i + 1;
        }
        assert(self@.take(i as int) =~= self@);
        shares
    }

    /// What the units in the open lots cost together, unless that is more than
    /// a `u128` holds.
    pub fn cost_basis(&self) -> (cost: Option<u128>)
        ensures
            match cost {
                Some(cost) => cost == open_cost(self@),
                None => open_cost(self@) > u128::MAX,
            },
    {
        let mut cost: u128 = 0;
        let mut i: usize = 0;
        while i < self.lots.len()
            invariant
                i <= self.lots@.len(),
                cost == open_cost(self@.take(i as int)),
            decreases self.lots@.len() - i,
        {
            let lot = &self.lots[i];
            proof {
                assert(self@.take(i as int + 1) =~= self@.take(i as int).push(self@[i as int]));
                lemma_sum_by_push(self@.take(i as int), self@[i as int], lot_cost());
                assert(lot.unit_price * lot.remaining_quantity <= u64::MAX * u64::MAX)
                    by (nonlinear_arith)
                    requires
                        lot.unit_price <= u64::MAX,
                        lot.remaining_quantity <= u64::MAX,
                ;
            }
            let lot_cost: u128 = lot.unit_price as u128 * lot.remaining_quantity as u128;
            match cost.checked_add(lot_cost) {
                Some(sum) => {
                    cost = sum;
                },
                None => {
                    proof {
                        lemma_open_cost_of_prefix(self@, i as int + 1);
                    }
                    return None;
                },
            }
            i = i + 1;
        }
        assert(self@.take(i as int) =~= self@);
        Some(cost)
    }
}

/// The first lots of a sequence cost no more than all of them.
pub proof fn lemma_open_cost_of_prefix(lots: Seq<LotView>, n: int)
    requires
        0 <= n <= lots.len(),
    ensures
        0 <= open_cost(lots.take(n)) <= open_cost(lots),
{
    lemma_sum_by_prefix(lots, n, lot_cost());
}

} // verus!
