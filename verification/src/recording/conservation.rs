//! Matching neither makes nor loses anything: what holds of every fill and of
//! every sequence of sales.

use crate::recording::lot_ledger::{
    all_open, lot_cost, lot_of, lot_quantity, lots_of, open_cost, open_quantity, LotView,
};
use crate::recording::matching::{
    fill, matched, slice_cost, slice_proceeds, slice_quantity, slices_of, unmatched_quantity,
};
use crate::recording::sums::{
    lemma_sum_by_concat, lemma_sum_by_first, lemma_sum_by_push, lemma_sum_by_update, sum_by,
};
use crate::recording::transaction::{total_amount, total_shares, EventView};
use vstd::prelude::*;

verus! {

/// A measure of lots that is shared out with the quantity: the two parts of a
/// split lot measure together what the lot measured.
pub open spec fn splits_with_quantity(measure: spec_fn(LotView) -> int) -> bool {
    forall|lot: LotView, part: nat|
        part <= lot.quantity ==> #[trigger] measure(lot.with_quantity(part)) + measure(
            lot.with_quantity((lot.quantity - part) as nat),
        ) == measure(lot)
}

/// Taking units out of lots neither makes nor loses anything that is shared out
/// with the quantity: the parts taken and the lots that stay measure together
/// what the lots measured before.
pub proof fn lemma_fill_conserves(
    lots: Seq<LotView>,
    quantity: nat,
    measure: spec_fn(LotView) -> int,
)
    requires
        splits_with_quantity(measure),
    ensures
        sum_by(fill(lots, quantity).taken, measure) + sum_by(fill(lots, quantity).rest, measure)
            == sum_by(lots, measure),
    decreases lots.len(),
{
    let result = fill(lots, quantity);
    if quantity == 0 || lots.len() == 0 {
    } else if lots[0].quantity > quantity {
        let part = lots[0].with_quantity(quantity);
        let left = lots[0].with_quantity((lots[0].quantity - quantity) as nat);
        lemma_sum_by_push(Seq::empty(), part, measure);
        lemma_sum_by_update(lots, 0, left, measure);
    } else {
        let later = fill(lots.drop_first(), (quantity - lots[0].quantity) as nat);
        lemma_fill_conserves(lots.drop_first(), (quantity - lots[0].quantity) as nat, measure);
        lemma_sum_by_first(lots, measure);
        lemma_sum_by_first(result.taken, measure);
        assert(result.taken.drop_first() =~= later.taken);
    }
}

/// The cost is shared out with the quantity.
pub proof fn lemma_cost_splits()
    ensures
        splits_with_quantity(lot_cost()),
{
    assert forall|lot: LotView, part: nat| part <= lot.quantity implies #[trigger] lot_cost()(
        lot.with_quantity(part),
    ) + lot_cost()(lot.with_quantity((lot.quantity - part) as nat)) == lot_cost()(lot) by {
        let p = lot.unit_price as int;
        let a = part as int;
        let q = lot.quantity as int;
        assert(p * a + p * (q - a) == p * q) by (nonlinear_arith);
    }
}

/// The parts taken hold what was wanted less what stayed unmatched, and
/// something stays unmatched only when no lot is left.
pub proof fn lemma_fill_supplies(lots: Seq<LotView>, quantity: nat)
    ensures
        open_quantity(fill(lots, quantity).taken) + fill(lots, quantity).unmatched == quantity,
        fill(lots, quantity).unmatched > 0 ==> fill(lots, quantity).rest.len() == 0,
    decreases lots.len(),
{
    let result = fill(lots, quantity);
    if quantity == 0 || lots.len() == 0 {
    } else if lots[0].quantity > quantity {
        lemma_sum_by_push(Seq::empty(), lots[0].with_quantity(quantity), lot_quantity());
    } else {
        let later = fill(lots.drop_first(), (quantity - lots[0].quantity) as nat);
        lemma_fill_supplies(lots.drop_first(), (quantity - lots[0].quantity) as nat);
        lemma_sum_by_first(result.taken, lot_quantity());
        assert(result.taken.drop_first() =~= later.taken);
    }
}

/// Where every lot holds something, so does every lot that stays and every
/// part taken.
pub proof fn lemma_fill_keeps_open(lots: Seq<LotView>, quantity: nat)
    requires
        all_open(lots),
    ensures
        all_open(fill(lots, quantity).rest),
        all_open(fill(lots, quantity).taken),
    decreases lots.len(),
{
    if quantity > 0 && lots.len() > 0 && lots[0].quantity <= quantity {
        lemma_fill_keeps_open(lots.drop_first(), (quantity - lots[0].quantity) as nat);
    }
}

/// The slices of one sale hold the units of the parts taken and cost what the
/// parts cost; they bring in the sale's price for every unit.
pub proof fn lemma_slices_measure(taken: Seq<LotView>, sell: EventView)
    ensures
        sum_by(slices_of(taken, sell), slice_quantity()) == open_quantity(taken),
        sum_by(slices_of(taken, sell), slice_cost()) == open_cost(taken),
        sum_by(slices_of(taken, sell), slice_proceeds()) == sell.price * open_quantity(taken),
    decreases taken.len(),
{
    if taken.len() > 0 {
        lemma_slices_measure(taken.drop_last(), sell);
        assert(slices_of(taken, sell).drop_last() =~= slices_of(taken.drop_last(), sell));
        let p = sell.price as int;
        let q = taken.last().quantity as int;
        let r = open_quantity(taken.drop_last());
        assert(p * r + p * q == p * (r + q)) by (nonlinear_arith);
    }
}

/// A quantity of lots is never negative.
pub proof fn lemma_open_quantity_nonnegative(lots: Seq<LotView>)
    ensures
        open_quantity(lots) >= 0,
    decreases lots.len(),
{
    if lots.len() > 0 {
        lemma_open_quantity_nonnegative(lots.drop_last());
    }
}

/// Matching neither makes nor loses units: the slices and the lots that stay
/// hold together what the lots held before.
pub proof fn lemma_matched_conserves_quantity(lots: Seq<LotView>, sells: Seq<EventView>)
    ensures
        sum_by(matched(lots, sells).slices, slice_quantity()) + open_quantity(
            matched(lots, sells).rest,
        ) == open_quantity(lots),
    decreases sells.len(),
{
    if sells.len() > 0 {
        let before = matched(lots, sells.drop_last());
        let last = fill(before.rest, sells.last().shares);
        lemma_matched_conserves_quantity(lots, sells.drop_last());
        lemma_fill_conserves(before.rest, sells.last().shares, lot_quantity());
        lemma_slices_measure(last.taken, sells.last());
        lemma_sum_by_concat(before.slices, slices_of(last.taken, sells.last()), slice_quantity());
    }
}

/// Matching neither makes nor loses cost: what the slices had cost and what
/// the lots that stay cost is together what the lots cost before.
pub proof fn lemma_matched_conserves_cost(lots: Seq<LotView>, sells: Seq<EventView>)
    ensures
        sum_by(matched(lots, sells).slices, slice_cost()) + open_cost(matched(lots, sells).rest)
            == open_cost(lots),
    decreases sells.len(),
{
    if sells.len() > 0 {
        let before = matched(lots, sells.drop_last());
        let last = fill(before.rest, sells.last().shares);
        lemma_matched_conserves_cost(lots, sells.drop_last());
        lemma_cost_splits();
        lemma_fill_conserves(before.rest, sells.last().shares, lot_cost());
        lemma_slices_measure(last.taken, sells.last());
        lemma_sum_by_concat(before.slices, slices_of(last.taken, sells.last()), slice_cost());
    }
}

/// The slices bring in no more than the sales asked for.
pub proof fn lemma_matched_proceeds(lots: Seq<LotView>, sells: Seq<EventView>)
    ensures
        0 <= sum_by(matched(lots, sells).slices, slice_proceeds()) <= total_amount(sells),
    decreases sells.len(),
{
    if sells.len() > 0 {
        let before = matched(lots, sells.drop_last());
        let last = fill(before.rest, sells.last().shares);
        lemma_matched_proceeds(lots, sells.drop_last());
        lemma_fill_supplies(before.rest, sells.last().shares);
        lemma_slices_measure(last.taken, sells.last());
        lemma_sum_by_concat(before.slices, slices_of(last.taken, sells.last()), slice_proceeds());
        lemma_open_quantity_nonnegative(last.taken);
        let p = sells.last().price as int;
        let t = open_quantity(last.taken);
        let q = sells.last().shares as int;
        assert(0 <= p * t <= p * q) by (nonlinear_arith)
            requires
                0 <= p,
                0 <= t <= q,
        ;
    }
}

/// Where every lot holds something, so does every lot that stays after the
/// sales.
pub proof fn lemma_matched_keeps_open(lots: Seq<LotView>, sells: Seq<EventView>)
    requires
        all_open(lots),
    ensures
        all_open(matched(lots, sells).rest),
    decreases sells.len(),
{
    if sells.len() > 0 {
        lemma_matched_keeps_open(lots, sells.drop_last());
        lemma_fill_keeps_open(matched(lots, sells.drop_last()).rest, sells.last().shares);
    }
}

/// What stays open is what the lots held less what the sales asked for, and
/// nothing where the sales asked for more.
pub proof fn lemma_matched_remainder(lots: Seq<LotView>, sells: Seq<EventView>)
    ensures
        open_quantity(matched(lots, sells).rest) == if open_quantity(lots) >= total_shares(sells) {
            open_quantity(lots) - total_shares(sells)
        } else {
            0
        },
    decreases sells.len(),
{
    if sells.len() > 0 {
        let before = matched(lots, sells.drop_last());
        let last = fill(before.rest, sells.last().shares);
        lemma_matched_remainder(lots, sells.drop_last());
        lemma_fill_conserves(before.rest, sells.last().shares, lot_quantity());
        lemma_fill_supplies(before.rest, sells.last().shares);
        lemma_open_quantity_nonnegative(last.rest);
    } else {
        lemma_open_quantity_nonnegative(lots);
    }
}

/// The lots that purchases open hold the units of the purchases and cost what
/// the purchases cost, and none of them is empty.
pub proof fn lemma_lots_of_purchases(buys: Seq<EventView>)
    ensures
        open_quantity(lots_of(buys)) == total_shares(buys),
        open_cost(lots_of(buys)) == total_amount(buys),
        all_open(lots_of(buys)),
    decreases buys.len(),
{
    if buys.len() > 0 {
        lemma_lots_of_purchases(buys.drop_last());
        if buys.last().shares > 0 {
            lemma_sum_by_push(lots_of(buys.drop_last()), lot_of(buys.last()), lot_quantity());
            lemma_sum_by_push(lots_of(buys.drop_last()), lot_of(buys.last()), lot_cost());
        } else {
            assert(buys.last().price * buys.last().shares == 0) by (nonlinear_arith)
                requires
                    buys.last().shares == 0,
            ;
        }
    }
}

/// Lots that all hold something and together hold nothing are no lots.
pub proof fn lemma_open_lots_hold_something(lots: Seq<LotView>)
    requires
        all_open(lots),
        open_quantity(lots) == 0,
    ensures
        lots.len() == 0,
{
    if lots.len() > 0 {
        lemma_open_quantity_nonnegative(lots.drop_last());
    }
}

/// Every unit that a sale asked for is in a slice or stayed unmatched.
pub proof fn lemma_matched_accounts_for_sales(lots: Seq<LotView>, sells: Seq<EventView>)
    ensures
        sum_by(matched(lots, sells).slices, slice_quantity()) + sum_by(
            matched(lots, sells).oversold,
            unmatched_quantity(),
        ) == total_shares(sells),
    decreases sells.len(),
{
    if sells.len() > 0 {
        let before = matched(lots, sells.drop_last());
        let last = fill(before.rest, sells.last().shares);
        lemma_matched_accounts_for_sales(lots, sells.drop_last());
        lemma_fill_supplies(before.rest, sells.last().shares);
        lemma_slices_measure(last.taken, sells.last());
        lemma_sum_by_concat(before.slices, slices_of(last.taken, sells.last()), slice_quantity());
        if last.unmatched > 0 {
            lemma_sum_by_push(before.oversold, last.unmatched, unmatched_quantity());
        }
    }
}

} // verus!
