//! What holds of the snapshot of every record.

use crate::recording::coin_record::{finalized_view, tax_records_of};
use crate::recording::conservation::{
    lemma_lots_of_purchases, lemma_matched_accounts_for_sales, lemma_matched_conserves_cost,
    lemma_matched_conserves_quantity, lemma_matched_keeps_open, lemma_matched_remainder,
    lemma_open_lots_hold_something,
};
use crate::recording::lot_ledger::{lots_of, open_quantity, LotView};
use crate::recording::matching::{
    fill, matched, slice_profit, slice_quantity, unmatched_quantity, SliceView,
};
use crate::recording::sums::sum_by;
use crate::recording::tax_record::TaxRecordView;
use crate::recording::transaction::{total_amount, total_fees, total_shares, EventView};
use vstd::prelude::*;

verus! {

/// The measure of a tax record by its units.
pub open spec fn record_units() -> spec_fn(TaxRecordView) -> int {
    |record: TaxRecordView| record.unit_size as int
}

/// The measure of a tax record by its gain.
pub open spec fn record_profit() -> spec_fn(TaxRecordView) -> int {
    |record: TaxRecordView| record.profit
}

/// The tax records of slices hold the units and the gains of the slices.
proof fn lemma_records_hold_the_slices(slices: Seq<SliceView>)
    ensures
        sum_by(tax_records_of(slices), record_units()) == sum_by(slices, slice_quantity()),
        sum_by(tax_records_of(slices), record_profit()) == sum_by(slices, slice_profit()),
    decreases slices.len(),
{
    if slices.len() > 0 {
        lemma_records_hold_the_slices(slices.drop_last());
        assert(tax_records_of(slices).drop_last() =~= tax_records_of(slices.drop_last()));
    }
}

/// Conservation: the units in the tax records and the units still held are
/// together the units that were bought, whatever was sold and whether or not a
/// sale found too little. The open lots hold exactly the units still held.
pub proof fn law_conservation(buys: Seq<EventView>, sells: Seq<EventView>)
    ensures
        sum_by(finalized_view(buys, sells).tax_records, record_units()) + finalized_view(
            buys,
            sells,
        ).shares == total_shares(buys),
        open_quantity(finalized_view(buys, sells).open_lots) == finalized_view(buys, sells).shares,
{
    let outcome = matched(lots_of(buys), sells);
    lemma_lots_of_purchases(buys);
    lemma_matched_conserves_quantity(lots_of(buys), sells);
    lemma_records_hold_the_slices(outcome.slices);
}

/// Every unit that a sale asked for is in a tax record or in a warning.
pub proof fn law_sales_are_accounted_for(buys: Seq<EventView>, sells: Seq<EventView>)
    ensures
        sum_by(finalized_view(buys, sells).tax_records, record_units()) + sum_by(
            matched(lots_of(buys), sells).oversold,
            unmatched_quantity(),
        ) == total_shares(sells),
{
    let outcome = matched(lots_of(buys), sells);
    lemma_matched_accounts_for_sales(lots_of(buys), sells);
    lemma_records_hold_the_slices(outcome.slices);
}

/// What is still held is what was bought less what the sales asked for, and
/// nothing where they asked for more.
pub proof fn law_remaining_shares(buys: Seq<EventView>, sells: Seq<EventView>)
    ensures
        finalized_view(buys, sells).shares == if total_shares(buys) >= total_shares(sells) {
            total_shares(buys) - total_shares(sells)
        } else {
            0
        },
{
    lemma_lots_of_purchases(buys);
    lemma_matched_remainder(lots_of(buys), sells);
}

/// Full divestment: where the sales ask for all that was bought, or for more,
/// nothing is held, no lot is open, and the average cost is zero.
pub proof fn law_full_divestment(buys: Seq<EventView>, sells: Seq<EventView>)
    requires
        total_shares(sells) >= total_shares(buys),
    ensures
        finalized_view(buys, sells).shares == 0,
        finalized_view(buys, sells).average_cost == 0,
        finalized_view(buys, sells).current_invested == 0,
        finalized_view(buys, sells).fully_divested,
        finalized_view(buys, sells).open_lots.len() == 0,
{
    let outcome = matched(lots_of(buys), sells);
    law_remaining_shares(buys, sells);
    lemma_lots_of_purchases(buys);
    lemma_matched_keeps_open(lots_of(buys), sells);
    lemma_open_lots_hold_something(outcome.rest);
}

/// The total invested is what all purchases cost, whether their units are sold
/// or not.
pub proof fn law_total_invested(buys: Seq<EventView>, sells: Seq<EventView>)
    ensures
        finalized_view(buys, sells).total_invested == total_amount(buys),
{
    lemma_lots_of_purchases(buys);
    lemma_matched_conserves_cost(lots_of(buys), sells);
}

/// The fees are those of all events: how a sale is split over the lots, and
/// whether it is matched at all, does not enter.
pub proof fn law_fees(buys: Seq<EventView>, sells: Seq<EventView>)
    ensures
        finalized_view(buys, sells).total_fees == total_fees(buys) + total_fees(sells),
{
}

/// The net profit is the gross profit less the fees.
pub proof fn law_net_profit(buys: Seq<EventView>, sells: Seq<EventView>)
    ensures
        finalized_view(buys, sells).net_profit == finalized_view(buys, sells).gross_profit
            - finalized_view(buys, sells).total_fees,
{
}

/// The gross profit is the sum of the gains in the tax records.
pub proof fn law_gross_profit(buys: Seq<EventView>, sells: Seq<EventView>)
    ensures
        finalized_view(buys, sells).gross_profit == sum_by(
            finalized_view(buys, sells).tax_records,
            record_profit(),
        ),
{
    lemma_records_hold_the_slices(matched(lots_of(buys), sells).slices);
}

/// What a disposal takes of the lot at `index`: the quantity of the part taken
/// from it, and nothing where no part was taken.
pub open spec fn taken_of(lots: Seq<LotView>, quantity: nat, index: int) -> nat {
    if 0 <= index < fill(lots, quantity).taken.len() {
        fill(lots, quantity).taken[index].quantity
    } else {
        0
    }
}

/// What a disposal leaves of the lot at `index`: the quantity of the lot that
/// stays in its place, and nothing where the lot is used up. The lots that
/// stay are the last of the lots.
pub open spec fn left_of(lots: Seq<LotView>, quantity: nat, index: int) -> nat {
    let rest = fill(lots, quantity).rest;
    let gone = lots.len() - rest.len();
    if gone <= index < lots.len() {
        rest[index - gone].quantity
    } else {
        0
    }
}

/// First in, first out: a disposal draws on the oldest lots in their order.
/// Every part taken has the date and the price of the lot in its place, every
/// part but the last is a whole lot, and every lot that stays is a lot as it
/// was but for the first, which may be the rest of a split lot. Of every lot,
/// what is taken and what is left is together what it held.
pub proof fn law_oldest_first(lots: Seq<LotView>, quantity: nat)
    ensures
        fill(lots, quantity).taken.len() <= lots.len(),
        fill(lots, quantity).rest.len() <= lots.len(),
        forall|i: int|
            0 <= i < fill(lots, quantity).taken.len() ==> (#[trigger] fill(
                lots,
                quantity,
            ).taken[i]).with_quantity(lots[i].quantity) == lots[i],
        forall|i: int|
            0 <= i < fill(lots, quantity).taken.len() - 1 ==> #[trigger] fill(
                lots,
                quantity,
            ).taken[i] == lots[i],
        forall|j: int|
            0 <= j < fill(lots, quantity).rest.len() ==> (#[trigger] fill(
                lots,
                quantity,
            ).rest[j]).with_quantity(
                lots[lots.len() - fill(lots, quantity).rest.len() + j].quantity,
            ) == lots[lots.len() - fill(lots, quantity).rest.len() + j],
        forall|j: int|
            1 <= j < fill(lots, quantity).rest.len() ==> #[trigger] fill(lots, quantity).rest[j]
                == lots[lots.len() - fill(lots, quantity).rest.len() + j],
        forall|i: int|
            0 <= i < lots.len() ==> #[trigger] taken_of(lots, quantity, i) + left_of(
                lots,
                quantity,
                i,
            ) == lots[i].quantity,
    decreases lots.len(),
{
    if quantity > 0 && lots.len() > 0 && lots[0].quantity <= quantity {
        let tail = lots.drop_first();
        let wanted = (quantity - lots[0].quantity) as nat;
        law_oldest_first(tail, wanted);
        assert forall|i: int| 0 <= i < lots.len() implies #[trigger] taken_of(lots, quantity, i)
            + left_of(lots, quantity, i) == lots[i].quantity by {
            if i > 0 {
                assert(taken_of(tail, wanted, i - 1) + left_of(tail, wanted, i - 1) == tail[i
                    - 1].quantity);
            }
        }
    }
}

} // verus!
