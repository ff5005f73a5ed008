use vstd::prelude::*;

use crate::component::{ComponentPrice, ComponentStockpile, PriceView, CURRENCY, NUM_ITEM};

verus! {

/// For each good, the currency holding at which the owner's utility stays
/// where it is after gaining one unit (`gain`) or losing one unit (`loss`)
/// of that good: the indifference-curve levels the quotes are read from.
#[derive(Clone, Copy, Debug, PartialEq, Eq)]
pub struct IndifferenceLevels {
    pub gain: [u16; NUM_ITEM],
    pub loss: [u16; NUM_ITEM],
}

/// `a - b`, or zero when `b` exceeds `a`.
pub open spec fn monus(a: u16, b: u16) -> u16 {
    if a >= b { (a - b) as u16 } else { 0u16 }
}

/// The most currency the owner gives for one more unit: what it holds above
/// the gain level.
pub open spec fn buy_quote(currency: u16, gain: u16) -> u16 {
    monus(currency, gain)
}

/// The least currency the owner takes for one unit: what the loss level
/// asks above its holding.
pub open spec fn sell_quote(currency: u16, loss: u16) -> u16 {
    monus(loss, currency)
}

/// Whether good `i` is recomputed: a non-currency good flagged dirty.
pub open spec fn recomputed(p: PriceView, i: int) -> bool {
    i != CURRENCY && p.update[i]
}

/// The price record after the engine has run once on it, for an owner
/// holding `currency` with levels `gain` and `loss`: each dirty
/// non-currency good gets fresh quotes and a cleared flag; the rest stays.
pub open spec fn refreshed(p: PriceView, currency: u16, gain: Seq<u16>, loss: Seq<u16>) -> PriceView {
    PriceView {
        update: Seq::new(
            NUM_ITEM as nat,
            |i: int| if recomputed(p, i) { false } else { p.update[i] },
        ),
        buy: Seq::new(
            NUM_ITEM as nat,
            |i: int| if recomputed(p, i) { buy_quote(currency, gain[i]) } else { p.buy[i] },
        ),
        sell: Seq::new(
            NUM_ITEM as nat,
            |i: int| if recomputed(p, i) { sell_quote(currency, loss[i]) } else { p.sell[i] },
        ),
    }
}

/// The record with every good flagged dirty.
pub open spec fn all_dirty(p: PriceView) -> PriceView {
    PriceView { update: Seq::new(NUM_ITEM as nat, |i: int| true), ..p }
}

/// A record with one flag and two quotes per good.
pub open spec fn price_wf(p: PriceView) -> bool {
    p.update.len() == NUM_ITEM && p.buy.len() == NUM_ITEM && p.sell.len() == NUM_ITEM
}

fn monus_u16(a: u16, b: u16) -> (r: u16)
    ensures
        r == monus(a, b),
{
    if a >= b { a - b } else { 0 }
}

/// Recomputes the quotes of every dirty non-currency good from the owner's
/// currency holding and its indifference levels, and clears those flags.
pub fn refresh_price(price: &mut ComponentPrice, stockpile: &ComponentStockpile, levels: &IndifferenceLevels)
    ensures
        final(price)@ == refreshed(
            old(price)@,
            stockpile.items@[CURRENCY as int],
            levels.gain@,
            levels.loss@,
        ),
{
    let currency = stockpile.items[CURRENCY];
    let ghost p0 = price@;
    let ghost target = refreshed(p0, currency, levels.gain@, levels.loss@);
    let mut i: usize = 1;
    while i < NUM_ITEM
        invariant
            1 <= i <= NUM_ITEM,
            currency == stockpile.items@[CURRENCY as int],
            target == refreshed(p0, currency, levels.gain@, levels.loss@),
            price_wf(price@),
            price_wf(p0),
            levels.gain@.len() == NUM_ITEM,
            levels.loss@.len() == NUM_ITEM,
            forall|j: int| 0 <= j < i ==> #[trigger] price@.update[j] == target.update[j],
            forall|j: int| 0 <= j < i ==> #[trigger] price@.buy[j] == target.buy[j],
            forall|j: int| 0 <= j < i ==> #[trigger] price@.sell[j] == target.sell[j],
            forall|j: int| i <= j < NUM_ITEM ==> #[trigger] price@.update[j] == p0.update[j],
            forall|j: int| i <= j < NUM_ITEM ==> #[trigger] price@.buy[j] == p0.buy[j],
            forall|j: int| i <= j < NUM_ITEM ==> #[trigger] price@.sell[j] == p0.sell[j],
        decreases NUM_ITEM - i,
    {
        if price.update[i] {
            price.buy[i] = monus_u16(currency, levels.gain[i]);
            price.sell[i] = monus_u16(levels.loss[i], currency);
            price.update[i] = false;
        }
        i = i + 1;
    }
    proof {
        assert(price@.update =~= target.update);
        assert(price@.buy =~= target.buy);
        assert(price@.sell =~= target.sell);
    }
}

/// Running the engine twice in succession yields the record that one run
/// yields; and when every flag is set again between the two runs, the
/// quotes still come out the same, as they depend on the holdings alone.
pub proof fn law_refresh_twice(p: PriceView, currency: u16, gain: Seq<u16>, loss: Seq<u16>)
    requires
        price_wf(p),
    ensures
        refreshed(refreshed(p, currency, gain, loss), currency, gain, loss)
            == refreshed(p, currency, gain, loss),
        all_dirty(p) == p ==> {
            let once = refreshed(p, currency, gain, loss);
            let again = refreshed(all_dirty(once), currency, gain, loss);
            again.buy == once.buy && again.sell == once.sell
        },
{
    let once = refreshed(p, currency, gain, loss);
    let twice = refreshed(once, currency, gain, loss);
    assert(twice.update =~= once.update);
    assert(twice.buy =~= once.buy);
    assert(twice.sell =~= once.sell);
    if all_dirty(p) == p {
        let again = refreshed(all_dirty(once), currency, gain, loss);
        assert forall|i: int| 0 <= i < NUM_ITEM implies p.update[i] by {
            assert(all_dirty(p).update[i]);
        }
        assert(again.buy =~= once.buy);
        assert(again.sell =~= once.sell);
    }
}

/// Quotes do not depend on the quotes they replace: two records with every
/// flag set come out of the engine with the same quotes for every
/// non-currency good.
pub proof fn law_quotes_from_holdings(p: PriceView, q: PriceView, currency: u16, gain: Seq<u16>, loss: Seq<u16>)
    requires
        price_wf(p),
        price_wf(q),
        forall|i: int| 0 <= i < NUM_ITEM ==> p.update[i] && q.update[i],
    ensures
        forall|i: int| 0 <= i < NUM_ITEM && i != CURRENCY ==> {
            &&& #[trigger] refreshed(p, currency, gain, loss).buy[i] == refreshed(q, currency, gain, loss).buy[i]
            &&& refreshed(p, currency, gain, loss).sell[i] == refreshed(q, currency, gain, loss).sell[i]
        },
{
    assert forall|i: int| 0 <= i < NUM_ITEM && i != CURRENCY implies {
        &&& #[trigger] refreshed(p, currency, gain, loss).buy[i] == refreshed(q, currency, gain, loss).buy[i]
        &&& refreshed(p, currency, gain, loss).sell[i] == refreshed(q, currency, gain, loss).sell[i]
    } by {
        assert(p.update[i] && q.update[i]);
    }
}

} // verus!
