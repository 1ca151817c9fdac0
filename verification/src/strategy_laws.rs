//! What holds of the orders that the strategy asks for, in plain numbers.
use crate::decimal::{
    align, decimal_difference, decimal_product, decimal_sum, law_rounding_is_close,
    law_sign_agrees_with_number, Amount, Decimal, Price,
};
use crate::market::CurrencyPair;
use crate::orders::OrderSide;
use crate::settings::CurrencyPairSetting;
use crate::strategy::{
    amount_limit, are_ordinary, clean_currency_pair, combine_terms, diff_price, diffs,
    expired_count, is_ordinary, law_new_tracks_extremes, law_update_tracks_extremes,
    tracks_extremes, DiffPoint, PerpSpotArbStrategy, Round, StrategyState,
};
use vstd::arithmetic::power::pow;
use vstd::prelude::*;

verus! {

/// A trade is opened against the difference that is further from zero: what stands above the
/// spot price is sold, what stands below it is bought. The smallest difference decides where
/// both are equally far, and its sign where both are zero.
pub proof fn law_entry_side_goes_by_distance(min_diff: Price, max_diff: Price, side: OrderSide)
    requires
        call_ensures(PerpSpotArbStrategy::get_side_to_enter_trade, (min_diff, max_diff), side),
    ensures
        ({
            let low = min_diff.units();
            let high = max_diff.units();
            &&& low < 0 && high <= 0 ==> side == OrderSide::Buy
            &&& low <= 0 && high < 0 ==> side == OrderSide::Buy
            &&& low > 0 && high >= 0 ==> side == OrderSide::Sell
            &&& low >= 0 && high > 0 ==> side == OrderSide::Sell
            &&& low < 0 < high ==> (side == OrderSide::Buy <==> -low >= high)
            &&& high < 0 < low ==> (side == OrderSide::Sell <==> low >= -high)
            &&& low == 0 && high == 0 ==> (side == OrderSide::Buy <==> min_diff.negative())
        }),
{
    law_sign_agrees_with_number(min_diff);
    law_sign_agrees_with_number(max_diff);
}

/// Seen from the other price, a trade is opened on the other side.
pub proof fn law_entry_side_is_mirrored(
    min_diff: Price,
    max_diff: Price,
    side: OrderSide,
    mirrored_min: Price,
    mirrored_max: Price,
    mirrored_side: OrderSide,
)
    requires
        mirrored_min.units() == -max_diff.units(),
        mirrored_max.units() == -min_diff.units(),
        min_diff.units() != max_diff.units(),
        min_diff.units() != -max_diff.units(),
        call_ensures(PerpSpotArbStrategy::get_side_to_enter_trade, (min_diff, max_diff), side),
        call_ensures(
            PerpSpotArbStrategy::get_side_to_enter_trade,
            (mirrored_min, mirrored_max),
            mirrored_side,
        ),
    ensures
        mirrored_side != side,
{
    law_entry_side_goes_by_distance(min_diff, max_diff, side);
    law_entry_side_goes_by_distance(mirrored_min, mirrored_max, mirrored_side);
}

/// The next order is on the side of the larger difference while no trade is open, on the side
/// that closes the trade while one is, and there is none once the strategy has ended.
pub proof fn law_trade_side_goes_by_state(
    strategy: PerpSpotArbStrategy,
    side: Option<OrderSide>,
    entry: OrderSide,
    exit: OrderSide,
)
    requires
        call_ensures(PerpSpotArbStrategy::get_trade_side, (&strategy,), side),
        call_ensures(
            PerpSpotArbStrategy::get_side_to_enter_trade,
            (strategy.min_diff, strategy.max_diff),
            entry,
        ),
    ensures
        strategy.state == StrategyState::ToEnterTrade ==> side == Some(entry),
        strategy.state == StrategyState::ToExitTrade(exit) ==> side == Some(exit),
        strategy.state == StrategyState::End ==> side is None,
{
}

/// Of two prices and the best price of the book, an order takes the lowest to buy, rounded
/// down, and the highest to sell, rounded up.
pub proof fn law_order_takes_the_extreme(
    side: OrderSide,
    one: Price,
    other: Price,
    top: Price,
    result: (Price, Round),
)
    requires
        call_ensures(combine_terms, (side, one, other, top), result),
    ensures
        result.0 == one || result.0 == other || result.0 == top,
        side == OrderSide::Buy ==> {
            &&& result.0.units() <= one.units()
            &&& result.0.units() <= other.units()
            &&& result.0.units() <= top.units()
            &&& result.1 == Round::Floor
        },
        side == OrderSide::Sell ==> {
            &&& result.0.units() >= one.units()
            &&& result.0.units() >= other.units()
            &&& result.0.units() >= top.units()
            &&& result.1 == Round::Ceiling
        },
{
}

/// The price of an order is known exactly where each sum on the way to it is in range. What
/// is bought costs no more than the spot price with the smallest difference, less the offset,
/// nor than the spot price with the largest difference, less the threshold and the offset,
/// nor than the best price of the book, and is one of these. What is sold costs no less
/// than the spot price with the largest difference and the offset, nor than that with the
/// smallest difference, the threshold and the offset, nor than the best price of the book.
pub proof fn law_price_for_side_is_best_of_terms(
    side: OrderSide,
    spot: Price,
    top: Price,
    min_diff: Price,
    max_diff: Price,
    offset: Decimal,
    threshold: Decimal,
    result: Option<(Price, Round)>,
)
    requires
        call_ensures(
            PerpSpotArbStrategy::try_get_price_for_side,
            (side, &spot, &top, min_diff, max_diff, offset, threshold),
            result,
        ),
    ensures
        side == OrderSide::Buy ==> {
            let low = decimal_sum(spot, min_diff);
            let high = decimal_sum(spot, max_diff);
            let needed = decimal_difference(high->0, threshold);
            let one = decimal_difference(low->0, offset);
            let other = decimal_difference(needed->0, offset);
            &&& result is Some <==> low is Some && one is Some && high is Some && needed is Some
                && other is Some
            &&& result matches Some((price, rounding)) ==> {
                &&& price.units() <= one->0.units()
                &&& price.units() <= other->0.units()
                &&& price.units() <= top.units()
                &&& price == one->0 || price == other->0 || price == top
                &&& rounding == Round::Floor
            }
        },
        side == OrderSide::Sell ==> {
            let low = decimal_sum(spot, min_diff);
            let high = decimal_sum(spot, max_diff);
            let needed = decimal_sum(low->0, threshold);
            let one = decimal_sum(high->0, offset);
            let other = decimal_sum(needed->0, offset);
            &&& result is Some <==> high is Some && one is Some && low is Some && needed is Some
                && other is Some
            &&& result matches Some((price, rounding)) ==> {
                &&& price.units() >= one->0.units()
                &&& price.units() >= other->0.units()
                &&& price.units() >= top.units()
                &&& price == one->0 || price == other->0 || price == top
                &&& rounding == Round::Ceiling
            }
        },
{
}

/// Where the numbers are ordinary the price is known, and these sums are exact.
pub proof fn law_ordinary_price_is_exact(
    side: OrderSide,
    spot: Price,
    top: Price,
    min_diff: Price,
    max_diff: Price,
    offset: Decimal,
    threshold: Decimal,
    result: Option<(Price, Round)>,
)
    requires
        are_ordinary(spot, min_diff, max_diff, offset, threshold),
        is_ordinary(top, spot.scale()),
        call_ensures(
            PerpSpotArbStrategy::try_get_price_for_side,
            (side, &spot, &top, min_diff, max_diff, offset, threshold),
            result,
        ),
    ensures
        result matches Some((price, rounding)) && price.scale() == spot.scale() && {
            let (at, low, high) = (spot.signed(), min_diff.signed(), max_diff.signed());
            let (aside, needed) = (offset.signed(), threshold.signed());
            let number = price.signed();
            &&& side == OrderSide::Buy ==> {
                &&& number <= at + low - aside
                &&& number <= at + high - needed - aside
                &&& number <= top.signed()
                &&& number == at + low - aside || number == at + high - needed - aside || number
                    == top.signed()
                &&& rounding == Round::Floor
            }
            &&& side == OrderSide::Sell ==> {
                &&& number >= at + high + aside
                &&& number >= at + low + needed + aside
                &&& number >= top.signed()
                &&& number == at + high + aside || number == at + low + needed + aside || number
                    == top.signed()
                &&& rounding == Round::Ceiling
            }
        },
{
}

/// The price that takes its range for granted is the one that is given where it is in range.
pub proof fn law_both_prices_agree(
    side: OrderSide,
    spot: Price,
    top: Price,
    min_diff: Price,
    max_diff: Price,
    offset: Decimal,
    threshold: Decimal,
    tried: (Price, Round),
    given: (Price, Round),
)
    requires
        call_ensures(
            PerpSpotArbStrategy::try_get_price_for_side,
            (side, &spot, &top, min_diff, max_diff, offset, threshold),
            Some(tried),
        ),
        call_ensures(
            PerpSpotArbStrategy::get_price_for_side,
            (side, &spot, &top, min_diff, max_diff, offset, threshold),
            given,
        ),
    ensures
        tried == given,
{
}

/// While no trade is open, an order keeps the offset of entering and needs the difference that
/// a trade needs.
pub proof fn law_entering_keeps_its_margin(
    strategy: PerpSpotArbStrategy,
    side: OrderSide,
    spot: Price,
    top: Price,
    result: Option<(Price, Round)>,
    priced: Option<(Price, Round)>,
)
    requires
        strategy.state == StrategyState::ToEnterTrade,
        call_ensures(PerpSpotArbStrategy::calc_price, (&strategy, side, &spot, &top), result),
        call_ensures(
            PerpSpotArbStrategy::try_get_price_for_side,
            (
                side,
                &spot,
                &top,
                strategy.min_diff,
                strategy.max_diff,
                strategy.enter_trade_offset,
                strategy.init_trade_when_min_max_diff_exceeds,
            ),
            priced,
        ),
    ensures
        result == priced,
{
}

/// While a trade is open, an order keeps the offset of leaving and needs no difference,
/// whichever side closes the trade; the same goes for the price where the strategy has ended.
pub proof fn law_leaving_keeps_its_margin(
    strategy: PerpSpotArbStrategy,
    side: OrderSide,
    spot: Price,
    top: Price,
    nothing: Decimal,
    result: Option<(Price, Round)>,
    priced: Option<(Price, Round)>,
)
    requires
        strategy.state != StrategyState::ToEnterTrade,
        call_ensures(Decimal::new, (0i64, 0u32), nothing),
        call_ensures(PerpSpotArbStrategy::calc_price, (&strategy, side, &spot, &top), result),
        call_ensures(
            PerpSpotArbStrategy::try_get_price_for_side,
            (
                side,
                &spot,
                &top,
                strategy.min_diff,
                strategy.max_diff,
                strategy.exit_trade_offset,
                nothing,
            ),
            priced,
        ),
    ensures
        nothing.signed() == 0,
        result == priced,
{
}

/// While a trade is open, neither the offset of entering nor the difference that a trade needs
/// bears on the price: two strategies that differ in nothing else, or only in the side that
/// closes their trade, have the same one.
pub proof fn law_leaving_ignores_entering(
    one: PerpSpotArbStrategy,
    other: PerpSpotArbStrategy,
    side: OrderSide,
    spot: Price,
    top: Price,
    one_result: Option<(Price, Round)>,
    other_result: Option<(Price, Round)>,
)
    requires
        one.state != StrategyState::ToEnterTrade,
        other.state != StrategyState::ToEnterTrade,
        one.min_diff == other.min_diff,
        one.max_diff == other.max_diff,
        one.exit_trade_offset == other.exit_trade_offset,
        call_ensures(PerpSpotArbStrategy::calc_price, (&one, side, &spot, &top), one_result),
        call_ensures(PerpSpotArbStrategy::calc_price, (&other, side, &spot, &top), other_result),
    ensures
        one_result == other_result,
{
}

/// Where the numbers are ordinary whole ones, a trade is left by buying at the spot price with
/// the smallest difference, less the offset of leaving, but not above the best price of the
/// book, or by selling at that with the largest difference and the offset, but not below it.
pub proof fn law_leaving_price_is_exact(
    strategy: PerpSpotArbStrategy,
    side: OrderSide,
    spot: Price,
    top: Price,
    result: Option<(Price, Round)>,
)
    requires
        strategy.state != StrategyState::ToEnterTrade,
        spot.scale() == 0,
        are_ordinary(
            spot,
            strategy.min_diff,
            strategy.max_diff,
            strategy.exit_trade_offset,
            strategy.exit_trade_offset,
        ),
        is_ordinary(top, 0),
        strategy.min_diff.signed() <= strategy.max_diff.signed(),
        call_ensures(PerpSpotArbStrategy::calc_price, (&strategy, side, &spot, &top), result),
    ensures
        result matches Some((price, _)) && price.scale() == 0 && {
            let aside = strategy.exit_trade_offset.signed();
            let bought = spot.signed() + strategy.min_diff.signed() - aside;
            let sold = spot.signed() + strategy.max_diff.signed() + aside;
            &&& side == OrderSide::Buy ==> price.signed() == (if bought <= top.signed() {
                bought
            } else {
                top.signed()
            })
            &&& side == OrderSide::Sell ==> price.signed() == (if sold >= top.signed() {
                sold
            } else {
                top.signed()
            })
        },
{
}

/// The next order, if there is one, is on the side that the state asks for and does not cross
/// its own side of the book: what is bought is held against the best bid, what is sold against
/// the best ask.
pub proof fn law_next_order_fits_the_book(
    strategy: PerpSpotArbStrategy,
    top_ask: Price,
    top_bid: Price,
    spot: Price,
    exit: OrderSide,
)
    ensures
        strategy.state == StrategyState::End ==> strategy.next_order(top_ask, top_bid, spot)
            == Some(None::<(OrderSide, Price, Round)>),
        strategy.state != StrategyState::End ==> strategy.next_order(top_ask, top_bid, spot)
            != Some(None::<(OrderSide, Price, Round)>),
        strategy.next_order(top_ask, top_bid, spot) matches Some(Some((side, price, rounding)))
            ==> {
            &&& strategy.state == StrategyState::ToExitTrade(exit) ==> side == exit
            &&& side == OrderSide::Buy ==> price.units() <= top_bid.units() && rounding
                == Round::Floor
            &&& side == OrderSide::Sell ==> price.units() >= top_ask.units() && rounding
                == Round::Ceiling
        },
{
}

/// The next order is the side and the price that the strategy gives when it is asked for them
/// one by one, and it is unknown only where that price is.
pub proof fn law_next_order_is_side_and_price(
    strategy: PerpSpotArbStrategy,
    top_ask: Price,
    top_bid: Price,
    spot: Price,
    side: OrderSide,
    to_buy: Option<(Price, Round)>,
    to_sell: Option<(Price, Round)>,
)
    requires
        call_ensures(PerpSpotArbStrategy::get_trade_side, (&strategy,), Some(side)),
        call_ensures(
            PerpSpotArbStrategy::calc_price,
            (&strategy, OrderSide::Buy, &spot, &top_bid),
            to_buy,
        ),
        call_ensures(
            PerpSpotArbStrategy::calc_price,
            (&strategy, OrderSide::Sell, &spot, &top_ask),
            to_sell,
        ),
    ensures
        ({
            let order = strategy.next_order(top_ask, top_bid, spot);
            let expected = if side == OrderSide::Buy {
                to_buy
            } else {
                to_sell
            };
            &&& order is Some <==> expected is Some
            &&& expected matches Some((price, rounding)) ==> order == Some(
                Some((side, price, rounding)),
            )
        }),
{
}

/// The difference is what the ask lies above the spot price, to within half of a tenth, and
/// exactly that where the prices have no more than one digit behind the decimal point.
pub proof fn law_diff_price_is_close(ask: Price, spot: Price, diff: Option<Price>)
    requires
        align(ask, spot),
        ask.scale() <= 28,
        call_ensures(diff_price, (ask, spot), diff),
    ensures
        diff matches Some(rounded) && rounded.scale() <= 1 && {
            let off = rounded.units() - (ask.units() - spot.units());
            &&& -pow(10, 27) <= 2 * off <= pow(10, 27)
            &&& ask.scale() <= 1 ==> off == 0
        },
{
    let difference = decimal_difference(ask, spot)->0;
    law_rounding_is_close(diff->0, difference, 1);
    let unit = pow(10, (28 - ask.scale()) as nat);
    let (a, b) = (ask.signed(), spot.signed());
    assert((a - b) * unit == a * unit - b * unit) by (nonlinear_arith);
}

/// The limit is the product of the largest amount and one half.
pub proof fn law_amount_limit_is_half(max_amount: Amount, half: Decimal, limit: Option<Amount>)
    requires
        call_ensures(Decimal::new, (5i64, 1u32), half),
        call_ensures(amount_limit, (max_amount,), limit),
    ensures
        2 * half.units() == pow(10, 28),
        limit == decimal_product(max_amount, half),
{
    vstd::arithmetic::power::lemma_pow_adds(10, 1, 27);
    vstd::arithmetic::power::lemma_pow1(10);
}

/// The history changes just where the difference is not the number that was seen last. Then
/// the points that have been kept for long enough leave it from the front, up to the first
/// that has not, and the new one joins it. Nothing but the history and its extremes changes.
pub proof fn law_update_keeps_recent_points(
    before: PerpSpotArbStrategy,
    after: PerpSpotArbStrategy,
    now: u64,
    new_diff_price: Price,
    changed: bool,
)
    requires
        after.updates(&before, now, new_diff_price, changed),
    ensures
        ({
            let points = before.diff_prices_interval@;
            let kept_for = before.diff_history_kept_for_secs * 1_000_000_000;
            &&& changed <==> points.len() == 0 || points.last().diff.units()
                != new_diff_price.units()
            &&& !changed ==> after == before
            &&& changed ==> exists|count: int|
                {
                    &&& 0 <= count <= points.len()
                    &&& after.diff_prices_interval@ == #[trigger] points.skip(count).push(
                        DiffPoint { time: now, diff: new_diff_price },
                    )
                    &&& forall|i: int|
                        0 <= i < count ==> kept_for == 0 || now - (#[trigger] points[i]).time
                            >= kept_for
                    &&& count < points.len() ==> kept_for > 0 && now - points[count].time < kept_for
                }
            &&& after.enter_trade_offset == before.enter_trade_offset
            &&& after.exit_trade_offset == before.exit_trade_offset
            &&& after.max_amount == before.max_amount
            &&& after.diff_history_kept_for_secs == before.diff_history_kept_for_secs
            &&& after.init_trade_when_min_max_diff_exceeds
                == before.init_trade_when_min_max_diff_exceeds
            &&& after.state == before.state
        }),
{
    if changed {
        let points = before.diff_prices_interval@;
        let count = choose|count: int|
            {
                &&& #[trigger] expired_count(
                    before.diff_prices_interval@,
                    now,
                    before.diff_history_kept_for_secs,
                    count,
                )
                &&& after.diff_prices_interval@ == points.skip(count).push(
                    DiffPoint { time: now, diff: new_diff_price },
                )
            };
        let kept_for = before.diff_history_kept_for_secs * 1_000_000_000;
        assert forall|i: int| 0 <= i < count implies kept_for == 0 || now - (
        #[trigger] points[i]).time >= kept_for by {
            assert(crate::strategy::is_expired(
                points[i],
                now,
                before.diff_history_kept_for_secs,
            ));
        }
        assert(after.diff_prices_interval@ == points.skip(count).push(
            DiffPoint { time: now, diff: new_diff_price },
        ));
    }
}

/// The extremes that a strategy keeps are the extremes of the differences it remembers: none of
/// these lies beyond them, and each of them is one of these.
pub proof fn law_update_keeps_extremes(
    before: PerpSpotArbStrategy,
    after: PerpSpotArbStrategy,
    now: u64,
    new_diff_price: Price,
)
    requires
        tracks_extremes(before),
        new_diff_price.wf(),
        after.updates(&before, now, new_diff_price, true),
    ensures
        ({
            let points = after.diff_prices_interval@;
            &&& points.len() > 0 && points.last().diff == new_diff_price && points.last().time
                == now
            &&& forall|i: int|
                0 <= i < points.len() ==> after.min_diff.units() <= (
                #[trigger] points[i]).diff.units() <= after.max_diff.units()
            &&& exists|i: int|
                0 <= i < points.len() && (#[trigger] points[i]).diff.units()
                    == after.max_diff.units()
            &&& exists|i: int|
                0 <= i < points.len() && (#[trigger] points[i]).diff.units()
                    == after.min_diff.units()
        }),
{
    law_update_tracks_extremes(before, after, now, new_diff_price, true);
    law_update_keeps_recent_points(before, after, now, new_diff_price, true);
    let points = after.diff_prices_interval@;
    let prices = diffs(points);
    assert forall|i: int| 0 <= i < points.len() implies after.min_diff.units() <= (
    #[trigger] points[i]).diff.units() <= after.max_diff.units() by {
        assert(prices[i] == points[i].diff);
    }
    let largest = choose|i: int|
        0 <= i < prices.len() && (#[trigger] prices[i]).same_number(after.max_diff);
    assert(points[largest].diff.units() == after.max_diff.units());
    let smallest = choose|i: int|
        0 <= i < prices.len() && (#[trigger] prices[i]).same_number(after.min_diff);
    assert(points[smallest].diff.units() == after.min_diff.units());
}

/// A new strategy holds what it was made with, waits for a trade to open and remembers no
/// difference, so that the first one it sees is both the smallest and the largest.
pub proof fn law_new_strategy_has_seen_nothing(
    enter_trade_offset: Decimal,
    exit_trade_offset: Decimal,
    max_amount: Amount,
    kept_for_secs: u64,
    threshold: Price,
    new: PerpSpotArbStrategy,
    after: PerpSpotArbStrategy,
    now: u64,
    diff: Price,
    changed: bool,
)
    requires
        diff.wf(),
        call_ensures(
            PerpSpotArbStrategy::new,
            (enter_trade_offset, exit_trade_offset, max_amount, kept_for_secs, threshold),
            new,
        ),
        after.updates(&new, now, diff, changed),
    ensures
        new.enter_trade_offset == enter_trade_offset,
        new.exit_trade_offset == exit_trade_offset,
        new.max_amount == max_amount,
        new.diff_history_kept_for_secs == kept_for_secs,
        new.init_trade_when_min_max_diff_exceeds == threshold,
        new.state == StrategyState::ToEnterTrade,
        new.diff_prices_interval@.len() == 0,
        tracks_extremes(new),
        changed,
        after.diff_prices_interval@.len() == 1,
        after.min_diff.units() == diff.units(),
        after.max_diff.units() == diff.units(),
{
    law_new_tracks_extremes(new);
    law_update_keeps_recent_points(new, after, now, diff, changed);
    law_update_keeps_extremes(new, after, now, diff);
}

/// Whatever the strategy waits for, the prices of the moment enter its history before the next
/// order is taken from it. Nothing changes, and no order is known, where their difference is
/// out of range.
pub proof fn law_prices_enter_history_first(
    before: PerpSpotArbStrategy,
    after: PerpSpotArbStrategy,
    now: u64,
    top_ask: Price,
    top_bid: Price,
    spot: Price,
    order: Option<Option<(OrderSide, Price, Round)>>,
)
    requires
        after.orders(&before, now, top_ask, top_bid, spot, order),
    ensures
        decimal_difference(top_ask, spot) is None ==> order is None && after == before,
        decimal_difference(top_ask, spot) matches Some(difference) ==> {
            &&& after.diff_prices_interval@.len() > 0
            &&& order == after.next_order(top_ask, top_bid, spot)
            &&& after.state == before.state
            &&& difference.scale() <= 28 ==> {
                let off = after.diff_prices_interval@.last().diff.units() - difference.units();
                -pow(10, 27) <= 2 * off <= pow(10, 27)
            }
        },
{
    if let Some(difference) = decimal_difference(top_ask, spot) {
        let (diff, changed) = choose|diff: Price, changed: bool|
            diff.is_rounded(difference, 1) && #[trigger] after.updates(&before, now, diff, changed);
        law_update_keeps_recent_points(before, after, now, diff, changed);
        if difference.scale() <= 28 {
            law_rounding_is_close(diff, difference, 1);
        }
    }
}

/// A complete fill that opens a trade on one side leaves the other side to close it, and one
/// that closes a trade leaves the next one to be opened. A partial fill changes nothing, and
/// neither does any fill once the strategy has ended.
pub proof fn law_fills_turn_the_trade(
    before: PerpSpotArbStrategy,
    after: PerpSpotArbStrategy,
    is_completed: bool,
    side: OrderSide,
    exit: OrderSide,
)
    requires
        after.fills(&before, is_completed, side),
    ensures
        !is_completed ==> after == before,
        before.state == StrategyState::End ==> after == before,
        is_completed && before.state == StrategyState::ToEnterTrade && side == OrderSide::Buy
            ==> after.state == StrategyState::ToExitTrade(OrderSide::Sell),
        is_completed && before.state == StrategyState::ToEnterTrade && side == OrderSide::Sell
            ==> after.state == StrategyState::ToExitTrade(OrderSide::Buy),
        is_completed && before.state == StrategyState::ToExitTrade(exit) ==> after.state
            == StrategyState::ToEnterTrade,
        after.diff_prices_interval@ == before.diff_prices_interval@,
        after.min_diff == before.min_diff && after.max_diff == before.max_diff,
        after.enter_trade_offset == before.enter_trade_offset,
        after.exit_trade_offset == before.exit_trade_offset,
        after.max_amount == before.max_amount,
        after.diff_history_kept_for_secs == before.diff_history_kept_for_secs,
        after.init_trade_when_min_max_diff_exceeds == before.init_trade_when_min_max_diff_exceeds,
{
}

/// A pair that is set by its codes is the pair of these codes, the base before the quote.
pub proof fn law_clean_pair_keeps_codes(setting: CurrencyPairSetting, pair: CurrencyPair)
    requires
        setting is Ordinary,
        call_ensures(clean_currency_pair, (&setting,), pair),
    ensures
        setting == (CurrencyPairSetting::Ordinary { base: pair.base, quote: pair.quote }),
{
}

} // verus!
