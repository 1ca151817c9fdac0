//! Trading a perpetual contract against the spot price that it follows.
use crate::decimal::{
    decimal_difference, decimal_product, decimal_sum, law_range, law_sign_agrees_with_number,
    Amount, Decimal, Price,
};
use crate::market::{CurrencyCode, CurrencyPair};
use crate::orders::OrderSide;
use crate::settings::CurrencyPairSetting;
use vstd::prelude::*;

verus! {

/// What the strategy waits for.
#[derive(Debug, Clone, Copy, PartialEq, Eq, Structural)]
pub enum StrategyState {
    ToEnterTrade,
    /// The trade is open and is closed by an order on this side.
    ToExitTrade(OrderSide),
    End,
}

/// Which way a price is brought to the steps of the market.
#[derive(Debug, Clone, Copy, PartialEq, Eq, Structural)]
pub enum Round {
    Floor,
    Ceiling,
}

/// The difference between the two prices at a moment of a clock that never goes back.
#[derive(Debug, Clone, Copy, PartialEq, Eq)]
pub struct DiffPoint {
    /// Nanoseconds on that clock.
    pub time: u64,
    pub diff: Price,
}

/// The currency pair that the setting gives by its codes.
pub fn clean_currency_pair(setting: &CurrencyPairSetting) -> (pair: CurrencyPair)
    requires
        setting is Ordinary,
    ensures
        pair == (CurrencyPair { base: setting->base, quote: setting->quote }),
{
    match setting {
        CurrencyPairSetting::Ordinary { base, quote } => CurrencyPair::from_codes(
            base.clone(),
            quote.clone(),
        ),
        CurrencyPairSetting::Specific(_) => CurrencyPair::from_codes(
            CurrencyCode::new(""),
            CurrencyCode::new(""),
        ),
    }
}

/// The differences alone.
pub open spec fn diffs(points: Seq<DiffPoint>) -> Seq<Price> {
    points.map_values(|point: DiffPoint| point.diff)
}

/// The last of the largest numbers, or the smallest decimal number where there is none.
pub open spec fn last_largest(prices: Seq<Price>) -> Price
    decreases prices.len(),
{
    if prices.len() == 0 {
        Decimal::smallest()
    } else if prices.len() == 1 || !prices.last().less(last_largest(prices.drop_last())) {
        prices.last()
    } else {
        last_largest(prices.drop_last())
    }
}

/// The first of the smallest numbers, or the largest decimal number where there is none.
pub open spec fn first_smallest(prices: Seq<Price>) -> Price
    decreases prices.len(),
{
    if prices.len() == 0 {
        Decimal::largest()
    } else if prices.len() == 1 || prices.last().less(first_smallest(prices.drop_last())) {
        prices.last()
    } else {
        first_smallest(prices.drop_last())
    }
}

/// The point has been kept for as long as points are kept.
pub open spec fn is_expired(point: DiffPoint, now: u64, kept_for_secs: u64) -> bool {
    let elapsed: int = if point.time <= now {
        now - point.time
    } else {
        0
    };
    elapsed >= kept_for_secs * 1_000_000_000
}

/// `count` points at the front have expired and the next one, if there is one, has not.
pub open spec fn expired_count(
    points: Seq<DiffPoint>,
    now: u64,
    kept_for_secs: u64,
    count: int,
) -> bool {
    &&& 0 <= count <= points.len()
    &&& forall|i: int| 0 <= i < count ==> is_expired(#[trigger] points[i], now, kept_for_secs)
    &&& count < points.len() ==> !is_expired(points[count], now, kept_for_secs)
}

/// Half of the largest amount: an order may turn the position from the limit on one side to
/// that on the other. `None` where the product is out of range.
pub fn amount_limit(max_amount: Amount) -> (limit: Option<Amount>)
    ensures
        limit == decimal_product(max_amount, Decimal::of(5, 1)),
{
    let half = Decimal::new(5, 1);
    max_amount.checked_mul(&half)
}

/// How far the perpetual contract stands above the spot price, to one digit behind the
/// decimal point. `None` where the difference is out of range.
pub fn diff_price(trading_top_ask: Price, following_spot_price: Price) -> (diff: Option<Price>)
    ensures
        match decimal_difference(trading_top_ask, following_spot_price) {
            None => diff is None,
            Some(difference) => diff matches Some(rounded) && rounded.is_rounded(difference, 1),
        },
        crate::decimal::align(trading_top_ask, following_spot_price) ==> {
            &&& diff is Some
            &&& decimal_difference(trading_top_ask, following_spot_price) matches Some(difference)
            &&& difference.scale() == trading_top_ask.scale()
            &&& difference.signed() == trading_top_ask.signed() - following_spot_price.signed()
        },
{
    match trading_top_ask.checked_sub(&following_spot_price) {
        None => None,
        Some(difference) => Some(difference.round_dp(1)),
    }
}

/// The last of the largest differences among `points[from..to]`.
fn largest_diff(points: &Vec<DiffPoint>, from: usize, to: usize) -> (largest: Price)
    requires
        from <= to <= points@.len(),
    ensures
        largest == last_largest(diffs(points@.subrange(from as int, to as int))),
{
    if from == to {
        return Decimal::min_value();
    }
    let mut largest = points[from].diff;
    let mut i: usize = from + 1;
    while i < to
        invariant
            from < i <= to <= points@.len(),
            largest == last_largest(diffs(points@.subrange(from as int, i as int))),
        decreases to - i,
    {
        proof {
            let longer = diffs(points@.subrange(from as int, i + 1));
            assert(longer.drop_last() =~= diffs(points@.subrange(from as int, i as int)));
        }
        if !points[i].diff.is_less(&largest) {
            largest = points[i].diff;
        }
        i = i + 1;
    }
    largest
}

/// The first of the smallest differences among `points[from..to]`.
fn smallest_diff(points: &Vec<DiffPoint>, from: usize, to: usize) -> (smallest: Price)
    requires
        from <= to <= points@.len(),
    ensures
        smallest == first_smallest(diffs(points@.subrange(from as int, to as int))),
{
    if from == to {
        return Decimal::max_value();
    }
    let mut smallest = points[from].diff;
    let mut i: usize = from + 1;
    while i < to
        invariant
            from < i <= to <= points@.len(),
            smallest == first_smallest(diffs(points@.subrange(from as int, i as int))),
        decreases to - i,
    {
        proof {
            let longer = diffs(points@.subrange(from as int, i + 1));
            assert(longer.drop_last() =~= diffs(points@.subrange(from as int, i as int)));
        }
        if points[i].diff.is_less(&smallest) {
            smallest = points[i].diff;
        }
        i = i + 1;
    }
    smallest
}

/// The strategy: what it was configured with, what it remembers and what it waits for.
#[derive(Debug, Clone)]
pub struct PerpSpotArbStrategy {
    pub enter_trade_offset: Decimal,
    pub exit_trade_offset: Decimal,
    pub max_amount: Amount,
    pub diff_history_kept_for_secs: u64,
    pub init_trade_when_min_max_diff_exceeds: Price,
    /// The differences of late, oldest first.
    pub diff_prices_interval: Vec<DiffPoint>,
    pub max_diff: Price,
    pub min_diff: Price,
    pub state: StrategyState,
}

/// The price of a buy order: below the spot price by the smallest difference, below it by the
/// largest one less the difference that a trade needs, and not above the best bid.
pub open spec fn buy_terms(
    spot: Price,
    min_diff: Price,
    max_diff: Price,
    offset: Decimal,
    threshold: Decimal,
) -> (Option<Price>, Option<Price>) {
    (
        minus(decimal_sum(spot, min_diff), offset),
        minus(minus(decimal_sum(spot, max_diff), threshold), offset),
    )
}

/// The price of a sell order: above the spot price by the largest difference, above it by
/// the smallest one and the difference that a trade needs, and not below the best ask.
pub open spec fn sell_terms(
    spot: Price,
    min_diff: Price,
    max_diff: Price,
    offset: Decimal,
    threshold: Decimal,
) -> (Option<Price>, Option<Price>) {
    (
        plus(decimal_sum(spot, max_diff), offset),
        plus(plus(decimal_sum(spot, min_diff), threshold), offset),
    )
}

/// A sum that may be out of range, plus a number.
pub open spec fn plus(number: Option<Decimal>, other: Decimal) -> Option<Decimal> {
    match number {
        None => None,
        Some(number) => decimal_sum(number, other),
    }
}

/// A sum that may be out of range, minus a number.
pub open spec fn minus(number: Option<Decimal>, other: Decimal) -> Option<Decimal> {
    match number {
        None => None,
        Some(number) => decimal_difference(number, other),
    }
}

/// The two prices that the best price of the book is held against.
pub open spec fn terms(
    side: OrderSide,
    spot: Price,
    min_diff: Price,
    max_diff: Price,
    offset: Decimal,
    threshold: Decimal,
) -> (Option<Price>, Option<Price>) {
    match side {
        OrderSide::Buy => buy_terms(spot, min_diff, max_diff, offset, threshold),
        OrderSide::Sell => sell_terms(spot, min_diff, max_diff, offset, threshold),
    }
}

/// The price and its rounding, from the two terms and the best price of the book.
pub open spec fn price_from_terms(side: OrderSide, one: Price, other: Price, top: Price) -> (
    Price,
    Round,
) {
    match side {
        OrderSide::Buy => (one.lesser(other).lesser(top), Round::Floor),
        OrderSide::Sell => (one.greater(other).greater(top), Round::Ceiling),
    }
}

/// The price and its rounding, from the two terms and the best price of the book.
pub fn combine_terms(side: OrderSide, one: Price, other: Price, top: Price) -> (result: (
    Price,
    Round,
))
    ensures
        result == price_from_terms(side, one, other, top),
{
    match side {
        OrderSide::Buy => (one.min(other).min(top), Round::Floor),
        OrderSide::Sell => (one.max(other).max(top), Round::Ceiling),
    }
}

/// A number of up to sixty bits with `scale` digits behind the decimal point.
pub open spec fn is_ordinary(number: Decimal, scale: u32) -> bool {
    number.scale() == scale && number.mantissa() < 0x1000_0000_0000_0000
}

/// All five numbers that an order's price is made of are ordinary, with as many digits behind
/// the decimal point.
pub open spec fn are_ordinary(
    spot: Price,
    min_diff: Price,
    max_diff: Price,
    offset: Decimal,
    threshold: Decimal,
) -> bool {
    &&& is_ordinary(spot, spot.scale())
    &&& is_ordinary(min_diff, spot.scale())
    &&& is_ordinary(max_diff, spot.scale())
    &&& is_ordinary(offset, spot.scale())
    &&& is_ordinary(threshold, spot.scale())
}

/// Where numbers are ordinary, an order's price is this number, in units of their last place.
pub open spec fn exact_price(
    side: OrderSide,
    spot: int,
    top: int,
    min_diff: int,
    max_diff: int,
    offset: int,
    threshold: int,
) -> int {
    match side {
        OrderSide::Buy => vstd::math::min(
            vstd::math::min(spot + min_diff - offset, spot + max_diff - threshold - offset),
            top,
        ),
        OrderSide::Sell => vstd::math::max(
            vstd::math::max(spot + max_diff + offset, spot + min_diff + threshold + offset),
            top,
        ),
    }
}

/// Numbers with as many digits behind the decimal point compare by their digits.
proof fn lemma_less_aligned(a: Decimal, b: Decimal)
    requires
        a.scale() == b.scale(),
    ensures
        a.less(b) == (a.signed() < b.signed()),
{
    let power = (crate::decimal::MAX_SCALE - a.scale()) as nat;
    vstd::arithmetic::power::lemma_pow_positive(10, power);
    let unit = vstd::arithmetic::power::pow(10, power);
    let x = a.signed();
    let y = b.signed();
    assert((x * unit < y * unit) == (x < y)) by (nonlinear_arith)
        requires
            unit > 0,
    ;
}

/// The two prices that the best price of the book is held against, where all sums on the way
/// are in range.
fn compute_terms(
    side: OrderSide,
    spot: &Price,
    min_diff: &Price,
    max_diff: &Price,
    offset: &Decimal,
    threshold: &Decimal,
) -> (result: (Option<Price>, Option<Price>))
    ensures
        result == terms(side, *spot, *min_diff, *max_diff, *offset, *threshold),
        are_ordinary(*spot, *min_diff, *max_diff, *offset, *offset) ==> {
            &&& result.0 is Some
            &&& result.0->0.scale() == spot.scale()
            &&& side == OrderSide::Buy ==> result.0->0.signed() == spot.signed()
                + min_diff.signed() - offset.signed()
            &&& side == OrderSide::Sell ==> result.0->0.signed() == spot.signed()
                + max_diff.signed() + offset.signed()
        },
        are_ordinary(*spot, *min_diff, *max_diff, *offset, *threshold) ==> {
            &&& result.0 is Some
            &&& result.1 is Some
            &&& result.0->0.scale() == spot.scale()
            &&& result.1->0.scale() == spot.scale()
            &&& side == OrderSide::Buy ==> {
                &&& result.0->0.signed() == spot.signed() + min_diff.signed() - offset.signed()
                &&& result.1->0.signed() == spot.signed() + max_diff.signed()
                    - threshold.signed() - offset.signed()
            }
            &&& side == OrderSide::Sell ==> {
                &&& result.0->0.signed() == spot.signed() + max_diff.signed() + offset.signed()
                &&& result.1->0.signed() == spot.signed() + min_diff.signed()
                    + threshold.signed() + offset.signed()
            }
        },
{
    match side {
        OrderSide::Buy => (
            checked_minus(spot.checked_add(min_diff), offset),
            checked_minus(checked_minus(spot.checked_add(max_diff), threshold), offset),
        ),
        OrderSide::Sell => (
            checked_plus(spot.checked_add(max_diff), offset),
            checked_plus(checked_plus(spot.checked_add(min_diff), threshold), offset),
        ),
    }
}

fn checked_plus(number: Option<Decimal>, other: &Decimal) -> (sum: Option<Decimal>)
    ensures
        sum == plus(number, *other),
        number is Some && crate::decimal::align(number->0, *other) ==> {
            &&& sum is Some
            &&& sum->0.scale() == other.scale()
            &&& sum->0.signed() == number->0.signed() + other.signed()
        },
{
    match number {
        None => None,
        Some(number) => number.checked_add(other),
    }
}

fn checked_minus(number: Option<Decimal>, other: &Decimal) -> (difference: Option<Decimal>)
    ensures
        difference == minus(number, *other),
        number is Some && crate::decimal::align(number->0, *other) ==> {
            &&& difference is Some
            &&& difference->0.scale() == other.scale()
            &&& difference->0.signed() == number->0.signed() - other.signed()
        },
{
    match number {
        None => None,
        Some(number) => number.checked_sub(other),
    }
}

impl PerpSpotArbStrategy {
    /// A strategy that has seen no price.
    pub fn new(
        enter_trade_offset: Decimal,
        exit_trade_offset: Decimal,
        max_amount: Amount,
        diff_history_kept_for_secs: u64,
        init_trade_when_min_max_diff_exceeds: Price,
    ) -> (strategy: PerpSpotArbStrategy)
        ensures
            strategy.enter_trade_offset == enter_trade_offset,
            strategy.exit_trade_offset == exit_trade_offset,
            strategy.max_amount == max_amount,
            strategy.diff_history_kept_for_secs == diff_history_kept_for_secs,
            strategy.init_trade_when_min_max_diff_exceeds == init_trade_when_min_max_diff_exceeds,
            strategy.diff_prices_interval@ == Seq::<DiffPoint>::empty(),
            strategy.max_diff == Decimal::smallest(),
            strategy.min_diff == Decimal::largest(),
            strategy.state == StrategyState::ToEnterTrade,
    {
        PerpSpotArbStrategy {
            enter_trade_offset,
            exit_trade_offset,
            max_amount,
            diff_history_kept_for_secs,
            init_trade_when_min_max_diff_exceeds,
            diff_prices_interval: Vec::new(),
            max_diff: Decimal::min_value(),
            min_diff: Decimal::max_value(),
            state: StrategyState::ToEnterTrade,
        }
    }

    /// `self` is what `before` becomes, and `changed` the answer, when the difference is
    /// `new_diff_price` at `now`.
    pub open spec fn updates(
        &self,
        before: &PerpSpotArbStrategy,
        now: u64,
        new_diff_price: Price,
        changed: bool,
    ) -> bool {
        let points = before.diff_prices_interval@;
        &&& changed == !(points.len() > 0 && points.last().diff.same_number(new_diff_price))
        &&& !changed ==> *self == *before
        &&& changed ==> exists|count: int|
            {
                let removed = diffs(points.take(count));
                let remaining = diffs(points.skip(count));
                &&& #[trigger] expired_count(
                    before.diff_prices_interval@,
                    now,
                    before.diff_history_kept_for_secs,
                    count,
                )
                &&& self.diff_prices_interval@ == points.skip(count).push(
                    DiffPoint { time: now, diff: new_diff_price },
                )
                &&& self.max_diff == (if last_largest(removed).less(before.max_diff) {
                    before.max_diff
                } else {
                    last_largest(remaining)
                }).greater(new_diff_price)
                &&& self.min_diff == (if before.min_diff.less(first_smallest(removed)) {
                    before.min_diff
                } else {
                    first_smallest(remaining)
                }).lesser(new_diff_price)
            }
        &&& *self == (PerpSpotArbStrategy {
            diff_prices_interval: self.diff_prices_interval,
            max_diff: self.max_diff,
            min_diff: self.min_diff,
            ..*before
        })
    }

    /// Remembers a new difference, unless it is the last one again, and forgets those that
    /// have expired. Answers whether the difference was new.
    pub fn update_diff_price_history(&mut self, now: u64, new_diff_price: Price) -> (changed: bool)
        ensures
            final(self).updates(old(self), now, new_diff_price, changed),
    {
        let total: usize = self.diff_prices_interval.len();
        if total > 0 && self.diff_prices_interval[total - 1].diff == new_diff_price {
            return false;
        }
        let kept_for: u128 = self.diff_history_kept_for_secs as u128 * 1_000_000_000;
        let mut count: usize = 0;
        while count < total && (now.saturating_sub(self.diff_prices_interval[count].time) as u128)
            >= kept_for
            invariant
                *self == *old(self),
                total == self.diff_prices_interval@.len(),
                count <= total,
                kept_for == self.diff_history_kept_for_secs * 1_000_000_000,
                forall|i: int|
                    0 <= i < count ==> is_expired(
                        #[trigger] self.diff_prices_interval@[i],
                        now,
                        self.diff_history_kept_for_secs,
                    ),
            decreases total - count,
        {
            count = count + 1;
        }
        let ghost points = self.diff_prices_interval@;
        assert(points.subrange(0, count as int) =~= points.take(count as int));
        assert(points.subrange(count as int, total as int) =~= points.skip(count as int));
        let max_diff_to_remove = largest_diff(&self.diff_prices_interval, 0, count);
        let min_diff_to_remove = smallest_diff(&self.diff_prices_interval, 0, count);
        if !max_diff_to_remove.is_less(&self.max_diff) {
            self.max_diff = largest_diff(&self.diff_prices_interval, count, total);
        }
        if !self.min_diff.is_less(&min_diff_to_remove) {
            self.min_diff = smallest_diff(&self.diff_prices_interval, count, total);
        }
        let mut remaining: Vec<DiffPoint> = Vec::new();
        let mut i: usize = count;
        while i < total
            invariant
                count <= i <= total,
                total == self.diff_prices_interval@.len(),
                self.diff_prices_interval@ == points,
                remaining@ == points.subrange(count as int, i as int),
            decreases total - i,
        {
            remaining.push(self.diff_prices_interval[i]);
            i = i + 1;
            assert(remaining@ =~= points.subrange(count as int, i as int));
        }
        remaining.push(DiffPoint { time: now, diff: new_diff_price });
        self.diff_prices_interval = remaining;
        self.max_diff = self.max_diff.max(new_diff_price);
        self.min_diff = self.min_diff.min(new_diff_price);
        assert(expired_count(
            points,
            now,
            old(self).diff_history_kept_for_secs,
            count as int,
        ));
        true
    }

    /// The side on which a trade is opened: against the difference that is further from
    /// zero, the smallest one where both are equally far.
    pub fn get_side_to_enter_trade(min_diff: Price, max_diff: Price) -> (side: OrderSide)
        ensures
            side == entry_side(min_diff, max_diff),
            min_diff.units() < 0 && max_diff.units() < 0 ==> side == OrderSide::Buy,
            min_diff.units() > 0 && max_diff.units() > 0 ==> side == OrderSide::Sell,
            min_diff.units() < 0 < max_diff.units() ==> (side == OrderSide::Buy
                <==> -min_diff.units() >= max_diff.units()),
    {
        proof {
            lemma_abs_units(min_diff);
            lemma_abs_units(max_diff);
            law_sign_agrees_with_number(min_diff);
            law_sign_agrees_with_number(max_diff);
        }
        let diff = if min_diff.abs().is_less(&max_diff.abs()) {
            max_diff
        } else {
            min_diff
        };
        if diff.is_sign_positive() {
            OrderSide::Sell
        } else {
            OrderSide::Buy
        }
    }

    /// The price of an order on this side, and how it is rounded.
    pub fn get_price_for_side(
        side: OrderSide,
        following_spot_price: &Price,
        trading_top_order_book_price: &Price,
        min_diff: Price,
        max_diff: Price,
        offset: Decimal,
        init_trade_when_min_max_diff_exceeds: Decimal,
    ) -> (result: (Price, Round))
        requires
            ({
                let (one, other) = terms(
                    side,
                    *following_spot_price,
                    min_diff,
                    max_diff,
                    offset,
                    init_trade_when_min_max_diff_exceeds,
                );
                one is Some && other is Some
            }),
        ensures
            ({
                let (one, other) = terms(
                    side,
                    *following_spot_price,
                    min_diff,
                    max_diff,
                    offset,
                    init_trade_when_min_max_diff_exceeds,
                );
                result == price_from_terms(side, one->0, other->0, *trading_top_order_book_price)
            }),
    {
        let (one, other) = compute_terms(
            side,
            following_spot_price,
            &min_diff,
            &max_diff,
            &offset,
            &init_trade_when_min_max_diff_exceeds,
        );
        combine_terms(side, one.unwrap(), other.unwrap(), *trading_top_order_book_price)
    }

    /// The price of an order on this side and how it is rounded, or `None` where a sum on
    /// the way is out of range.
    pub fn try_get_price_for_side(
        side: OrderSide,
        following_spot_price: &Price,
        trading_top_order_book_price: &Price,
        min_diff: Price,
        max_diff: Price,
        offset: Decimal,
        init_trade_when_min_max_diff_exceeds: Decimal,
    ) -> (result: Option<(Price, Round)>)
        ensures
            ({
                let (one, other) = terms(
                    side,
                    *following_spot_price,
                    min_diff,
                    max_diff,
                    offset,
                    init_trade_when_min_max_diff_exceeds,
                );
                result == (if one is Some && other is Some {
                    Some(
                        price_from_terms(
                            side,
                            one->0,
                            other->0,
                            *trading_top_order_book_price,
                        ),
                    )
                } else {
                    None
                })
            }),
            are_ordinary(
                *following_spot_price,
                min_diff,
                max_diff,
                offset,
                init_trade_when_min_max_diff_exceeds,
            ) && is_ordinary(*trading_top_order_book_price, following_spot_price.scale()) ==> {
                &&& result matches Some((price, _))
                &&& price.scale() == following_spot_price.scale()
                &&& price.signed() == exact_price(
                    side,
                    following_spot_price.signed(),
                    trading_top_order_book_price.signed(),
                    min_diff.signed(),
                    max_diff.signed(),
                    offset.signed(),
                    init_trade_when_min_max_diff_exceeds.signed(),
                )
            },
            are_ordinary(*following_spot_price, min_diff, max_diff, offset, offset) && result is Some
                ==> {
                let unit = vstd::arithmetic::power::pow(
                    10,
                    (crate::decimal::MAX_SCALE - following_spot_price.scale()) as nat,
                );
                let spot = following_spot_price.signed();
                &&& result matches Some((price, _))
                &&& side == OrderSide::Buy ==> price.units() <= (spot + min_diff.signed()
                    - offset.signed()) * unit
                &&& side == OrderSide::Sell ==> price.units() >= (spot + max_diff.signed()
                    + offset.signed()) * unit
            },
    {
        let (one, other) = compute_terms(
            side,
            following_spot_price,
            &min_diff,
            &max_diff,
            &offset,
            &init_trade_when_min_max_diff_exceeds,
        );
        if one.is_none() || other.is_none() {
            return None;
        }
        proof {
            let top = *trading_top_order_book_price;
            let (a, b) = (one->0, other->0);
            if a.scale() == b.scale() && b.scale() == top.scale() {
                lemma_less_aligned(a, b);
                lemma_less_aligned(b, a);
                lemma_less_aligned(top, a.lesser(b));
                lemma_less_aligned(a.greater(b), top);
            }
        }
        Some(
            Self::get_price_for_side(
                side,
                following_spot_price,
                trading_top_order_book_price,
                min_diff,
                max_diff,
                offset,
                init_trade_when_min_max_diff_exceeds,
            ),
        )
    }

    /// The distance from the other price and the difference that a trade needs: both apply to
    /// opening a trade, while closing one has its own distance and needs no difference.
    pub open spec fn margin(&self) -> (Decimal, Decimal) {
        if self.state == StrategyState::ToEnterTrade {
            (self.enter_trade_offset, self.init_trade_when_min_max_diff_exceeds)
        } else {
            (self.exit_trade_offset, Decimal::of(0, 0))
        }
    }

    /// The distance from the other price and the difference that a trade needs.
    pub fn get_margin(&self) -> (margin: (Decimal, Decimal))
        ensures
            margin == self.margin(),
            self.state == StrategyState::ToEnterTrade ==> margin.0 == self.enter_trade_offset
                && margin.1 == self.init_trade_when_min_max_diff_exceeds,
            self.state != StrategyState::ToEnterTrade ==> margin.0 == self.exit_trade_offset
                && margin.1.signed() == 0 && margin.1.scale() == 0,
    {
        if self.state == StrategyState::ToEnterTrade {
            (self.enter_trade_offset, self.init_trade_when_min_max_diff_exceeds)
        } else {
            (self.exit_trade_offset, Decimal::new(0, 0))
        }
    }

    /// The price of the next order on this side and how it is rounded, or `None` where a sum
    /// on the way is out of range.
    pub open spec fn price_on(
        &self,
        side: OrderSide,
        following_spot_price: Price,
        trading_top_order_book_price: Price,
    ) -> Option<(Price, Round)> {
        let (one, other) = terms(
            side,
            following_spot_price,
            self.min_diff,
            self.max_diff,
            self.margin().0,
            self.margin().1,
        );
        if one is Some && other is Some {
            Some(price_from_terms(side, one->0, other->0, trading_top_order_book_price))
        } else {
            None
        }
    }

    /// The price of the next order on this side and how it is rounded, or `None` where a sum
    /// on the way is out of range.
    pub fn calc_price(
        &self,
        side: OrderSide,
        following_spot_price: &Price,
        trading_top_order_book_price: &Price,
    ) -> (result: Option<(Price, Round)>)
        ensures
            result == self.price_on(side, *following_spot_price, *trading_top_order_book_price),
            self.state == StrategyState::ToEnterTrade && are_ordinary(
                *following_spot_price,
                self.min_diff,
                self.max_diff,
                self.enter_trade_offset,
                self.init_trade_when_min_max_diff_exceeds,
            ) && is_ordinary(*trading_top_order_book_price, following_spot_price.scale()) ==> {
                &&& result matches Some((price, _))
                &&& price.scale() == following_spot_price.scale()
                &&& price.signed() == exact_price(
                    side,
                    following_spot_price.signed(),
                    trading_top_order_book_price.signed(),
                    self.min_diff.signed(),
                    self.max_diff.signed(),
                    self.enter_trade_offset.signed(),
                    self.init_trade_when_min_max_diff_exceeds.signed(),
                )
            },
            self.state != StrategyState::ToEnterTrade && following_spot_price.scale() == 0
                && are_ordinary(
                *following_spot_price,
                self.min_diff,
                self.max_diff,
                self.exit_trade_offset,
                self.exit_trade_offset,
            ) && is_ordinary(*trading_top_order_book_price, 0) ==> {
                &&& result matches Some((price, _))
                &&& price.scale() == 0
                &&& price.signed() == exact_price(
                    side,
                    following_spot_price.signed(),
                    trading_top_order_book_price.signed(),
                    self.min_diff.signed(),
                    self.max_diff.signed(),
                    self.exit_trade_offset.signed(),
                    0,
                )
            },
            self.state != StrategyState::ToEnterTrade && are_ordinary(
                *following_spot_price,
                self.min_diff,
                self.max_diff,
                self.exit_trade_offset,
                self.exit_trade_offset,
            ) && result is Some ==> {
                let unit = vstd::arithmetic::power::pow(
                    10,
                    (crate::decimal::MAX_SCALE - following_spot_price.scale()) as nat,
                );
                let spot = following_spot_price.signed();
                &&& result matches Some((price, _))
                &&& side == OrderSide::Buy ==> price.units() <= (spot + self.min_diff.signed()
                    - self.exit_trade_offset.signed()) * unit
                &&& side == OrderSide::Sell ==> price.units() >= (spot + self.max_diff.signed()
                    + self.exit_trade_offset.signed()) * unit
            },
    {
        let (offset, threshold) = self.get_margin();
        Self::try_get_price_for_side(
            side,
            following_spot_price,
            trading_top_order_book_price,
            self.min_diff,
            self.max_diff,
            offset,
            threshold,
        )
    }

    /// The side on which the next order is placed, if any.
    pub open spec fn trade_side(&self) -> Option<OrderSide> {
        match self.state {
            StrategyState::ToEnterTrade => Some(entry_side(self.min_diff, self.max_diff)),
            StrategyState::ToExitTrade(side) => Some(side),
            StrategyState::End => None,
        }
    }

    /// The side on which the next order is placed, if any.
    pub fn get_trade_side(&self) -> (side: Option<OrderSide>)
        ensures
            side == self.trade_side(),
    {
        match self.state {
            StrategyState::ToEnterTrade => Some(
                Self::get_side_to_enter_trade(self.min_diff, self.max_diff),
            ),
            StrategyState::ToExitTrade(side) => Some(side),
            StrategyState::End => None,
        }
    }

    /// The next order: none where the trade is over, else its side, its price and how that is
    /// rounded. `None` where a sum on the way to the price is out of range. What is bought is
    /// held against the top bid, what is sold against the top ask.
    pub open spec fn next_order(
        &self,
        top_ask: Price,
        top_bid: Price,
        following_spot_price: Price,
    ) -> Option<Option<(OrderSide, Price, Round)>> {
        match self.trade_side() {
            None => Some(None),
            Some(side) => {
                let top = match side {
                    OrderSide::Buy => top_bid,
                    OrderSide::Sell => top_ask,
                };
                match self.price_on(side, following_spot_price, top) {
                    None => None,
                    Some((price, rounding)) => Some(Some((side, price, rounding))),
                }
            },
        }
    }

    /// `self` is what `before` becomes, and `order` the answer, when the prices are these at
    /// `now`.
    pub open spec fn orders(
        &self,
        before: &PerpSpotArbStrategy,
        now: u64,
        top_ask: Price,
        top_bid: Price,
        following_spot_price: Price,
        order: Option<Option<(OrderSide, Price, Round)>>,
    ) -> bool {
        match decimal_difference(top_ask, following_spot_price) {
            None => order is None && *self == *before,
            Some(difference) => {
                &&& exists|diff: Price, changed: bool|
                    diff.is_rounded(difference, 1) && #[trigger] self.updates(
                        before,
                        now,
                        diff,
                        changed,
                    )
                &&& order == self.next_order(top_ask, top_bid, following_spot_price)
            },
        }
    }

    /// Takes in the prices of the moment and gives the next order, if one is to be placed.
    /// `None` where a number on the way is out of range: nothing changes where that is the
    /// difference of the prices, and the history is kept up where it is the price.
    pub fn calculate_order(
        &mut self,
        now: u64,
        top_ask: Price,
        top_bid: Price,
        following_spot_price: Price,
    ) -> (order: Option<Option<(OrderSide, Price, Round)>>)
        ensures
            match decimal_difference(top_ask, following_spot_price) {
                None => order is None && *final(self) == *old(self),
                Some(difference) => {
                    &&& exists|diff: Price, changed: bool|
                        diff.is_rounded(difference, 1) && #[trigger] final(self).updates(
                            old(self),
                            now,
                            diff,
                            changed,
                        )
                    &&& order == final(self).next_order(top_ask, top_bid, following_spot_price)
                },
            },
            final(self).orders(old(self), now, top_ask, top_bid, following_spot_price, order),
    {
        let diff = match diff_price(top_ask, following_spot_price) {
            None => {
                return None;
            },
            Some(diff) => diff,
        };
        self.update_diff_price_history(now, diff);
        match self.get_trade_side() {
            None => Some(None),
            Some(side) => {
                let top = match side {
                    OrderSide::Buy => top_bid,
                    OrderSide::Sell => top_ask,
                };
                match self.calc_price(side, &following_spot_price, &top) {
                    None => None,
                    Some((price, rounding)) => Some(Some((side, price, rounding))),
                }
            },
        }
    }

    /// The state after an order on `side` was filled completely.
    pub open spec fn next_state(state: StrategyState, side: OrderSide) -> StrategyState {
        match state {
            StrategyState::ToEnterTrade => StrategyState::ToExitTrade(side.opposite()),
            StrategyState::ToExitTrade(_) => StrategyState::ToEnterTrade,
            StrategyState::End => StrategyState::End,
        }
    }

    /// `self` is what `before` becomes when an order on `side` was filled, completely or not.
    pub open spec fn fills(
        &self,
        before: &PerpSpotArbStrategy,
        is_completed: bool,
        side: OrderSide,
    ) -> bool {
        &&& self.state == (if is_completed {
            Self::next_state(before.state, side)
        } else {
            before.state
        })
        &&& *self == (PerpSpotArbStrategy { state: self.state, ..*before })
    }

    /// Goes on to the other half of the trade once an order is filled completely. A partial
    /// fill changes nothing.
    pub fn handle_order_fill(&mut self, is_completed: bool, side: OrderSide)
        ensures
            final(self).state == (if is_completed {
                Self::next_state(old(self).state, side)
            } else {
                old(self).state
            }),
            *final(self) == (PerpSpotArbStrategy { state: final(self).state, ..*old(self) }),
            final(self).fills(old(self), is_completed, side),
    {
        if !is_completed {
            return ;
        }
        self.state = match self.state {
            StrategyState::ToEnterTrade => StrategyState::ToExitTrade(side.change_side()),
            StrategyState::ToExitTrade(_) => StrategyState::ToEnterTrade,
            StrategyState::End => StrategyState::End,
        };
    }
}

/// The side on which a trade is opened: a price that stands above the other is sold, one
/// that stands below it is bought, by the difference that is further from zero, or by the
/// smallest one where both are equally far.
pub open spec fn entry_side(min_diff: Price, max_diff: Price) -> OrderSide {
    let diff = if abs_units(min_diff) < abs_units(max_diff) {
        max_diff
    } else {
        min_diff
    };
    if diff.negative() {
        OrderSide::Buy
    } else {
        OrderSide::Sell
    }
}

/// The largest and the smallest difference are those of the points that are remembered.
pub open spec fn tracks_extremes(strategy: PerpSpotArbStrategy) -> bool {
    let prices = diffs(strategy.diff_prices_interval@);
    &&& forall|i: int| 0 <= i < prices.len() ==> (#[trigger] prices[i]).wf()
    &&& forall|i: int| 0 <= i < prices.len() ==> !strategy.max_diff.less(#[trigger] prices[i])
    &&& forall|i: int| 0 <= i < prices.len() ==> !(#[trigger] prices[i]).less(strategy.min_diff)
    &&& if prices.len() == 0 {
        strategy.max_diff == Decimal::smallest() && strategy.min_diff == Decimal::largest()
    } else {
        &&& exists|i: int|
            0 <= i < prices.len() && (#[trigger] prices[i]).same_number(strategy.max_diff)
        &&& exists|i: int|
            0 <= i < prices.len() && (#[trigger] prices[i]).same_number(strategy.min_diff)
    }
}

/// The last largest number is one of the numbers, and none is larger.
proof fn lemma_last_largest(prices: Seq<Price>)
    requires
        prices.len() > 0,
    ensures
        exists|i: int| 0 <= i < prices.len() && #[trigger] prices[i] == last_largest(prices),
        forall|i: int| 0 <= i < prices.len() ==> !last_largest(prices).less(#[trigger] prices[i]),
    decreases prices.len(),
{
    let last = prices.len() - 1;
    assert(prices[last] == prices.last());
    if prices.len() > 1 {
        let shorter = prices.drop_last();
        lemma_last_largest(shorter);
        let i = choose|i: int|
            0 <= i < shorter.len() && #[trigger] shorter[i] == last_largest(shorter);
        assert(prices[i] == last_largest(shorter));
        assert forall|j: int| 0 <= j < prices.len() implies !last_largest(prices).less(
            #[trigger] prices[j],
        ) by {
            if j < last {
                assert(prices[j] == shorter[j]);
            }
        }
    }
}

/// The first smallest number is one of the numbers, and none is smaller.
proof fn lemma_first_smallest(prices: Seq<Price>)
    requires
        prices.len() > 0,
    ensures
        exists|i: int| 0 <= i < prices.len() && #[trigger] prices[i] == first_smallest(prices),
        forall|i: int| 0 <= i < prices.len() ==> !(#[trigger] prices[i]).less(
            first_smallest(prices),
        ),
    decreases prices.len(),
{
    let last = prices.len() - 1;
    assert(prices[last] == prices.last());
    if prices.len() > 1 {
        let shorter = prices.drop_last();
        lemma_first_smallest(shorter);
        let i = choose|i: int|
            0 <= i < shorter.len() && #[trigger] shorter[i] == first_smallest(shorter);
        assert(prices[i] == first_smallest(shorter));
        assert forall|j: int| 0 <= j < prices.len() implies !(#[trigger] prices[j]).less(
            first_smallest(prices),
        ) by {
            if j < last {
                assert(prices[j] == shorter[j]);
            }
        }
    }
}

/// What is known of the largest number once some numbers are gone from the front: it is
/// looked up again only where one that is as large may have been among them.
proof fn lemma_largest_after_removal(prices: Seq<Price>, count: int, largest: Price, result: Price)
    requires
        0 <= count <= prices.len(),
        forall|i: int| 0 <= i < prices.len() ==> !largest.less(#[trigger] prices[i]),
        prices.len() > 0 ==> exists|i: int|
            0 <= i < prices.len() && (#[trigger] prices[i]).same_number(largest),
        prices.len() == 0 ==> largest == Decimal::smallest(),
        result == (if last_largest(prices.take(count)).less(largest) {
            largest
        } else {
            last_largest(prices.skip(count))
        }),
    ensures
        forall|i: int| count <= i < prices.len() ==> !result.less(#[trigger] prices[i]),
        count < prices.len() ==> exists|i: int|
            count <= i < prices.len() && (#[trigger] prices[i]).same_number(result),
        count == prices.len() ==> result == Decimal::smallest(),
{
    let removed = prices.take(count);
    let remaining = prices.skip(count);
    if last_largest(removed).less(largest) {
        if prices.len() > 0 {
            let i = choose|i: int|
                0 <= i < prices.len() && (#[trigger] prices[i]).same_number(largest);
            if i < count {
                lemma_last_largest(removed);
                assert(removed[i] == prices[i]);
            }
        }
    } else if count < prices.len() {
        lemma_last_largest(remaining);
        let i = choose|i: int|
            0 <= i < remaining.len() && #[trigger] remaining[i] == last_largest(remaining);
        assert(prices[count + i].same_number(result));
        assert forall|j: int| count <= j < prices.len() implies !result.less(
            #[trigger] prices[j],
        ) by {
            assert(remaining[j - count] == prices[j]);
        }
    }
}

/// What is known of the smallest number once some numbers are gone from the front.
proof fn lemma_smallest_after_removal(
    prices: Seq<Price>,
    count: int,
    smallest: Price,
    result: Price,
)
    requires
        0 <= count <= prices.len(),
        forall|i: int| 0 <= i < prices.len() ==> !(#[trigger] prices[i]).less(smallest),
        prices.len() > 0 ==> exists|i: int|
            0 <= i < prices.len() && (#[trigger] prices[i]).same_number(smallest),
        prices.len() == 0 ==> smallest == Decimal::largest(),
        result == (if smallest.less(first_smallest(prices.take(count))) {
            smallest
        } else {
            first_smallest(prices.skip(count))
        }),
    ensures
        forall|i: int| count <= i < prices.len() ==> !(#[trigger] prices[i]).less(result),
        count < prices.len() ==> exists|i: int|
            count <= i < prices.len() && (#[trigger] prices[i]).same_number(result),
        count == prices.len() ==> result == Decimal::largest(),
{
    let removed = prices.take(count);
    let remaining = prices.skip(count);
    if smallest.less(first_smallest(removed)) {
        if prices.len() > 0 {
            let i = choose|i: int|
                0 <= i < prices.len() && (#[trigger] prices[i]).same_number(smallest);
            if i < count {
                lemma_first_smallest(removed);
                assert(removed[i] == prices[i]);
            }
        }
    } else if count < prices.len() {
        lemma_first_smallest(remaining);
        let i = choose|i: int|
            0 <= i < remaining.len() && #[trigger] remaining[i] == first_smallest(remaining);
        assert(prices[count + i].same_number(result));
        assert forall|j: int| count <= j < prices.len() implies !(#[trigger] prices[j]).less(
            result,
        ) by {
            assert(remaining[j - count] == prices[j]);
        }
    }
}

/// A new strategy has no difference, and says so.
pub proof fn law_new_tracks_extremes(strategy: PerpSpotArbStrategy)
    requires
        strategy.diff_prices_interval@.len() == 0,
        strategy.max_diff == Decimal::smallest(),
        strategy.min_diff == Decimal::largest(),
    ensures
        tracks_extremes(strategy),
{
}

/// However differences come and expire, the largest and the smallest are always those of
/// the points that are remembered.
pub proof fn law_update_tracks_extremes(
    before: PerpSpotArbStrategy,
    after: PerpSpotArbStrategy,
    now: u64,
    new_diff_price: Price,
    changed: bool,
)
    requires
        tracks_extremes(before),
        new_diff_price.wf(),
        after.updates(&before, now, new_diff_price, changed),
    ensures
        tracks_extremes(after),
{
    if changed {
        let points = before.diff_prices_interval@;
        let prices = diffs(points);
        let count = choose|count: int|
            {
                let removed = diffs(points.take(count));
                let remaining = diffs(points.skip(count));
                &&& #[trigger] expired_count(
                    before.diff_prices_interval@,
                    now,
                    before.diff_history_kept_for_secs,
                    count,
                )
                &&& after.diff_prices_interval@ == points.skip(count).push(
                    DiffPoint { time: now, diff: new_diff_price },
                )
                &&& after.max_diff == (if last_largest(removed).less(before.max_diff) {
                    before.max_diff
                } else {
                    last_largest(remaining)
                }).greater(new_diff_price)
                &&& after.min_diff == (if before.min_diff.less(first_smallest(removed)) {
                    before.min_diff
                } else {
                    first_smallest(remaining)
                }).lesser(new_diff_price)
            };
        let removed = diffs(points.take(count));
        let remaining = diffs(points.skip(count));
        assert(removed =~= prices.take(count));
        assert(remaining =~= prices.skip(count));
        let largest = if last_largest(removed).less(before.max_diff) {
            before.max_diff
        } else {
            last_largest(remaining)
        };
        let smallest = if before.min_diff.less(first_smallest(removed)) {
            before.min_diff
        } else {
            first_smallest(remaining)
        };
        lemma_largest_after_removal(prices, count, before.max_diff, largest);
        lemma_smallest_after_removal(prices, count, before.min_diff, smallest);
        law_range(new_diff_price);
        let now_prices = diffs(after.diff_prices_interval@);
        let last = now_prices.len() - 1;
        assert(now_prices =~= prices.skip(count).push(new_diff_price));
        assert(now_prices[last] == new_diff_price);
        assert forall|i: int| 0 <= i < last implies #[trigger] now_prices[i] == prices[count + i] by {
        }
        assert forall|i: int| 0 <= i < now_prices.len() implies {
            &&& (#[trigger] now_prices[i]).wf()
            &&& !after.max_diff.less(now_prices[i])
            &&& !now_prices[i].less(after.min_diff)
        } by {
            if i < last {
                assert(now_prices[i] == prices[count + i]);
            }
        }
        if after.max_diff != new_diff_price && count < prices.len() {
            let i = choose|i: int|
                count <= i < prices.len() && (#[trigger] prices[i]).same_number(largest);
            assert(now_prices[i - count].same_number(after.max_diff));
        }
        if after.min_diff != new_diff_price && count < prices.len() {
            let i = choose|i: int|
                count <= i < prices.len() && (#[trigger] prices[i]).same_number(smallest);
            assert(now_prices[i - count].same_number(after.min_diff));
        }
        assert(now_prices[last].same_number(new_diff_price));
    }
}

/// An order never crosses its own side of the book: what is bought is not bought above the
/// best price, and what is sold is not sold below it.
pub proof fn law_price_within_book(side: OrderSide, one: Price, other: Price, top: Price)
    ensures
        side == OrderSide::Buy ==> !top.less(price_from_terms(side, one, other, top).0),
        side == OrderSide::Sell ==> !price_from_terms(side, one, other, top).0.less(top),
{
}

/// A trade that is opened on one side is closed on the other, after which the next one can
/// be opened; a strategy that has ended stays so.
pub proof fn law_trade_cycle(entered: OrderSide, exited: OrderSide)
    ensures
        PerpSpotArbStrategy::next_state(StrategyState::ToEnterTrade, entered)
            == StrategyState::ToExitTrade(entered.opposite()),
        PerpSpotArbStrategy::next_state(
            PerpSpotArbStrategy::next_state(StrategyState::ToEnterTrade, entered),
            exited,
        ) == StrategyState::ToEnterTrade,
        PerpSpotArbStrategy::next_state(StrategyState::End, entered) == StrategyState::End,
{
}

/// The distance of a number from zero.
pub open spec fn abs_units(number: Decimal) -> int {
    if number.units() < 0 {
        -number.units()
    } else {
        number.units()
    }
}

/// A number without its sign is its distance from zero.
proof fn lemma_abs_units(number: Decimal)
    ensures
        abs_units(number) == number.mantissa() * vstd::arithmetic::power::pow(
            10,
            (crate::decimal::MAX_SCALE - number.scale()) as nat,
        ),
{
    let mantissa = number.mantissa() as int;
    let power = (crate::decimal::MAX_SCALE - number.scale()) as nat;
    vstd::arithmetic::power::lemma_pow_positive(10, power);
    let unit = vstd::arithmetic::power::pow(10, power);
    assert(mantissa * unit >= 0) by (nonlinear_arith)
        requires
            mantissa >= 0,
            unit > 0,
    ;
    assert((-mantissa) * unit == -(mantissa * unit)) by (nonlinear_arith);
}

} // verus!
