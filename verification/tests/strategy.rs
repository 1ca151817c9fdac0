use mmb::decimal::Decimal;
use mmb::market::{CurrencyCode, CurrencyPair};
use mmb::orders::OrderSide;
use mmb::settings::CurrencyPairSetting;
use mmb::strategy::{
    amount_limit, clean_currency_pair, combine_terms, diff_price, PerpSpotArbStrategy, Round,
    StrategyState,
};

fn dec(num: i64) -> Decimal {
    Decimal::new(num, 0)
}

const SECOND: u64 = 1_000_000_000;

fn strategy() -> PerpSpotArbStrategy {
    PerpSpotArbStrategy::new(dec(2), dec(3), dec(10), 10, dec(20))
}

/// The book has one ask at 3021 and one bid at 3020.
fn check_price_for_side(
    min_diff: i64,
    max_diff: i64,
    offset: i64,
    init_trade_when_min_max_diff_exceeds: i64,
    following_spot_price: i64,
    result_price: i64,
    result_side: OrderSide,
) {
    let side = PerpSpotArbStrategy::get_side_to_enter_trade(dec(min_diff), dec(max_diff));
    assert_eq!(side, result_side);

    let top = match side {
        OrderSide::Sell => dec(3021),
        OrderSide::Buy => dec(3020),
    };
    let (price, rounding) = PerpSpotArbStrategy::get_price_for_side(
        side,
        &dec(following_spot_price),
        &top,
        dec(min_diff),
        dec(max_diff),
        dec(offset),
        dec(init_trade_when_min_max_diff_exceeds),
    );
    assert_eq!(price, dec(result_price));
    let result_rounding = match side {
        OrderSide::Sell => Round::Ceiling,
        OrderSide::Buy => Round::Floor,
    };
    assert_eq!(rounding, result_rounding);
}

#[test]
fn get_price_for_side() {
    check_price_for_side(10, 30, 0, 10, 3000, 3030, OrderSide::Sell);
    check_price_for_side(10, 30, 2, 10, 3000, 3032, OrderSide::Sell);
    check_price_for_side(20, 40, 0, 10, 3000, 3040, OrderSide::Sell);
    check_price_for_side(10, 20, 0, 0, 3000, 3021, OrderSide::Sell);
    check_price_for_side(20, 30, 0, 20, 3000, 3040, OrderSide::Sell);
    check_price_for_side(-30, -10, 0, 10, 3040, 3010, OrderSide::Buy);
    check_price_for_side(-30, -10, 2, 10, 3040, 3008, OrderSide::Buy);
    check_price_for_side(-40, -30, 0, 10, 3040, 3000, OrderSide::Buy);
    check_price_for_side(-20, -10, 0, 0, 3040, 3020, OrderSide::Buy);
    check_price_for_side(-30, -20, 0, 20, 3040, 3000, OrderSide::Buy);
}

#[test]
fn price_out_of_range() {
    assert!(PerpSpotArbStrategy::try_get_price_for_side(
        OrderSide::Sell,
        &Decimal::max_value(),
        &dec(1),
        dec(0),
        dec(1),
        dec(0),
        dec(0),
    )
    .is_none());
}

#[test]
fn price_does_not_cross_the_book() {
    assert_eq!(
        combine_terms(OrderSide::Buy, dec(7), dec(6), dec(5)),
        (dec(5), Round::Floor)
    );
    assert_eq!(
        combine_terms(OrderSide::Sell, dec(3), dec(4), dec(5)),
        (dec(5), Round::Ceiling)
    );
}

#[test]
fn equally_far_differences_go_by_the_smallest() {
    assert_eq!(
        PerpSpotArbStrategy::get_side_to_enter_trade(dec(-5), dec(5)),
        OrderSide::Buy
    );
    assert_eq!(
        PerpSpotArbStrategy::get_side_to_enter_trade(dec(-5), dec(6)),
        OrderSide::Sell
    );
}

#[test]
fn history_tracks_extremes() {
    let mut strategy = strategy();
    assert!(strategy.update_diff_price_history(0, dec(30)));
    assert!(!strategy.update_diff_price_history(SECOND, Decimal::new(300, 1)));
    assert!(strategy.update_diff_price_history(2 * SECOND, dec(-10)));
    assert!(strategy.update_diff_price_history(3 * SECOND, dec(20)));
    assert_eq!((strategy.min_diff, strategy.max_diff), (dec(-10), dec(30)));
    assert_eq!(strategy.diff_prices_interval.len(), 3);

    assert!(strategy.update_diff_price_history(10 * SECOND, dec(5)));
    assert_eq!((strategy.min_diff, strategy.max_diff), (dec(-10), dec(20)));

    assert!(strategy.update_diff_price_history(12 * SECOND, dec(6)));
    assert_eq!((strategy.min_diff, strategy.max_diff), (dec(5), dec(20)));
    assert_eq!(strategy.diff_prices_interval.len(), 3);

    assert!(strategy.update_diff_price_history(100 * SECOND, dec(7)));
    assert_eq!((strategy.min_diff, strategy.max_diff), (dec(7), dec(7)));
    assert_eq!(strategy.diff_prices_interval.len(), 1);
}

#[test]
fn a_point_expires_after_its_time() {
    let mut strategy = strategy();
    strategy.update_diff_price_history(0, dec(1));
    strategy.update_diff_price_history(10 * SECOND - 1, dec(2));
    assert_eq!(strategy.diff_prices_interval.len(), 2);
    strategy.update_diff_price_history(10 * SECOND, dec(3));
    assert_eq!(strategy.diff_prices_interval[0].diff, dec(2));
}

#[test]
fn difference_of_prices_is_rounded() {
    let diff = diff_price(Decimal::new(302_125, 2), dec(3000)).unwrap();
    assert_eq!(diff.to_text(), "21.2");
    assert!(diff_price(Decimal::min_value(), dec(1)).is_none());
}

#[test]
fn limit_is_half_of_the_amount() {
    assert_eq!(amount_limit(dec(10)).unwrap(), dec(5));
}

#[test]
fn trade_goes_in_and_out() {
    let mut strategy = strategy();
    strategy.handle_order_fill(false, OrderSide::Buy);
    assert_eq!(strategy.state, StrategyState::ToEnterTrade);
    strategy.handle_order_fill(true, OrderSide::Buy);
    assert_eq!(strategy.state, StrategyState::ToExitTrade(OrderSide::Sell));
    assert_eq!(strategy.get_trade_side(), Some(OrderSide::Sell));
    strategy.handle_order_fill(true, OrderSide::Sell);
    assert_eq!(strategy.state, StrategyState::ToEnterTrade);
    strategy.state = StrategyState::End;
    strategy.handle_order_fill(true, OrderSide::Sell);
    assert_eq!(strategy.state, StrategyState::End);
    assert_eq!(strategy.get_trade_side(), None);
}

#[test]
fn margin_depends_on_the_state() {
    let mut strategy = strategy();
    strategy.update_diff_price_history(0, dec(10));
    assert_eq!(strategy.get_trade_side(), Some(OrderSide::Sell));
    assert_eq!(strategy.get_margin(), (dec(2), dec(20)));
    assert_eq!(
        strategy.calc_price(OrderSide::Sell, &dec(3000), &dec(3005)),
        Some((dec(3032), Round::Ceiling))
    );
    strategy.handle_order_fill(true, OrderSide::Sell);
    assert_eq!(strategy.get_margin(), (dec(3), dec(0)));
    assert_eq!(
        strategy.calc_price(OrderSide::Buy, &dec(3000), &dec(3100)),
        Some((dec(3007), Round::Floor))
    );
}

#[test]
fn pair_from_its_codes() {
    let setting = CurrencyPairSetting::Ordinary {
        base: CurrencyCode::new("btc"),
        quote: CurrencyCode::new("usd"),
    };
    assert_eq!(
        clean_currency_pair(&setting),
        CurrencyPair::from_codes(CurrencyCode::new("btc"), CurrencyCode::new("usd"))
    );
}

#[test]
fn orders_follow_the_prices() {
    let mut strategy = strategy();
    assert_eq!(
        strategy.calculate_order(0, Decimal::new(302_125, 2), dec(3020), dec(3000)),
        Some(Some((OrderSide::Sell, Decimal::new(30_432, 1), Round::Ceiling)))
    );
    assert_eq!(strategy.diff_prices_interval[0].diff, Decimal::new(212, 1));

    strategy.handle_order_fill(true, OrderSide::Sell);
    assert_eq!(
        strategy.calculate_order(SECOND, dec(3010), dec(3009), dec(3000)),
        Some(Some((OrderSide::Buy, dec(3007), Round::Floor)))
    );
    assert_eq!((strategy.min_diff, strategy.max_diff), (dec(10), Decimal::new(212, 1)));
    assert_eq!(
        strategy.calculate_order(2 * SECOND, dec(3010), dec(3005), dec(3000)),
        Some(Some((OrderSide::Buy, dec(3005), Round::Floor)))
    );
    assert_eq!(strategy.diff_prices_interval.len(), 2);
}

#[test]
fn a_sale_is_held_against_the_ask() {
    let mut strategy = PerpSpotArbStrategy::new(dec(0), dec(0), dec(10), 10, dec(0));
    assert_eq!(
        strategy.calculate_order(0, Decimal::new(302_125, 2), dec(3020), dec(3000)),
        Some(Some((OrderSide::Sell, Decimal::new(302_125, 2), Round::Ceiling)))
    );
}

#[test]
fn no_order_once_the_trade_is_over() {
    let mut strategy = strategy();
    strategy.state = StrategyState::End;
    assert_eq!(strategy.calculate_order(0, dec(3010), dec(3009), dec(3000)), Some(None));
    assert_eq!(strategy.diff_prices_interval.len(), 1);
}

#[test]
fn orders_out_of_range() {
    let mut strategy = strategy();
    assert_eq!(strategy.calculate_order(0, Decimal::min_value(), dec(1), dec(1)), None);
    assert!(strategy.diff_prices_interval.is_empty());

    let largest = Decimal::max_value();
    assert_eq!(strategy.calculate_order(0, largest, dec(1), largest), None);
    assert_eq!(strategy.diff_prices_interval.len(), 1);
}
