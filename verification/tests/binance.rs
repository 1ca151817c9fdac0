use mmb::binance::{
    Binance, HttpMethod, HttpParams, Placement, ServerOrderNames, SideNames,
};
use mmb::decimal::Decimal;
use mmb::market::{CurrencyCode, CurrencyPair};
use mmb::orders::{
    ActivePosition, DerivativePosition, OrderCancelling, OrderCreating, OrderExecutionType,
    OrderHeader, OrderSide, OrderType,
};
use mmb::time::DateTime;

fn account(is_margin_trading: bool) -> Binance {
    Binance {
        rest_host: "https://host".to_owned(),
        api_key: "key".to_owned(),
        is_margin_trading,
    }
}

fn header(order_type: OrderType, execution_type: OrderExecutionType) -> OrderHeader {
    OrderHeader {
        client_order_id: "mine".to_owned(),
        currency_pair: CurrencyPair::from_codes(
            CurrencyCode::new("btc"),
            CurrencyCode::new("usdt"),
        ),
        side: OrderSide::Buy,
        order_type,
        execution_type,
        amount: Decimal::new(150, 2),
    }
}

fn order(order_type: OrderType, execution_type: OrderExecutionType) -> OrderCreating {
    OrderCreating { header: header(order_type, execution_type), price: Decimal::new(305, 1) }
}

fn names(order_type: &str) -> ServerOrderNames {
    ServerOrderNames {
        symbol: "BTCUSDT".to_owned(),
        side: "BUY".to_owned(),
        order_type: order_type.to_owned(),
    }
}

fn params(pairs: &[(&str, &str)]) -> HttpParams {
    pairs.iter().map(|(name, value)| (name.to_string(), value.to_string())).collect()
}

fn side_names() -> SideNames {
    SideNames { buy: "Buy".to_owned(), sell: "Sell".to_owned() }
}

fn position(side: Option<OrderSide>) -> ActivePosition {
    ActivePosition {
        derivative: DerivativePosition {
            currency_pair: "btc/usdt".to_owned(),
            side,
            position: Decimal::new(-25, 1),
            leverage: Decimal::new(5, 0),
        },
    }
}

const COMMON: [(&str, &str); 2] = [("symbol", "BTCUSDT"), ("side", "BUY")];

#[test]
fn limit_order() {
    let draft = account(false).create_order(
        &order(OrderType::Limit, OrderExecutionType::MakerOnly),
        &names("LIMIT"),
    );
    assert_eq!(draft.method, HttpMethod::Post);
    assert_eq!(draft.url_path, "/api/v3/order");
    assert_eq!(draft.placement, Placement::Body);
    assert!(draft.is_authenticated);
    assert_eq!(
        draft.params,
        params(&[
            COMMON[0],
            COMMON[1],
            ("type", "LIMIT"),
            ("quantity", "1.50"),
            ("newClientOrderId", "mine"),
            ("timeInForce", "GTC"),
            ("price", "30.5"),
        ])
    );
}

#[test]
fn market_orders() {
    let common = [
        COMMON[0],
        COMMON[1],
        ("type", "MARKET"),
        ("quantity", "1.50"),
        ("newClientOrderId", "mine"),
    ];
    let plain = account(true).create_order(
        &order(OrderType::Market, OrderExecutionType::Unrestricted),
        &names("MARKET"),
    );
    assert_eq!(plain.url_path, "/fapi/v1/order");
    assert_eq!(plain.params, params(&common));
    let maker = account(true).create_order(
        &order(OrderType::Market, OrderExecutionType::MakerOnly),
        &names("MARKET"),
    );
    let mut expected = params(&common);
    expected.push(("timeInForce".to_owned(), "GTX".to_owned()));
    assert_eq!(maker.params, expected);
}

#[test]
fn cancelling_and_looking_up_an_order() {
    let cancelling = OrderCancelling {
        header: header(OrderType::Limit, OrderExecutionType::Unrestricted),
        exchange_order_id: "42".to_owned(),
    };
    for (margin, path) in [(true, "/fapi/v1/order"), (false, "/api/v3/order")] {
        let draft = account(margin).request_cancel_order(&cancelling, "BTCUSDT");
        assert_eq!(draft.method, HttpMethod::Delete);
        assert_eq!(draft.url_path, path);
        assert_eq!(draft.params, params(&[COMMON[0], ("orderId", "42")]));
        assert_eq!(draft.placement, Placement::Uri);

        let draft = account(margin).request_order_info("BTCUSDT", "mine");
        assert_eq!(draft.method, HttpMethod::Get);
        assert_eq!(draft.url_path, path);
        assert_eq!(draft.params, params(&[COMMON[0], ("origClientOrderId", "mine")]));
    }
}

#[test]
fn requests_about_the_account() {
    let spot = account(false);
    let margin = account(true);
    assert_eq!(spot.request_all_symbols().url_path, "/api/v3/exchangeInfo");
    assert!(!spot.request_all_symbols().is_authenticated);
    assert_eq!(spot.request_my_trades("BTCUSDT", None).url_path, "/api/v3/myTrades");
    assert_eq!(margin.request_my_trades("BTCUSDT", None).url_path, "/fapi/v1/userTrades");
    assert_eq!(margin.request_my_trades("BTCUSDT", None).params, params(&[COMMON[0]]));
    let last = DateTime::new(1_600_000_000, 0);
    assert!(last.is_some());
    assert_eq!(margin.request_my_trades("BTCUSDT", last).params, params(&[COMMON[0]]));
    assert_eq!(spot.request_get_balance().url_path, "/api/v3/account");
    assert_eq!(margin.request_get_balance().url_path, "/fapi/v2/account");
    assert_eq!(spot.request_get_position().url_path, "/fapi/v2/positionRisk");
    assert_eq!(spot.request_open_orders(), params(&[]));
    assert_eq!(
        spot.request_open_orders_by_currency_pair("BTCUSDT"),
        params(&[COMMON[0]])
    );
    let cancel_all = margin.cancel_all_orders("BTCUSDT");
    assert_eq!(cancel_all.method, HttpMethod::Delete);
    assert_eq!(cancel_all.url_path, "/api/v3/openOrders");
    assert_eq!(cancel_all.params, params(&[COMMON[0]]));
}

#[test]
fn closing_a_position() {
    let common = |side: &'static str| {
        vec![
            ("leverage", "5"),
            ("positionSide", "BOTH"),
            ("quantity", "2.5"),
            ("side", side),
            ("symbol", "btc/usdt"),
        ]
    };
    let draft = account(false).request_close_position(
        &position(Some(OrderSide::Sell)),
        Some(Decimal::new(100, 0)),
        &side_names(),
    );
    let mut expected = common("Buy");
    expected.push(("type", "MARKET"));
    expected.push(("price", "100"));
    assert_eq!(draft.params, params(&expected));
    assert_eq!(draft.url_path, "/fapi/v1/order");
    assert_eq!(draft.placement, Placement::UriAndBody);

    let draft = account(false).request_close_position(
        &position(Some(OrderSide::Buy)),
        None,
        &side_names(),
    );
    let mut expected = common("Sell");
    expected.push(("type", "LIMIT"));
    assert_eq!(draft.params, params(&expected));

    let draft = account(false).request_close_position(&position(None), None, &side_names());
    assert_eq!(draft.params[3], ("side".to_owned(), "0".to_owned()));
}

#[test]
fn completing_a_draft() {
    let account = account(true);
    let signed = params(&[("a", "b"), ("signature", "c")]);

    let request = account.complete(account.request_get_balance(), signed.clone());
    assert_eq!(request.host, "https://host");
    assert_eq!(request.api_key, "key");
    assert_eq!(request.url_path, "/fapi/v2/account");
    assert_eq!(request.uri_params, signed);
    assert_eq!(request.body, None);

    let draft = account.create_order(
        &order(OrderType::Limit, OrderExecutionType::Unrestricted),
        &names("LIMIT"),
    );
    let request = account.complete(draft, signed.clone());
    assert_eq!(request.method, HttpMethod::Post);
    assert_eq!(request.uri_params, params(&[]));
    assert_eq!(request.body, Some(signed.clone()));

    let draft = account.request_close_position(&position(None), None, &side_names());
    let request = account.complete(draft, signed.clone());
    assert_eq!(request.uri_params, signed);
    assert_eq!(request.body, Some(signed.clone()));

    let request = account.complete(account.request_all_symbols(), signed);
    assert_eq!(request.uri_params, params(&[]));
    assert_eq!(request.body, None);
}

#[test]
fn names_of_parameters_are_distinct() {
    let mut drafts = vec![
        account(true).request_close_position(
            &position(None),
            Some(Decimal::new(1, 0)),
            &side_names(),
        ),
    ];
    for order_type in [OrderType::Limit, OrderType::Market] {
        drafts.push(account(true).create_order(
            &order(order_type, OrderExecutionType::MakerOnly),
            &names("X"),
        ));
    }
    for draft in drafts {
        for (i, one) in draft.params.iter().enumerate() {
            assert!(draft.params[i + 1..].iter().all(|other| other.0 != one.0));
        }
    }
}

#[test]
fn change_side_there_and_back() {
    for side in [OrderSide::Buy, OrderSide::Sell] {
        assert_ne!(side.change_side(), side);
        assert_eq!(side.change_side().change_side(), side);
    }
}
