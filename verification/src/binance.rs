//! The requests that are sent to Binance: their paths and parameters.
use crate::decimal::Price;
use crate::orders::{
    ActivePosition, OrderCancelling, OrderCreating, OrderExecutionType, OrderSide, OrderType,
};
use crate::time::DateTime;
use vstd::prelude::*;

verus! {

/// Names and values, in the order in which they are sent.
pub type HttpParams = Vec<(String, String)>;

/// Names and values as texts.
pub type Params = Seq<(Seq<char>, Seq<char>)>;

/// The texts of parameters.
pub open spec fn shown(params: Seq<(String, String)>) -> Params {
    params.map_values(|param: (String, String)| (param.0@, param.1@))
}

/// What is done with what the path leads to.
#[derive(Debug, Clone, Copy, PartialEq, Eq, Structural)]
pub enum HttpMethod {
    Get,
    Post,
    Delete,
}

/// Where the parameters of a request go.
#[derive(Debug, Clone, Copy, PartialEq, Eq, Structural)]
pub enum Placement {
    Uri,
    Body,
    UriAndBody,
}

/// A request before its parameters are authenticated.
#[derive(Debug, Clone, PartialEq, Eq)]
pub struct RestDraft {
    pub method: HttpMethod,
    pub url_path: String,
    pub params: HttpParams,
    pub placement: Placement,
    pub is_authenticated: bool,
}

/// A request as it is sent.
#[derive(Debug, Clone, PartialEq, Eq)]
pub struct RestRequest {
    pub method: HttpMethod,
    pub host: String,
    pub url_path: String,
    pub uri_params: HttpParams,
    /// What a posted request carries.
    pub body: Option<HttpParams>,
    pub api_key: String,
}

/// How the exchange calls the currency pair, the side and the type of an order.
#[derive(Debug, Clone, PartialEq, Eq)]
pub struct ServerOrderNames {
    pub symbol: String,
    pub side: String,
    pub order_type: String,
}

/// The two sides in print.
#[derive(Debug, Clone, PartialEq, Eq)]
pub struct SideNames {
    pub buy: String,
    pub sell: String,
}

impl SideNames {
    /// The side in print.
    pub open spec fn name(&self, side: OrderSide) -> Seq<char> {
        match side {
            OrderSide::Buy => self.buy@,
            OrderSide::Sell => self.sell@,
        }
    }
}

/// Where orders live, on the spot market and on the margin market.
pub open spec fn order_path(is_margin_trading: bool) -> Seq<char> {
    if is_margin_trading {
        "/fapi/v1/order"@
    } else {
        "/api/v3/order"@
    }
}

/// Where the account's trades live.
pub open spec fn trades_path(is_margin_trading: bool) -> Seq<char> {
    if is_margin_trading {
        "/fapi/v1/userTrades"@
    } else {
        "/api/v3/myTrades"@
    }
}

/// Where the account lives.
pub open spec fn account_path(is_margin_trading: bool) -> Seq<char> {
    if is_margin_trading {
        "/fapi/v2/account"@
    } else {
        "/api/v3/account"@
    }
}

/// The parameters of a new order. One that is not a market order says its price and stays
/// until it is cancelled; a market order says only whether it may not be matched at once.
pub open spec fn create_order_params(order: OrderCreating, names: ServerOrderNames) -> Params {
    let header = order.header;
    let common = seq![
        ("symbol"@, names.symbol@),
        ("side"@, names.side@),
        ("type"@, names.order_type@),
        ("quantity"@, header.amount.text()),
        ("newClientOrderId"@, header.client_order_id@),
    ];
    if header.order_type != OrderType::Market {
        common + seq![("timeInForce"@, "GTC"@), ("price"@, order.price.text())]
    } else if header.execution_type == OrderExecutionType::MakerOnly {
        common + seq![("timeInForce"@, "GTX"@)]
    } else {
        common
    }
}

/// The parameters that close a position: the whole of it is traded on the other side, and
/// an unknown side is said to be `0`.
pub open spec fn close_position_params(
    position: ActivePosition,
    price: Option<Price>,
    side_names: SideNames,
) -> Params {
    let derivative = position.derivative;
    let side = match derivative.side {
        Some(side) => side_names.name(side.opposite()),
        None => "0"@,
    };
    let common = seq![
        ("leverage"@, derivative.leverage.text()),
        ("positionSide"@, "BOTH"@),
        ("quantity"@, crate::decimal::printed(
            false,
            derivative.position.mantissa(),
            derivative.position.scale() as nat,
        )),
        ("side"@, side),
        ("symbol"@, derivative.currency_pair@),
    ];
    match price {
        Some(price) => common + seq![("type"@, "MARKET"@), ("price"@, price.text())],
        None => common + seq![("type"@, "LIMIT"@)],
    }
}

/// The parameters of a request about a currency pair.
pub open spec fn symbol_params(symbol: Seq<char>) -> Params {
    seq![("symbol"@, symbol)]
}

/// The parameters of a request about an order of a currency pair.
pub open spec fn order_params(symbol: Seq<char>, key: Seq<char>, order_id: Seq<char>) -> Params {
    seq![("symbol"@, symbol), (key, order_id)]
}

/// One more parameter.
fn push_param(params: &mut HttpParams, name: &str, value: String)
    ensures
        shown(final(params)@) == shown(old(params)@).push((name@, value@)),
        final(params)@.len() == old(params)@.len() + 1,
{
    params.push((name.to_owned(), value));
    assert(shown(params@) =~= shown(old(params)@).push((name@, value@)));
}

/// The currency pair as the only parameter.
fn only_symbol(symbol: &str) -> (params: HttpParams)
    ensures
        shown(params@) == symbol_params(symbol@),
{
    let mut params: HttpParams = Vec::new();
    push_param(&mut params, "symbol", symbol.to_owned());
    assert(shown(params@) =~= symbol_params(symbol@));
    params
}

/// The access to one account on Binance.
#[derive(Debug, Clone, PartialEq, Eq)]
pub struct Binance {
    pub rest_host: String,
    pub api_key: String,
    pub is_margin_trading: bool,
}

impl Binance {
    /// The path of the market that the account trades on.
    fn choose_path(&self, margin: &'static str, spot: &'static str) -> (path: String)
        ensures
            path@ == (if self.is_margin_trading {
                margin@
            } else {
                spot@
            }),
    {
        if self.is_margin_trading {
            margin.to_owned()
        } else {
            spot.to_owned()
        }
    }

    /// Asks for everything that can be traded, on the spot market.
    pub fn request_all_symbols(&self) -> (draft: RestDraft)
        ensures
            draft.method == HttpMethod::Get,
            draft.url_path@ == "/api/v3/exchangeInfo"@,
            draft.params@.len() == 0,
            draft.placement == Placement::Uri,
            !draft.is_authenticated,
    {
        RestDraft {
            method: HttpMethod::Get,
            url_path: "/api/v3/exchangeInfo".to_owned(),
            params: Vec::new(),
            placement: Placement::Uri,
            is_authenticated: false,
        }
    }

    /// Places an order.
    pub fn create_order(&self, order: &OrderCreating, names: &ServerOrderNames) -> (draft: RestDraft)
        ensures
            draft.method == HttpMethod::Post,
            draft.url_path@ == order_path(self.is_margin_trading),
            shown(draft.params@) == create_order_params(*order, *names),
            draft.placement == Placement::Body,
            draft.is_authenticated,
    {
        let header = &order.header;
        let mut http_params: HttpParams = Vec::new();
        push_param(&mut http_params, "symbol", names.symbol.clone());
        push_param(&mut http_params, "side", names.side.clone());
        push_param(&mut http_params, "type", names.order_type.clone());
        push_param(&mut http_params, "quantity", header.amount.to_text());
        push_param(&mut http_params, "newClientOrderId", header.client_order_id.clone());
        if header.order_type != OrderType::Market {
            push_param(&mut http_params, "timeInForce", "GTC".to_owned());
            push_param(&mut http_params, "price", order.price.to_text());
        } else if header.execution_type == OrderExecutionType::MakerOnly {
            push_param(&mut http_params, "timeInForce", "GTX".to_owned());
        }
        assert(shown(http_params@) =~= create_order_params(*order, *names));
        RestDraft {
            method: HttpMethod::Post,
            url_path: self.choose_path("/fapi/v1/order", "/api/v3/order"),
            params: http_params,
            placement: Placement::Body,
            is_authenticated: true,
        }
    }

    /// Withdraws an order.
    pub fn request_cancel_order(&self, order: &OrderCancelling, symbol: &str) -> (draft: RestDraft)
        ensures
            draft.method == HttpMethod::Delete,
            draft.url_path@ == order_path(self.is_margin_trading),
            shown(draft.params@) == order_params(symbol@, "orderId"@, order.exchange_order_id@),
            draft.placement == Placement::Uri,
            draft.is_authenticated,
    {
        let mut http_params: HttpParams = Vec::new();
        push_param(&mut http_params, "symbol", symbol.to_owned());
        push_param(&mut http_params, "orderId", order.exchange_order_id.clone());
        assert(shown(http_params@) =~= order_params(
            symbol@,
            "orderId"@,
            order.exchange_order_id@,
        ));
        RestDraft {
            method: HttpMethod::Delete,
            url_path: self.choose_path("/fapi/v1/order", "/api/v3/order"),
            params: http_params,
            placement: Placement::Uri,
            is_authenticated: true,
        }
    }

    /// Withdraws all orders of a currency pair, on the spot market.
    pub fn cancel_all_orders(&self, symbol: &str) -> (draft: RestDraft)
        ensures
            draft.method == HttpMethod::Delete,
            draft.url_path@ == "/api/v3/openOrders"@,
            shown(draft.params@) == symbol_params(symbol@),
            draft.placement == Placement::Uri,
            draft.is_authenticated,
    {
        RestDraft {
            method: HttpMethod::Delete,
            url_path: "/api/v3/openOrders".to_owned(),
            params: only_symbol(symbol),
            placement: Placement::Uri,
            is_authenticated: true,
        }
    }

    /// The parameters that ask for all open orders.
    pub fn request_open_orders(&self) -> (params: HttpParams)
        ensures
            params@.len() == 0,
    {
        Vec::new()
    }

    /// The parameters that ask for the open orders of a currency pair.
    pub fn request_open_orders_by_currency_pair(&self, symbol: &str) -> (params: HttpParams)
        ensures
            shown(params@) == symbol_params(symbol@),
    {
        only_symbol(symbol)
    }

    /// Asks for one order.
    pub fn request_order_info(&self, symbol: &str, client_order_id: &str) -> (draft: RestDraft)
        ensures
            draft.method == HttpMethod::Get,
            draft.url_path@ == order_path(self.is_margin_trading),
            shown(draft.params@) == order_params(
                symbol@,
                "origClientOrderId"@,
                client_order_id@,
            ),
            draft.placement == Placement::Uri,
            draft.is_authenticated,
    {
        let mut http_params: HttpParams = Vec::new();
        push_param(&mut http_params, "symbol", symbol.to_owned());
        push_param(&mut http_params, "origClientOrderId", client_order_id.to_owned());
        assert(shown(http_params@) =~= order_params(
            symbol@,
            "origClientOrderId"@,
            client_order_id@,
        ));
        RestDraft {
            method: HttpMethod::Get,
            url_path: self.choose_path("/fapi/v1/order", "/api/v3/order"),
            params: http_params,
            placement: Placement::Uri,
            is_authenticated: true,
        }
    }

    /// Asks for the account's trades in a currency pair, whenever the last one was.
    pub fn request_my_trades(
        &self,
        symbol: &str,
        _last_date_time: Option<DateTime>,
    ) -> (draft: RestDraft)
        ensures
            draft.method == HttpMethod::Get,
            draft.url_path@ == trades_path(self.is_margin_trading),
            shown(draft.params@) == symbol_params(symbol@),
            draft.placement == Placement::Uri,
            draft.is_authenticated,
    {
        RestDraft {
            method: HttpMethod::Get,
            url_path: self.choose_path("/fapi/v1/userTrades", "/api/v3/myTrades"),
            params: only_symbol(symbol),
            placement: Placement::Uri,
            is_authenticated: true,
        }
    }

    /// Asks for the open positions, on the margin market.
    pub fn request_get_position(&self) -> (draft: RestDraft)
        ensures
            draft.method == HttpMethod::Get,
            draft.url_path@ == "/fapi/v2/positionRisk"@,
            draft.params@.len() == 0,
            draft.placement == Placement::Uri,
            draft.is_authenticated,
    {
        RestDraft {
            method: HttpMethod::Get,
            url_path: "/fapi/v2/positionRisk".to_owned(),
            params: Vec::new(),
            placement: Placement::Uri,
            is_authenticated: true,
        }
    }

    /// Asks for the balance of the account.
    pub fn request_get_balance(&self) -> (draft: RestDraft)
        ensures
            draft.method == HttpMethod::Get,
            draft.url_path@ == account_path(self.is_margin_trading),
            draft.params@.len() == 0,
            draft.placement == Placement::Uri,
            draft.is_authenticated,
    {
        RestDraft {
            method: HttpMethod::Get,
            url_path: self.choose_path("/fapi/v2/account", "/api/v3/account"),
            params: Vec::new(),
            placement: Placement::Uri,
            is_authenticated: true,
        }
    }

    /// Closes a position, on the margin market.
    pub fn request_close_position(
        &self,
        position: &ActivePosition,
        price: Option<Price>,
        side_names: &SideNames,
    ) -> (draft: RestDraft)
        ensures
            draft.method == HttpMethod::Post,
            draft.url_path@ == "/fapi/v1/order"@,
            shown(draft.params@) == close_position_params(*position, price, *side_names),
            draft.placement == Placement::UriAndBody,
            draft.is_authenticated,
    {
        let derivative = &position.derivative;
        let side = match derivative.side {
            Some(side) => match side.change_side() {
                OrderSide::Buy => side_names.buy.clone(),
                OrderSide::Sell => side_names.sell.clone(),
            },
            None => "0".to_owned(),
        };
        let mut http_params: HttpParams = Vec::new();
        push_param(&mut http_params, "leverage", derivative.leverage.to_text());
        push_param(&mut http_params, "positionSide", "BOTH".to_owned());
        push_param(&mut http_params, "quantity", derivative.position.abs().to_text());
        push_param(&mut http_params, "side", side);
        push_param(&mut http_params, "symbol", derivative.currency_pair.clone());
        match price {
            Some(price) => {
                push_param(&mut http_params, "type", "MARKET".to_owned());
                push_param(&mut http_params, "price", price.to_text());
            },
            None => {
                push_param(&mut http_params, "type", "LIMIT".to_owned());
            },
        }
        assert(shown(http_params@) =~= close_position_params(*position, price, *side_names));
        RestDraft {
            method: HttpMethod::Post,
            url_path: "/fapi/v1/order".to_owned(),
            params: http_params,
            placement: Placement::UriAndBody,
            is_authenticated: true,
        }
    }

    /// The request as it is sent: to the account's host and under its key, with
    /// `authenticated` in place of the parameters of a draft that has to be authenticated.
    pub fn complete(&self, draft: RestDraft, authenticated: HttpParams) -> (request: RestRequest)
        ensures
            request.method == draft.method,
            request.host@ == self.rest_host@,
            request.api_key@ == self.api_key@,
            request.url_path == draft.url_path,
            ({
                let params = if draft.is_authenticated {
                    shown(authenticated@)
                } else {
                    shown(draft.params@)
                };
                &&& shown(request.uri_params@) == (if draft.placement == Placement::Body {
                    seq![]
                } else {
                    params
                })
                &&& request.body is None <==> draft.placement == Placement::Uri
                &&& request.body is Some ==> shown(request.body->0@) == params
            }),
    {
        let RestDraft { method, url_path, params, placement, is_authenticated } = draft;
        let params = if is_authenticated {
            authenticated
        } else {
            params
        };
        let (uri_params, body) = match placement {
            Placement::Uri => (params, None),
            Placement::Body => (Vec::new(), Some(params)),
            Placement::UriAndBody => (copy_params(&params), Some(params)),
        };
        assert(placement == Placement::Body ==> shown(uri_params@) =~= seq![]);
        RestRequest {
            method,
            host: self.rest_host.clone(),
            url_path,
            uri_params,
            body,
            api_key: self.api_key.clone(),
        }
    }
}

/// No name occurs twice.
pub open spec fn names_distinct(params: Params) -> bool {
    forall|i: int, j: int|
        0 <= i < j < params.len() ==> (#[trigger] params[i]).0 != (#[trigger] params[j]).0
}

/// A new order says nothing twice.
pub proof fn law_create_order_names_distinct(order: OrderCreating, names: ServerOrderNames)
    ensures
        names_distinct(create_order_params(order, names)),
{
    reveal_strlit("symbol");
    reveal_strlit("side");
    reveal_strlit("type");
    reveal_strlit("quantity");
    reveal_strlit("newClientOrderId");
    reveal_strlit("timeInForce");
    reveal_strlit("price");
    assert("symbol"@.len() == 6 && "side"@.len() == 4 && "type"@.len() == 4);
    assert("quantity"@.len() == 8 && "newClientOrderId"@.len() == 16);
    assert("timeInForce"@.len() == 11 && "price"@.len() == 5);
    assert("type"@[0] == 't' && "side"@[0] == 's');
    let params = create_order_params(order, names);
    assert(params[0].0 == "symbol"@ && params[1].0 == "side"@ && params[2].0 == "type"@);
    assert(params[3].0 == "quantity"@ && params[4].0 == "newClientOrderId"@);
    assert(params.len() > 5 ==> params[5].0 == "timeInForce"@);
    assert(params.len() > 6 ==> params[6].0 == "price"@);
    assert(params.len() <= 7);
}

/// An order that closes a position says nothing twice.
pub proof fn law_close_position_names_distinct(
    position: ActivePosition,
    price: Option<Price>,
    side_names: SideNames,
)
    ensures
        names_distinct(close_position_params(position, price, side_names)),
{
    reveal_strlit("leverage");
    reveal_strlit("positionSide");
    reveal_strlit("quantity");
    reveal_strlit("side");
    reveal_strlit("symbol");
    reveal_strlit("type");
    reveal_strlit("price");
    assert("leverage"@.len() == 8 && "positionSide"@.len() == 12 && "quantity"@.len() == 8);
    assert("side"@.len() == 4 && "symbol"@.len() == 6 && "type"@.len() == 4);
    assert("price"@.len() == 5);
    assert("quantity"@[0] == 'q' && "leverage"@[0] == 'l');
    assert("type"@[0] == 't' && "side"@[0] == 's');
    let params = close_position_params(position, price, side_names);
    assert(params[0].0 == "leverage"@ && params[1].0 == "positionSide"@);
    assert(params[2].0 == "quantity"@ && params[3].0 == "side"@ && params[4].0 == "symbol"@);
    assert(params[5].0 == "type"@);
    assert(params.len() > 6 ==> params[6].0 == "price"@);
    assert(params.len() <= 7);
}

/// A position is closed on the side opposite to its own.
pub proof fn law_close_position_trades_back(
    position: ActivePosition,
    price: Option<Price>,
    side_names: SideNames,
    side: OrderSide,
)
    requires
        position.derivative.side == Some(side),
    ensures
        close_position_params(position, price, side_names)[3] == ("side"@, side_names.name(
            side.opposite(),
        )),
{
}

/// The same parameters once more.
fn copy_params(params: &HttpParams) -> (copy: HttpParams)
    ensures
        shown(copy@) == shown(params@),
{
    let mut copy: HttpParams = Vec::new();
    let mut i: usize = 0;
    while i < params.len()
        invariant
            i <= params@.len(),
            shown(copy@) == shown(params@.take(i as int)),
        decreases params@.len() - i,
    {
        let ghost before = copy@;
        let (name, value) = &params[i];
        copy.push((name.clone(), value.clone()));
        assert(shown(copy@) =~= shown(before).push((name@, value@)));
        assert(shown(params@.take(i + 1)) =~= shown(params@.take(i as int)).push((name@, value@)));
        i = i + 1;
    }
    assert(params@.take(params@.len() as int) =~= params@);
    copy
}

/// The parameters hold this name with this value.
pub open spec fn says(params: Seq<(String, String)>, name: Seq<char>, value: Seq<char>) -> bool {
    exists|i: int|
        0 <= i < params.len() && (#[trigger] params[i]).0@ == name && params[i].1@ == value
}

/// The parameters hold this name, whatever its value.
pub open spec fn mentions(params: Seq<(String, String)>, name: Seq<char>) -> bool {
    exists|i: int| 0 <= i < params.len() && (#[trigger] params[i]).0@ == name
}

/// What the texts of parameters hold at a place, the parameters hold there.
proof fn lemma_shown_at(params: Seq<(String, String)>, i: int)
    requires
        0 <= i < params.len(),
    ensures
        shown(params).len() == params.len(),
        shown(params)[i] == (params[i].0@, params[i].1@),
{
}

/// The names that the parameters of an order can have are told apart.
proof fn lemma_names_apart()
    ensures
        "price"@ != "symbol"@,
        "price"@ != "side"@,
        "price"@ != "type"@,
        "price"@ != "quantity"@,
        "price"@ != "newClientOrderId"@,
        "price"@ != "timeInForce"@,
        "price"@ != "leverage"@,
        "price"@ != "positionSide"@,
        "timeInForce"@ != "symbol"@,
        "timeInForce"@ != "side"@,
        "timeInForce"@ != "type"@,
        "timeInForce"@ != "quantity"@,
        "timeInForce"@ != "newClientOrderId"@,
{
    reveal_strlit("symbol");
    reveal_strlit("side");
    reveal_strlit("type");
    reveal_strlit("quantity");
    reveal_strlit("newClientOrderId");
    reveal_strlit("timeInForce");
    reveal_strlit("price");
    reveal_strlit("leverage");
    reveal_strlit("positionSide");
    assert("symbol"@.len() == 6 && "side"@.len() == 4 && "type"@.len() == 4);
    assert("quantity"@.len() == 8 && "newClientOrderId"@.len() == 16);
    assert("timeInForce"@.len() == 11 && "price"@.len() == 5);
    assert("leverage"@.len() == 8 && "positionSide"@.len() == 12);
}

/// Every new order says what is traded, on which side, how, how much and under which of the
/// client's names, whatever its type.
pub proof fn law_create_order_says_what_is_traded(
    account: Binance,
    order: OrderCreating,
    names: ServerOrderNames,
    draft: RestDraft,
)
    requires
        call_ensures(Binance::create_order, (&account, &order, &names), draft),
    ensures
        says(draft.params@, "symbol"@, names.symbol@),
        says(draft.params@, "side"@, names.side@),
        says(draft.params@, "type"@, names.order_type@),
        says(draft.params@, "quantity"@, order.header.amount.text()),
        says(draft.params@, "newClientOrderId"@, order.header.client_order_id@),
{
    let params = draft.params@;
    lemma_shown_at(params, 0);
    lemma_shown_at(params, 1);
    lemma_shown_at(params, 2);
    lemma_shown_at(params, 3);
    lemma_shown_at(params, 4);
    assert(params[0].0@ == "symbol"@);
    assert(params[1].0@ == "side"@);
    assert(params[2].0@ == "type"@);
    assert(params[3].0@ == "quantity"@);
    assert(params[4].0@ == "newClientOrderId"@);
}

/// A new order that is not a market order says its price and that it is good till cancelled,
/// whatever its execution type. A market order says no price; it says how long it is good
/// for only where it is a maker's alone, and then that it is not to be matched at once.
pub proof fn law_create_order_says_price(
    account: Binance,
    order: OrderCreating,
    names: ServerOrderNames,
    draft: RestDraft,
)
    requires
        call_ensures(Binance::create_order, (&account, &order, &names), draft),
    ensures
        order.header.order_type != OrderType::Market ==> says(
            draft.params@,
            "price"@,
            order.price.text(),
        ) && says(draft.params@, "timeInForce"@, "GTC"@) && draft.params@.len() == 7,
        order.header.order_type == OrderType::Market ==> !mentions(draft.params@, "price"@),
        order.header.order_type == OrderType::Market && order.header.execution_type
            == OrderExecutionType::MakerOnly ==> says(draft.params@, "timeInForce"@, "GTX"@)
            && draft.params@.len() == 6,
        order.header.order_type == OrderType::Market && order.header.execution_type
            != OrderExecutionType::MakerOnly ==> !mentions(draft.params@, "timeInForce"@)
            && draft.params@.len() == 5,
{
    let params = draft.params@;
    lemma_names_apart();
    assert(shown(params).len() == params.len());
    assert forall|i: int| 0 <= i < params.len() implies shown(params)[i] == (
        (#[trigger] params[i]).0@,
        params[i].1@,
    ) by {
        lemma_shown_at(params, i);
    }
    if params.len() > 5 {
        lemma_shown_at(params, 5);
        assert(params[5].0@ == "timeInForce"@);
    }
    if params.len() > 6 {
        lemma_shown_at(params, 6);
        assert(params[6].0@ == "price"@);
    }
}

/// The parameters of a new order stand in the same order for orders of every kind.
pub proof fn law_create_order_keeps_order(
    account: Binance,
    order: OrderCreating,
    names: ServerOrderNames,
    draft: RestDraft,
)
    requires
        call_ensures(Binance::create_order, (&account, &order, &names), draft),
    ensures
        5 <= draft.params@.len() <= 7,
        draft.params@[0].0@ == "symbol"@,
        draft.params@[1].0@ == "side"@,
        draft.params@[2].0@ == "type"@,
        draft.params@[3].0@ == "quantity"@,
        draft.params@[4].0@ == "newClientOrderId"@,
        draft.params@.len() > 5 ==> draft.params@[5].0@ == "timeInForce"@,
        draft.params@.len() > 6 ==> draft.params@[6].0@ == "price"@,
{
    let params = draft.params@;
    assert(shown(params).len() == params.len());
    assert forall|i: int| 0 <= i < params.len() implies shown(params)[i] == (
        (#[trigger] params[i]).0@,
        params[i].1@,
    ) by {
        lemma_shown_at(params, i);
    }
}

/// A new order, one that is withdrawn and one that is asked for are found at the same place,
/// which differs between the two markets; they are posted, deleted and got there.
pub proof fn law_orders_live_at_one_place(
    account: Binance,
    creating: OrderCreating,
    names: ServerOrderNames,
    cancelling: OrderCancelling,
    symbol: &str,
    client_order_id: &str,
    created: RestDraft,
    cancelled: RestDraft,
    asked: RestDraft,
)
    requires
        call_ensures(Binance::create_order, (&account, &creating, &names), created),
        call_ensures(Binance::request_cancel_order, (&account, &cancelling, symbol), cancelled),
        call_ensures(Binance::request_order_info, (&account, symbol, client_order_id), asked),
    ensures
        account.is_margin_trading ==> created.url_path@ == "/fapi/v1/order"@,
        !account.is_margin_trading ==> created.url_path@ == "/api/v3/order"@,
        created.url_path@ == cancelled.url_path@,
        created.url_path@ == asked.url_path@,
        created.method == HttpMethod::Post,
        cancelled.method == HttpMethod::Delete,
        asked.method == HttpMethod::Get,
        created.is_authenticated && cancelled.is_authenticated && asked.is_authenticated,
        asked.placement == Placement::Uri,
{
}

/// An order is withdrawn by the identifier that the exchange gave it and asked for by the one
/// that the client gave it, both times beside its currency pair and nothing else.
pub proof fn law_orders_are_named(
    account: Binance,
    cancelling: OrderCancelling,
    symbol: &str,
    client_order_id: &str,
    cancelled: RestDraft,
    asked: RestDraft,
)
    requires
        call_ensures(Binance::request_cancel_order, (&account, &cancelling, symbol), cancelled),
        call_ensures(Binance::request_order_info, (&account, symbol, client_order_id), asked),
    ensures
        cancelled.params@.len() == 2,
        asked.params@.len() == 2,
        says(cancelled.params@, "symbol"@, symbol@),
        says(cancelled.params@, "orderId"@, cancelling.exchange_order_id@),
        says(asked.params@, "symbol"@, symbol@),
        says(asked.params@, "origClientOrderId"@, client_order_id@),
        cancelled.params@[0].0@ == "symbol"@ && asked.params@[0].0@ == "symbol"@,
{
    assert(shown(cancelled.params@).len() == cancelled.params@.len());
    assert(shown(asked.params@).len() == asked.params@.len());
    lemma_shown_at(cancelled.params@, 0);
    lemma_shown_at(cancelled.params@, 1);
    lemma_shown_at(asked.params@, 0);
    lemma_shown_at(asked.params@, 1);
    assert(cancelled.params@[0].0@ == "symbol"@);
    assert(cancelled.params@[1].0@ == "orderId"@);
    assert(asked.params@[0].0@ == "symbol"@);
    assert(asked.params@[1].0@ == "origClientOrderId"@);
}

/// What is asked or withdrawn for a whole currency pair names that pair and nothing else.
pub proof fn law_pair_requests_name_the_pair(
    account: Binance,
    symbol: &str,
    last: Option<DateTime>,
    cancelled: RestDraft,
    open_orders: HttpParams,
    trades: RestDraft,
)
    requires
        call_ensures(Binance::cancel_all_orders, (&account, symbol), cancelled),
        call_ensures(
            Binance::request_open_orders_by_currency_pair,
            (&account, symbol),
            open_orders,
        ),
        call_ensures(Binance::request_my_trades, (&account, symbol, last), trades),
    ensures
        cancelled.params@.len() == 1 && says(cancelled.params@, "symbol"@, symbol@),
        open_orders@.len() == 1 && says(open_orders@, "symbol"@, symbol@),
        trades.params@.len() == 1 && says(trades.params@, "symbol"@, symbol@),
        cancelled.method == HttpMethod::Delete && cancelled.url_path@ == "/api/v3/openOrders"@,
        trades.method == HttpMethod::Get,
        account.is_margin_trading ==> trades.url_path@ == "/fapi/v1/userTrades"@,
        !account.is_margin_trading ==> trades.url_path@ == "/api/v3/myTrades"@,
        cancelled.is_authenticated && trades.is_authenticated,
        cancelled.placement == Placement::Uri && trades.placement == Placement::Uri,
{
    assert(shown(cancelled.params@).len() == cancelled.params@.len());
    assert(shown(open_orders@).len() == open_orders@.len());
    assert(shown(trades.params@).len() == trades.params@.len());
    lemma_shown_at(cancelled.params@, 0);
    lemma_shown_at(open_orders@, 0);
    lemma_shown_at(trades.params@, 0);
    assert(cancelled.params@[0].0@ == "symbol"@);
    assert(open_orders@[0].0@ == "symbol"@);
    assert(trades.params@[0].0@ == "symbol"@);
}

/// What is asked of the account as a whole carries no parameter of its own. Only the list of
/// what can be traded is open to everyone.
pub proof fn law_account_requests_carry_nothing(
    account: Binance,
    symbols: RestDraft,
    open_orders: HttpParams,
    position: RestDraft,
    balance: RestDraft,
)
    requires
        call_ensures(Binance::request_all_symbols, (&account,), symbols),
        call_ensures(Binance::request_open_orders, (&account,), open_orders),
        call_ensures(Binance::request_get_position, (&account,), position),
        call_ensures(Binance::request_get_balance, (&account,), balance),
    ensures
        symbols.params@.len() == 0 && open_orders@.len() == 0,
        position.params@.len() == 0 && balance.params@.len() == 0,
        symbols.method == HttpMethod::Get && position.method == HttpMethod::Get && balance.method
            == HttpMethod::Get,
        !symbols.is_authenticated && position.is_authenticated && balance.is_authenticated,
        symbols.placement == Placement::Uri && position.placement == Placement::Uri
            && balance.placement == Placement::Uri,
        symbols.url_path@ == "/api/v3/exchangeInfo"@,
        position.url_path@ == "/fapi/v2/positionRisk"@,
        account.is_margin_trading ==> balance.url_path@ == "/fapi/v2/account"@,
        !account.is_margin_trading ==> balance.url_path@ == "/api/v3/account"@,
{
}

/// Closing a position trades all of it, without its sign, on the side opposite to its own.
/// It says its price where one is given and nothing of a price where none is.
pub proof fn law_close_position_says_all(
    account: Binance,
    position: ActivePosition,
    price: Option<Price>,
    side_names: SideNames,
    draft: RestDraft,
)
    requires
        call_ensures(
            Binance::request_close_position,
            (&account, &position, price, &side_names),
            draft,
        ),
    ensures
        draft.method == HttpMethod::Post && draft.url_path@ == "/fapi/v1/order"@,
        draft.is_authenticated,
        draft.params@[0].0@ == "leverage"@ && draft.params@[1].0@ == "positionSide"@,
        draft.params@[2].0@ == "quantity"@ && draft.params@[3].0@ == "side"@,
        draft.params@[4].0@ == "symbol"@ && draft.params@[5].0@ == "type"@,
        says(draft.params@, "leverage"@, position.derivative.leverage.text()),
        says(draft.params@, "positionSide"@, "BOTH"@),
        says(
            draft.params@,
            "quantity"@,
            crate::decimal::printed(
                false,
                position.derivative.position.mantissa(),
                position.derivative.position.scale() as nat,
            ),
        ),
        says(draft.params@, "symbol"@, position.derivative.currency_pair@),
        position.derivative.side == Some(OrderSide::Buy) ==> says(
            draft.params@,
            "side"@,
            side_names.sell@,
        ),
        position.derivative.side == Some(OrderSide::Sell) ==> says(
            draft.params@,
            "side"@,
            side_names.buy@,
        ),
        position.derivative.side is None ==> says(draft.params@, "side"@, "0"@),
        price is Some ==> says(draft.params@, "type"@, "MARKET"@) && says(
            draft.params@,
            "price"@,
            price->0.text(),
        ) && draft.params@.len() == 7,
        price is None ==> says(draft.params@, "type"@, "LIMIT"@) && !mentions(
            draft.params@,
            "price"@,
        ) && draft.params@.len() == 6,
{
    let params = draft.params@;
    lemma_names_apart();
    assert(shown(params).len() == params.len());
    assert forall|i: int| 0 <= i < params.len() implies shown(params)[i] == (
        (#[trigger] params[i]).0@,
        params[i].1@,
    ) by {
        lemma_shown_at(params, i);
    }
    assert(params[0].0@ == "leverage"@);
    assert(params[1].0@ == "positionSide"@);
    assert(params[2].0@ == "quantity"@);
    assert(params[3].0@ == "side"@);
    assert(params[4].0@ == "symbol"@);
    assert(params[5].0@ == "type"@);
    if price is Some {
        assert(params[6].0@ == "price"@);
    }
}

/// A request goes to the account's host under its key, as it was drafted. What is got or
/// deleted carries its parameters in the address, a new order in its body, and an order that
/// closes a position in both.
pub proof fn law_requests_are_sent_as_drafted(
    account: Binance,
    draft: RestDraft,
    authenticated: HttpParams,
    request: RestRequest,
)
    requires
        call_ensures(Binance::complete, (&account, draft, authenticated), request),
    ensures
        request.host@ == account.rest_host@ && request.api_key@ == account.api_key@,
        request.method == draft.method && request.url_path@ == draft.url_path@,
        draft.placement == Placement::Uri ==> request.body is None,
        draft.placement == Placement::Body ==> request.body is Some && request.uri_params@.len()
            == 0,
        draft.placement == Placement::UriAndBody ==> request.body is Some
            && request.uri_params@.len() == request.body->0@.len(),
        forall|name: Seq<char>, value: Seq<char>|
            draft.placement != Placement::Body ==> (#[trigger] says(
                request.uri_params@,
                name,
                value,
            ) <==> if draft.is_authenticated {
                says(authenticated@, name, value)
            } else {
                says(draft.params@, name, value)
            }),
        forall|name: Seq<char>, value: Seq<char>|
            draft.placement != Placement::Uri ==> (#[trigger] says(
                request.body->0@,
                name,
                value,
            ) <==> if draft.is_authenticated {
                says(authenticated@, name, value)
            } else {
                says(draft.params@, name, value)
            }),
{
    let params = if draft.is_authenticated {
        authenticated@
    } else {
        draft.params@
    };
    assert(shown(request.uri_params@).len() == request.uri_params@.len());
    if draft.placement != Placement::Uri {
        assert(shown(request.body->0@).len() == request.body->0@.len());
        lemma_shown_says(request.body->0@, params);
    }
    if draft.placement != Placement::Body {
        lemma_shown_says(request.uri_params@, params);
    }
}

/// Parameters with the same texts say the same.
proof fn lemma_shown_says(one: Seq<(String, String)>, other: Seq<(String, String)>)
    requires
        shown(one) == shown(other),
    ensures
        forall|name: Seq<char>, value: Seq<char>|
            #[trigger] says(one, name, value) <==> says(other, name, value),
{
    assert(shown(one).len() == one.len() && shown(other).len() == other.len());
    assert forall|name: Seq<char>, value: Seq<char>| #[trigger]
        says(one, name, value) <==> says(other, name, value) by {
        if says(one, name, value) {
            let i = choose|i: int|
                0 <= i < one.len() && (#[trigger] one[i]).0@ == name && one[i].1@ == value;
            lemma_shown_at(one, i);
            lemma_shown_at(other, i);
            assert(other[i].0@ == name);
        }
        if says(other, name, value) {
            let i = choose|i: int|
                0 <= i < other.len() && (#[trigger] other[i]).0@ == name && other[i].1@ == value;
            lemma_shown_at(one, i);
            lemma_shown_at(other, i);
            assert(one[i].0@ == name);
        }
    }
}

/// The parameters of a new order are its body, those of an order that closes a position stand
/// in the address too, and those of one that is withdrawn stand in the address alone.
pub proof fn law_where_parameters_go(
    account: Binance,
    creating: OrderCreating,
    names: ServerOrderNames,
    position: ActivePosition,
    price: Option<Price>,
    side_names: SideNames,
    cancelling: OrderCancelling,
    symbol: &str,
    created: RestDraft,
    closed: RestDraft,
    cancelled: RestDraft,
)
    requires
        call_ensures(Binance::create_order, (&account, &creating, &names), created),
        call_ensures(
            Binance::request_close_position,
            (&account, &position, price, &side_names),
            closed,
        ),
        call_ensures(Binance::request_cancel_order, (&account, &cancelling, symbol), cancelled),
    ensures
        created.placement == Placement::Body,
        closed.placement == Placement::UriAndBody,
        cancelled.placement == Placement::Uri,
{
}

} // verus!
