//! The settings of the application.
use crate::decimal::{Amount, Decimal};
use crate::market::{CurrencyCode, CurrencyPair, ExchangeAccountId};
use std::path::PathBuf;
use vstd::prelude::*;

verus! {

/// A path in the file system, carried as it is.
#[verifier::external_type_specification]
#[verifier::external_body]
pub struct ExPathBuf(PathBuf);

/// What a strategy is configured to trade.
pub trait DispositionStrategySettings {
    fn exchange_account_id(&self) -> ExchangeAccountId;

    fn currency_pair(&self) -> CurrencyPair;

    fn max_amount(&self) -> Amount;
}

/// Application settings.
///
/// After a change at run time the settings have to be saved, and the trading engine has to
/// be restarted for them to be applied.
#[derive(Debug, Default, Clone, PartialEq, Eq)]
pub struct AppSettings<StrategySettings: Clone> {
    pub strategy: StrategySettings,
    pub core: CoreSettings,
}

/// The settings that do not depend on the strategy.
#[derive(Debug, Default, Clone, PartialEq, Eq)]
pub struct CoreSettings {
    pub database: Option<DbSettings>,
    pub exchanges: Vec<ExchangeSettings>,
}

/// Where events are stored.
#[derive(Debug, Default, Clone, PartialEq, Eq)]
pub struct DbSettings {
    pub url: String,
    pub migrations: Vec<PathBuf>,
    /// The directory for events that could not be saved to the database and will be saved
    /// to it later.
    pub postponed_events_dir: Option<PathBuf>,
}

/// A currency pair, by its codes or by the name that the exchange gives it.
#[derive(Debug, Clone, PartialEq, Eq)]
pub enum CurrencyPairSetting {
    Ordinary { base: CurrencyCode, quote: CurrencyCode },
    Specific(String),
}

/// How an account on an exchange is used.
#[derive(Debug, Clone, PartialEq, Eq)]
pub struct ExchangeSettings {
    pub exchange_account_id: ExchangeAccountId,
    pub api_key: String,
    pub secret_key: String,
    pub is_margin_trading: bool,
    pub request_trades: bool,
    pub is_reducing_market_data: Option<bool>,
    pub subscribe_to_market_data: bool,
    pub subscribe_to_index_price: Option<bool>,
    pub websocket_channels: Vec<String>,
    pub currency_pairs: Option<Vec<CurrencyPairSetting>>,
    pub is_demo_instance: Option<bool>,
    pub do_not_cancel_limit_order_within_ticks: Option<Decimal>,
    pub sub_account_id: Option<usize>,
    pub relative_price_to_market_when_within_ticks: Option<Decimal>,
    pub update_orders_every_millis: Option<i64>,
}

impl ExchangeSettings {
    /// Everything but the account, its keys and the kind of trading is as it is by default.
    pub open spec fn is_standard(&self) -> bool {
        &&& !self.request_trades
        &&& self.websocket_channels@.len() == 0
        &&& self.currency_pairs is None
        &&& self.subscribe_to_market_data
        &&& self.subscribe_to_index_price == Some(false)
        &&& self.is_reducing_market_data is None
        &&& self.is_demo_instance == Some(false)
        &&& self.do_not_cancel_limit_order_within_ticks matches Some(ticks)
        &&& ticks.is_plain_zero()
        &&& self.sub_account_id is None
        &&& self.relative_price_to_market_when_within_ticks is None
        &&& self.update_orders_every_millis is None
    }

    /// Standard settings for an account.
    pub fn new_short(
        exchange_account_id: ExchangeAccountId,
        api_key: String,
        secret_key: String,
        is_margin_trading: bool,
    ) -> (settings: ExchangeSettings)
        ensures
            settings.exchange_account_id == exchange_account_id,
            settings.api_key == api_key,
            settings.secret_key == secret_key,
            settings.is_margin_trading == is_margin_trading,
            settings.is_standard(),
    {
        ExchangeSettings {
            exchange_account_id,
            api_key,
            secret_key,
            is_margin_trading,
            request_trades: false,
            websocket_channels: Vec::new(),
            currency_pairs: None,
            subscribe_to_market_data: true,
            subscribe_to_index_price: Some(false),
            is_reducing_market_data: None,
            is_demo_instance: Some(false),
            do_not_cancel_limit_order_within_ticks: Some(Decimal::new(0, 0)),
            sub_account_id: None,
            relative_price_to_market_when_within_ticks: None,
            update_orders_every_millis: None,
        }
    }
}

impl Default for ExchangeSettings {
    fn default() -> (settings: Self)
        ensures
            settings.exchange_account_id.exchange_id@ == ""@,
            settings.exchange_account_id.account_number == 0,
            settings.api_key@ == ""@,
            settings.secret_key@ == ""@,
            !settings.is_margin_trading,
            settings.is_standard(),
    {
        ExchangeSettings {
            exchange_account_id: ExchangeAccountId::new("", 0),
            api_key: "".to_owned(),
            secret_key: "".to_owned(),
            is_margin_trading: false,
            request_trades: false,
            websocket_channels: Vec::new(),
            currency_pairs: None,
            subscribe_to_market_data: true,
            subscribe_to_index_price: Some(false),
            is_reducing_market_data: None,
            is_demo_instance: Some(false),
            do_not_cancel_limit_order_within_ticks: Some(Decimal::new(0, 0)),
            sub_account_id: None,
            relative_price_to_market_when_within_ticks: None,
            update_orders_every_millis: None,
        }
    }
}

/// How a price in one currency is turned into one in another.
pub struct CurrencyPriceSourceSettings {
    pub start_currency_code: CurrencyCode,
    pub end_currency_code: CurrencyCode,
    /// The markets over which the start currency is turned into the end currency.
    pub exchange_id_currency_pair_settings: Vec<ExchangeIdCurrencyPairSettings>,
}

impl CurrencyPriceSourceSettings {
    /// The way from the start currency to the end currency over these markets.
    pub fn new(
        start_currency_code: CurrencyCode,
        end_currency_code: CurrencyCode,
        exchange_id_currency_pair_settings: Vec<ExchangeIdCurrencyPairSettings>,
    ) -> (settings: CurrencyPriceSourceSettings)
        ensures
            settings == (CurrencyPriceSourceSettings {
                start_currency_code,
                end_currency_code,
                exchange_id_currency_pair_settings,
            }),
    {
        CurrencyPriceSourceSettings {
            start_currency_code,
            end_currency_code,
            exchange_id_currency_pair_settings,
        }
    }
}

/// A currency pair on an exchange.
pub struct ExchangeIdCurrencyPairSettings {
    pub exchange_account_id: ExchangeAccountId,
    pub currency_pair: CurrencyPair,
}

/// The unit of a period.
pub enum TimePeriodKind {
    Hour,
    Day,
}

/// A limit that applies to a period of `period_value` units.
pub struct StopperCondition {
    pub period_kind: TimePeriodKind,
    pub period_value: i64,
    pub limit: Amount,
}

/// The conditions on which trading stops.
pub struct ProfitLossStopperSettings {
    pub conditions: Vec<StopperCondition>,
}

/// Settings that are made for an account hold what they were made with. Beside that they ask
/// for market data and for nothing else: no trades, no index prices, no channels or currency
/// pairs, no demonstration, and no distance at which orders are kept.
pub proof fn law_short_settings_are_standard(
    exchange_account_id: ExchangeAccountId,
    api_key: String,
    secret_key: String,
    is_margin_trading: bool,
    settings: ExchangeSettings,
)
    requires
        call_ensures(
            ExchangeSettings::new_short,
            (exchange_account_id, api_key, secret_key, is_margin_trading),
            settings,
        ),
    ensures
        settings.exchange_account_id == exchange_account_id,
        settings.api_key == api_key,
        settings.secret_key == secret_key,
        settings.is_margin_trading == is_margin_trading,
        settings.subscribe_to_market_data,
        !settings.request_trades,
        settings.subscribe_to_index_price == Some(false),
        settings.is_demo_instance == Some(false),
        settings.websocket_channels@.len() == 0,
        settings.currency_pairs is None,
        settings.is_reducing_market_data is None,
        settings.do_not_cancel_limit_order_within_ticks matches Some(ticks) && ticks.mantissa() == 0
            && ticks.scale() == 0 && !ticks.negative(),
        settings.sub_account_id is None,
        settings.relative_price_to_market_when_within_ticks is None,
        settings.update_orders_every_millis is None,
{
}

/// By default the settings are those of the first account without name and keys, on the spot
/// market.
pub proof fn law_default_settings_are_standard(settings: ExchangeSettings, short: ExchangeSettings)
    requires
        call_ensures(<ExchangeSettings as Default>::default, (), settings),
        call_ensures(
            ExchangeSettings::new_short,
            (
                short.exchange_account_id,
                short.api_key,
                short.secret_key,
                short.is_margin_trading,
            ),
            short,
        ),
    ensures
        settings.exchange_account_id.exchange_id@ == ""@,
        settings.exchange_account_id.account_number == 0,
        settings.api_key@ == ""@ && settings.secret_key@ == ""@,
        !settings.is_margin_trading,
        settings.subscribe_to_market_data == short.subscribe_to_market_data,
        settings.request_trades == short.request_trades,
        settings.subscribe_to_index_price == short.subscribe_to_index_price,
        settings.is_demo_instance == short.is_demo_instance,
        settings.websocket_channels@ == short.websocket_channels@,
        settings.currency_pairs == short.currency_pairs,
        settings.is_reducing_market_data == short.is_reducing_market_data,
        settings.sub_account_id == short.sub_account_id,
        settings.relative_price_to_market_when_within_ticks
            == short.relative_price_to_market_when_within_ticks,
        settings.update_orders_every_millis == short.update_orders_every_millis,
        settings.do_not_cancel_limit_order_within_ticks matches Some(ticks) && ticks.mantissa() == 0
            && ticks.scale() == 0 && !ticks.negative(),
{
}

} // verus!
