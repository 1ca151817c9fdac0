use mmb::decimal::Decimal;
use mmb::market::{CurrencyCode, CurrencyPair, ExchangeAccountId};
use mmb::settings::{
    AppSettings, CoreSettings, CurrencyPriceSourceSettings, DbSettings,
    ExchangeIdCurrencyPairSettings, ExchangeSettings, ProfitLossStopperSettings, StopperCondition,
    TimePeriodKind,
};

#[test]
fn short_settings() {
    let settings = ExchangeSettings::new_short(
        ExchangeAccountId::new("Binance", 1),
        "key".to_owned(),
        "secret".to_owned(),
        true,
    );
    assert_eq!(settings.exchange_account_id.exchange_id, "Binance");
    assert_eq!(settings.exchange_account_id.account_number, 1);
    assert_eq!(settings.api_key, "key");
    assert_eq!(settings.secret_key, "secret");
    assert!(settings.is_margin_trading);
    assert!(!settings.request_trades);
    assert!(settings.websocket_channels.is_empty());
    assert_eq!(settings.currency_pairs, None);
    assert!(settings.subscribe_to_market_data);
    assert_eq!(settings.subscribe_to_index_price, Some(false));
    assert_eq!(settings.is_reducing_market_data, None);
    assert_eq!(settings.is_demo_instance, Some(false));
    assert_eq!(settings.do_not_cancel_limit_order_within_ticks, Some(Decimal::new(0, 0)));
    assert_eq!(settings.sub_account_id, None);
    assert_eq!(settings.relative_price_to_market_when_within_ticks, None);
    assert_eq!(settings.update_orders_every_millis, None);
}

#[test]
fn default_settings_are_short_settings_of_nobody() {
    assert_eq!(
        ExchangeSettings::default(),
        ExchangeSettings::new_short(
            ExchangeAccountId::new("", 0),
            "".to_owned(),
            "".to_owned(),
            false,
        )
    );
    let settings: AppSettings<u8> = AppSettings::default();
    assert_eq!(settings.strategy, 0);
    assert_eq!(settings.core, CoreSettings::default());
    assert_eq!(settings.core.database, None);
    assert!(settings.core.exchanges.is_empty());
    assert_eq!(DbSettings::default().postponed_events_dir, None);
}

#[test]
fn price_source_settings() {
    let settings = CurrencyPriceSourceSettings::new(
        CurrencyCode::new("btc"),
        CurrencyCode::new("usd"),
        vec![ExchangeIdCurrencyPairSettings {
            exchange_account_id: ExchangeAccountId::new("Binance", 0),
            currency_pair: CurrencyPair::from_codes(
                CurrencyCode::new("btc"),
                CurrencyCode::new("usdt"),
            ),
        }],
    );
    assert_eq!(settings.start_currency_code.code, "btc");
    assert_eq!(settings.end_currency_code.code, "usd");
    assert_eq!(settings.exchange_id_currency_pair_settings.len(), 1);
    assert_eq!(
        settings.exchange_id_currency_pair_settings[0].currency_pair.quote,
        CurrencyCode::new("usdt")
    );
}

#[test]
fn stopper_settings_hold_conditions() {
    let settings = ProfitLossStopperSettings {
        conditions: vec![StopperCondition {
            period_kind: TimePeriodKind::Hour,
            period_value: 2,
            limit: Decimal::new(-10, 0),
        }],
    };
    assert!(matches!(settings.conditions[0].period_kind, TimePeriodKind::Hour));
    assert_eq!(settings.conditions[0].limit, Decimal::new(-100, 1));
}
