use nautilus_coinbase::common::enums::{
    CoinbaseEnvironment, CoinbaseGranularity, CoinbaseOrderSide, CoinbaseOrderStatus,
    CoinbaseOrderType, CoinbaseProductStatus, CoinbaseProductType, CoinbaseTimeInForce,
    CoinbaseWsChannel,
};

#[test]
fn test_product_type_display() {
    assert_eq!(CoinbaseProductType::Spot.as_str(), "SPOT");
    assert_eq!(CoinbaseProductType::Future.as_str(), "FUTURE");
}

#[test]
fn test_order_side_from_str() {
    assert_eq!(CoinbaseOrderSide::from_wire("BUY"), Some(CoinbaseOrderSide::Buy));
    assert_eq!(CoinbaseOrderSide::from_wire("SELL"), Some(CoinbaseOrderSide::Sell));
    assert_eq!(CoinbaseOrderSide::from_wire("buy"), None);
}

#[test]
fn test_ws_channel_requires_auth() {
    assert!(CoinbaseWsChannel::User.requires_auth());
    assert!(CoinbaseWsChannel::FuturesBalanceSummary.requires_auth());
    assert!(!CoinbaseWsChannel::Level2.requires_auth());
    assert!(!CoinbaseWsChannel::MarketTrades.requires_auth());
    assert!(!CoinbaseWsChannel::Ticker.requires_auth());
}

#[test]
fn test_order_status_serialization() {
    assert_eq!(CoinbaseOrderStatus::Open.as_str(), "OPEN");
    assert_eq!(CoinbaseOrderStatus::from_wire("CANCELLED"), Some(CoinbaseOrderStatus::Cancelled));
}

#[test]
fn test_screaming_snake_case_multi_word() {
    assert_eq!(CoinbaseOrderType::StopLimit.as_str(), "STOP_LIMIT");
    assert_eq!(CoinbaseOrderStatus::CancelQueued.as_str(), "CANCEL_QUEUED");
    assert_eq!(CoinbaseTimeInForce::GoodUntilDate.as_str(), "GOOD_UNTIL_DATE");
    assert_eq!(CoinbaseGranularity::FifteenMinute.as_str(), "FIFTEEN_MINUTE");
}

#[test]
fn test_ws_channel_snake_case() {
    assert_eq!(CoinbaseWsChannel::Level2.as_str(), "level2");
    assert_eq!(CoinbaseWsChannel::MarketTrades.as_str(), "market_trades");
    assert_eq!(CoinbaseWsChannel::FuturesBalanceSummary.as_str(), "futures_balance_summary");
}

#[test]
fn test_unknown_variants_have_qualified_names() {
    assert_eq!(CoinbaseOrderSide::Unknown.as_str(), "UNKNOWN_ORDER_SIDE");
    assert_eq!(CoinbaseOrderType::Unknown.as_str(), "UNKNOWN_ORDER_TYPE");
    assert_eq!(CoinbaseOrderStatus::Unknown.as_str(), "UNKNOWN_ORDER_STATUS");
    assert_eq!(CoinbaseTimeInForce::Unknown.as_str(), "UNKNOWN_TIME_IN_FORCE");
}

#[test]
fn test_wire_names_round_trip() {
    for c in [
        CoinbaseWsChannel::Level2,
        CoinbaseWsChannel::MarketTrades,
        CoinbaseWsChannel::Ticker,
        CoinbaseWsChannel::TickerBatch,
        CoinbaseWsChannel::Candles,
        CoinbaseWsChannel::User,
        CoinbaseWsChannel::Heartbeats,
        CoinbaseWsChannel::FuturesBalanceSummary,
        CoinbaseWsChannel::Status,
    ] {
        assert_eq!(CoinbaseWsChannel::from_wire(c.as_str()), Some(c));
    }
    assert_eq!(CoinbaseProductStatus::from_wire(""), Some(CoinbaseProductStatus::Unset));
    assert_eq!(CoinbaseProductStatus::Online.as_str(), "online");
}

#[test]
fn test_environment_default_and_sandbox() {
    assert_eq!(CoinbaseEnvironment::default(), CoinbaseEnvironment::Live);
    assert!(CoinbaseEnvironment::Sandbox.is_sandbox());
    assert!(!CoinbaseEnvironment::Live.is_sandbox());
}
