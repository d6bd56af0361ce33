use nautilus_coinbase::common::enums::{
    CoinbaseContractExpiryType, CoinbaseOrderSide, CoinbaseProductType,
};
use nautilus_coinbase::http::models::{BookLevel, Candle, FutureProductDetails, PriceBook, Product, Trade};
use nautilus_coinbase::http::parse::{
    coinbase_side_to_aggressor, is_perpetual_product, parse_bar, parse_epoch_secs_timestamp,
    parse_future_instrument, parse_instrument, parse_perpetual_instrument, parse_price,
    parse_product_book_snapshot, parse_quantity, parse_rfc3339_timestamp, parse_spot_instrument,
    parse_trade_tick, precision_from_increment,
};
use nautilus_coinbase::model::{
    instrument_id_from_product, AggregationSource, AggressorSide, BarAggregation,
    BarSpecification, BarType, BookAction, DataError, InstrumentAny, OrderSide, Price, PriceType,
    Quantity, F_LAST, F_SNAPSHOT,
};

fn price(s: &str) -> Price {
    Price::from_decimal_str(s).unwrap()
}

fn qty(s: &str) -> Quantity {
    Quantity::from_decimal_str(s).unwrap()
}

fn spot_product(product_id: &str, base: &str) -> Product {
    Product {
        product_id: product_id.to_string(),
        base_currency_id: base.to_string(),
        quote_currency_id: "USD".to_string(),
        price_increment: "0.01".to_string(),
        base_increment: "0.00000001".to_string(),
        base_min_size: "0.00000001".to_string(),
        base_max_size: "3400".to_string(),
        display_name: product_id.to_string(),
        product_type: CoinbaseProductType::Spot,
        future_product_details: None,
    }
}

fn perp_product() -> Product {
    Product {
        product_id: "BIP-20DEC30-CDE".to_string(),
        base_currency_id: String::new(),
        quote_currency_id: "USD".to_string(),
        price_increment: "5".to_string(),
        base_increment: "1".to_string(),
        base_min_size: "1".to_string(),
        base_max_size: "100000".to_string(),
        display_name: "BTC PERP".to_string(),
        product_type: CoinbaseProductType::Future,
        future_product_details: Some(FutureProductDetails {
            contract_size: "0.01".to_string(),
            contract_expiry: "2030-12-20T16:00:00Z".to_string(),
            contract_expiry_type: CoinbaseContractExpiryType::Expiring,
            funding_rate: "0.000004".to_string(),
        }),
    }
}

fn dated_future_product() -> Product {
    Product {
        product_id: "BIT-24APR26-CDE".to_string(),
        base_currency_id: String::new(),
        quote_currency_id: "USD".to_string(),
        price_increment: "5".to_string(),
        base_increment: "1".to_string(),
        base_min_size: "1".to_string(),
        base_max_size: "100000".to_string(),
        display_name: "BTC 24 APR 26".to_string(),
        product_type: CoinbaseProductType::Future,
        future_product_details: Some(FutureProductDetails {
            contract_size: "0.01".to_string(),
            contract_expiry: "2026-04-24T15:00:00Z".to_string(),
            contract_expiry_type: CoinbaseContractExpiryType::Expiring,
            funding_rate: String::new(),
        }),
    }
}

#[test]
fn test_precision_from_increment() {
    for (increment, expected) in
        [("0.01", 2), ("0.00000001", 8), ("1", 0), ("5", 0), ("0.1", 1), ("0.001", 3)]
    {
        assert_eq!(precision_from_increment(increment), expected);
    }
}

#[test]
fn test_precision_from_increment_trailing_zeros() {
    assert_eq!(precision_from_increment("0.0100"), 2);
    assert_eq!(precision_from_increment("10"), 0);
}

#[test]
fn test_precision_from_increment_counts_utf8_bytes() {
    assert_eq!(precision_from_increment("0.\u{e9}"), 2);
    assert_eq!(precision_from_increment("0.a\u{e9}00"), 3);
}

#[test]
fn test_parse_rfc3339_timestamp() {
    let ts = parse_rfc3339_timestamp("2026-04-07T00:28:32.643779Z").unwrap();
    assert_eq!(ts, 1_775_521_712_643_779_000);
}

#[test]
fn test_parse_rfc3339_timestamp_rejects_invalid() {
    for input in ["", "not-a-date", "2026-13-01T00:00:00Z"] {
        assert!(parse_rfc3339_timestamp(input).is_err());
    }
}

#[test]
fn test_parse_epoch_secs_timestamp() {
    let ts = parse_epoch_secs_timestamp("1712192400").unwrap();
    assert_eq!(ts, 1_712_192_400_000_000_000);
}

#[test]
fn test_parse_epoch_secs_timestamp_rejects_invalid() {
    for input in ["", "abc"] {
        assert_eq!(parse_epoch_secs_timestamp(input), Err(DataError::InvalidInteger));
    }
}

#[test]
fn test_parse_price_valid() {
    let p = parse_price("68913.87", 2).unwrap();
    assert_eq!(p, price("68913.87"));
    assert_eq!(p.raw, 68_913_870_000_000);
    assert_eq!(p.precision, 2);
}

#[test]
fn test_parse_price_rejects_invalid() {
    for input in ["", "abc"] {
        assert!(parse_price(input, 2).is_err());
    }
}

#[test]
fn test_parse_price_rounds_half_even() {
    assert_eq!(parse_price("1.005", 2).unwrap().raw, 1_000_000_000);
    assert_eq!(parse_price("1.015", 2).unwrap().raw, 1_020_000_000);
}

#[test]
fn test_parse_quantity_valid() {
    let q = parse_quantity("0.00014004", 8).unwrap();
    assert_eq!(q, qty("0.00014004"));
    assert_eq!(q.raw, 140_040);
}

#[test]
fn test_parse_quantity_rejects_invalid() {
    for input in ["", "abc"] {
        assert!(parse_quantity(input, 8).is_err());
    }
    assert_eq!(parse_quantity("-1", 8), Err(DataError::NegativeQuantity));
}

#[test]
fn test_parse_spot_instrument() {
    let product = spot_product("BTC-USD", "BTC");
    let instrument = parse_spot_instrument(&product, 0).unwrap();
    let pair = match &instrument {
        InstrumentAny::CurrencyPair(p) => p,
        other => panic!("Expected CurrencyPair, was {other:?}"),
    };
    assert_eq!(pair.id.symbol, "BTC-USD");
    assert_eq!(pair.id.venue, "COINBASE");
    assert_eq!(pair.base_currency, "BTC");
    assert_eq!(pair.quote_currency, "USD");
    assert_eq!(pair.price_precision, 2);
    assert_eq!(pair.size_precision, 8);
    assert_eq!(pair.price_increment, price("0.01"));
    assert_eq!(pair.size_increment, qty("0.00000001"));
    assert_eq!(pair.min_quantity, Some(qty("0.00000001")));
    assert_eq!(pair.max_quantity, Some(qty("3400")));
}

#[test]
fn test_parse_spot_instruments_from_list() {
    let products = [spot_product("BTC-USD", "BTC"), spot_product("ETH-USD", "ETH")];
    let instruments: Vec<InstrumentAny> =
        products.iter().map(|p| parse_instrument(p, 0).unwrap()).collect();
    assert_eq!(instruments.len(), 2);
    for inst in &instruments {
        assert!(matches!(inst, InstrumentAny::CurrencyPair(_)));
    }
}

#[test]
fn test_parse_future_instruments_distinguishes_perp_and_dated() {
    let products = [perp_product(), dated_future_product()];
    let instruments: Vec<InstrumentAny> =
        products.iter().map(|p| parse_instrument(p, 0).unwrap()).collect();
    assert_eq!(instruments.len(), 2);
    assert!(matches!(&instruments[0], InstrumentAny::CryptoPerpetual(_)));
    assert!(matches!(&instruments[1], InstrumentAny::CryptoFuture(_)));
}

#[test]
fn test_parse_perpetual_instrument_derives_base_from_display_name() {
    let instrument = parse_perpetual_instrument(&perp_product(), 0).unwrap();
    let perp = match &instrument {
        InstrumentAny::CryptoPerpetual(p) => p,
        other => panic!("Expected CryptoPerpetual, was {other:?}"),
    };
    assert_eq!(perp.base_currency, "BTC");
    assert_eq!(perp.quote_currency, "USD");
}

#[test]
fn test_parse_perpetual_instrument_has_contract_size_multiplier() {
    let instrument = parse_perpetual_instrument(&perp_product(), 0).unwrap();
    let perp = match &instrument {
        InstrumentAny::CryptoPerpetual(p) => p,
        other => panic!("Expected CryptoPerpetual, was {other:?}"),
    };
    assert_eq!(perp.multiplier, Some(qty("0.01")));
}

#[test]
fn test_parse_future_instrument_has_expiry_and_multiplier() {
    let instrument = parse_future_instrument(&dated_future_product(), 0).unwrap();
    let future = match &instrument {
        InstrumentAny::CryptoFuture(f) => f,
        other => panic!("Expected CryptoFuture, was {other:?}"),
    };
    let expected_expiry = parse_rfc3339_timestamp("2026-04-24T15:00:00Z").unwrap();
    assert_eq!(future.expiration_ns, expected_expiry);
    assert_eq!(future.multiplier, Some(qty("0.01")));
    assert_eq!(future.underlying, "BTC");
    assert_eq!(future.quote_currency, "USD");
}

#[test]
fn test_parse_future_instrument_without_expiry_fails() {
    let mut product = dated_future_product();
    product.future_product_details = None;
    assert_eq!(parse_future_instrument(&product, 0), Err(DataError::MissingContractExpiry));
}

#[test]
fn test_parse_instrument_unknown_product_type() {
    let mut product = spot_product("BTC-USD", "BTC");
    product.product_type = CoinbaseProductType::Unknown;
    assert_eq!(parse_instrument(&product, 0), Err(DataError::UnknownProductType));
}

#[test]
fn test_is_perpetual_product_signals() {
    assert!(is_perpetual_product(&perp_product()));
    assert!(!is_perpetual_product(&dated_future_product()));
    let mut named = dated_future_product();
    named.display_name = "BTC Perpetual".to_string();
    assert!(is_perpetual_product(&named));
}

fn trades() -> Vec<Trade> {
    vec![
        Trade {
            trade_id: "995098663".to_string(),
            product_id: "BTC-USD".to_string(),
            price: "68923.67".to_string(),
            size: "0.00064000".to_string(),
            time: "2026-04-07T00:28:32.643779Z".to_string(),
            side: CoinbaseOrderSide::Buy,
        },
        Trade {
            trade_id: "995098662".to_string(),
            product_id: "BTC-USD".to_string(),
            price: "68923.66".to_string(),
            size: "0.01000000".to_string(),
            time: "2026-04-07T00:28:32.100000Z".to_string(),
            side: CoinbaseOrderSide::Sell,
        },
        Trade {
            trade_id: "995098661".to_string(),
            product_id: "BTC-USD".to_string(),
            price: "68923.00".to_string(),
            size: "0.50000000".to_string(),
            time: "2026-04-07T00:28:31Z".to_string(),
            side: CoinbaseOrderSide::Buy,
        },
    ]
}

#[test]
fn test_parse_trade_tick() {
    let instrument_id = instrument_id_from_product("BTC-USD");
    let ticks: Vec<_> = trades()
        .iter()
        .map(|t| parse_trade_tick(t, instrument_id.clone(), 2, 8, 0).unwrap())
        .collect();
    assert_eq!(ticks.len(), 3);
    assert_eq!(ticks[0].instrument_id, instrument_id);
    assert_eq!(ticks[0].price, price("68923.67"));
    assert_eq!(ticks[0].size, qty("0.00064000"));
    assert_eq!(ticks[0].trade_id, "995098663");
    assert_eq!(ticks[0].ts_event, 1_775_521_712_643_779_000);
}

#[test]
fn test_parse_trade_tick_aggressor_side() {
    let instrument_id = instrument_id_from_product("BTC-USD");
    for trade in &trades() {
        let tick = parse_trade_tick(trade, instrument_id.clone(), 2, 8, 0).unwrap();
        match trade.side {
            CoinbaseOrderSide::Buy => assert_eq!(tick.aggressor_side, AggressorSide::Buyer),
            CoinbaseOrderSide::Sell => assert_eq!(tick.aggressor_side, AggressorSide::Seller),
            CoinbaseOrderSide::Unknown => {}
        }
    }
    assert_eq!(coinbase_side_to_aggressor(&CoinbaseOrderSide::Unknown), AggressorSide::NoAggressor);
}

#[test]
fn test_parse_trade_tick_zero_size_fails() {
    let mut trade = trades().remove(0);
    trade.size = "0".to_string();
    let r = parse_trade_tick(&trade, instrument_id_from_product("BTC-USD"), 2, 8, 0);
    assert_eq!(r, Err(DataError::NonPositiveSize));
}

#[test]
fn test_parse_bar() {
    let instrument_id = instrument_id_from_product("BTC-USD");
    let bar_type = BarType {
        instrument_id,
        spec: BarSpecification { step: 1, aggregation: BarAggregation::Hour, price_type: PriceType::Last },
        aggregation_source: AggregationSource::External,
    };
    let candles = vec![
        Candle {
            start: "1712192400".to_string(),
            low: "66055.14".to_string(),
            high: "66331.99".to_string(),
            open: "66312.40".to_string(),
            close: "66181.60".to_string(),
            volume: "355.82896243".to_string(),
        },
        Candle {
            start: "1712188800".to_string(),
            low: "66100.00".to_string(),
            high: "66400.00".to_string(),
            open: "66200.00".to_string(),
            close: "66312.40".to_string(),
            volume: "120.5".to_string(),
        },
    ];
    let bars: Vec<_> = candles.iter().map(|c| parse_bar(c, bar_type.clone(), 2, 8, 0).unwrap()).collect();
    assert_eq!(bars.len(), 2);
    let bar = &bars[0];
    assert_eq!(bar.bar_type, bar_type);
    assert_eq!(bar.open, price("66312.40"));
    assert_eq!(bar.high, price("66331.99"));
    assert_eq!(bar.low, price("66055.14"));
    assert_eq!(bar.close, price("66181.60"));
    assert_eq!(bar.volume, qty("355.82896243"));
    assert_eq!(bar.ts_event, 1_712_192_400_000_000_000);
}

#[test]
fn test_parse_bar_rejects_inconsistent_high_low() {
    let bar_type = BarType {
        instrument_id: instrument_id_from_product("BTC-USD"),
        spec: BarSpecification { step: 1, aggregation: BarAggregation::Hour, price_type: PriceType::Last },
        aggregation_source: AggregationSource::External,
    };
    let candle = Candle {
        start: "1712192400".to_string(),
        low: "70000.00".to_string(),
        high: "66331.99".to_string(),
        open: "66312.40".to_string(),
        close: "66181.60".to_string(),
        volume: "1".to_string(),
    };
    assert_eq!(parse_bar(&candle, bar_type, 2, 8, 0), Err(DataError::InvalidBar));
}

#[test]
fn test_parse_product_book_snapshot() {
    let book = PriceBook {
        product_id: "BTC-USD".to_string(),
        bids: vec![
            BookLevel { price: "68913.87".to_string(), size: "0.5".to_string() },
            BookLevel { price: "68913.00".to_string(), size: "1.25".to_string() },
        ],
        asks: vec![
            BookLevel { price: "68914.00".to_string(), size: "0.75".to_string() },
            BookLevel { price: "68915.50".to_string(), size: "2".to_string() },
            BookLevel { price: "68916.00".to_string(), size: "3".to_string() },
        ],
        time: "2026-04-07T00:28:32.643779Z".to_string(),
    };
    let instrument_id = instrument_id_from_product("BTC-USD");
    let deltas = parse_product_book_snapshot(&book, instrument_id.clone(), 2, 8, 0).unwrap();
    assert_eq!(deltas.instrument_id, instrument_id);
    let total_levels = book.bids.len() + book.asks.len();
    assert_eq!(deltas.deltas.len(), total_levels + 1);
    assert_eq!(deltas.deltas[0].action, BookAction::Clear);
    assert_ne!(deltas.deltas[0].flags & F_SNAPSHOT, 0);
    let first_bid = &deltas.deltas[1];
    assert_eq!(first_bid.order.side, OrderSide::Buy);
    assert_eq!(first_bid.action, BookAction::Add);
    assert_eq!(first_bid.order.price, price("68913.87"));
    let first_ask = &deltas.deltas[book.bids.len() + 1];
    assert_eq!(first_ask.order.side, OrderSide::Sell);
    assert_eq!(first_ask.action, BookAction::Add);
    let last = deltas.deltas.last().unwrap();
    assert_ne!(last.flags & F_LAST, 0);
    for d in &deltas.deltas[..deltas.deltas.len() - 1] {
        assert_eq!(d.flags & F_LAST, 0);
    }
}

#[test]
fn test_precision_from_increment_ignores_appended_zero() {
    for increment in ["0.01", "1.", "0.5", "10.250", "0.\u{e9}", "3.000"] {
        let extended = format!("{increment}0");
        assert_eq!(precision_from_increment(&extended), precision_from_increment(increment));
    }
}
