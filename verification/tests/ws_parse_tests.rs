use nautilus_coinbase::common::enums::CoinbaseOrderSide;
use nautilus_coinbase::http::parse::parse_rfc3339_timestamp;
use nautilus_coinbase::model::{
    instrument_id_from_product, AggregationSource, AggressorSide, BarAggregation,
    BarSpecification, BarType, BookAction, CurrencyPair, DataError, InstrumentAny, OrderSide, Price,
    PriceType, Quantity, F_LAST,
};
use nautilus_coinbase::websocket::messages::{
    WsBookSide, WsCandle, WsEventType, WsL2DataEvent, WsL2Update, WsTicker, WsTrade,
};
use nautilus_coinbase::websocket::parse::{
    parse_ws_candle, parse_ws_l2_snapshot, parse_ws_l2_update, parse_ws_ticker, parse_ws_trade,
    ws_book_side_to_order_side,
};

fn price(s: &str) -> Price {
    Price::from_decimal_str(s).unwrap()
}

fn qty(s: &str) -> Quantity {
    Quantity::from_decimal_str(s).unwrap()
}

fn test_instrument() -> InstrumentAny {
    InstrumentAny::CurrencyPair(CurrencyPair {
        id: instrument_id_from_product("BTC-USD"),
        raw_symbol: "BTC-USD".to_string(),
        base_currency: "BTC".to_string(),
        quote_currency: "USD".to_string(),
        price_precision: 2,
        size_precision: 8,
        price_increment: price("0.01"),
        size_increment: qty("0.00000001"),
        max_quantity: None,
        min_quantity: Some(qty("0.00000001")),
        ts_event: 0,
        ts_init: 0,
    })
}

fn ws_trades() -> Vec<WsTrade> {
    vec![
        WsTrade {
            trade_id: "995098700".to_string(),
            product_id: "BTC-USD".to_string(),
            price: "68900.50".to_string(),
            size: "0.00150000".to_string(),
            side: CoinbaseOrderSide::Buy,
            time: "2026-04-07T00:29:00.123456Z".to_string(),
        },
        WsTrade {
            trade_id: "995098701".to_string(),
            product_id: "BTC-USD".to_string(),
            price: "68900.00".to_string(),
            size: "0.05000000".to_string(),
            side: CoinbaseOrderSide::Sell,
            time: "2026-04-07T00:29:00.223456Z".to_string(),
        },
    ]
}

fn update(side: WsBookSide, price_level: &str, new_quantity: &str) -> WsL2Update {
    WsL2Update {
        side,
        event_time: "2026-04-07T00:29:00.000001Z".to_string(),
        price_level: price_level.to_string(),
        new_quantity: new_quantity.to_string(),
    }
}

fn snapshot_event() -> WsL2DataEvent {
    WsL2DataEvent {
        event_type: WsEventType::Snapshot,
        product_id: "BTC-USD".to_string(),
        updates: vec![
            update(WsBookSide::Bid, "68900.00", "1.50000000"),
            update(WsBookSide::Bid, "68899.50", "0.25000000"),
            update(WsBookSide::Bid, "68899.00", "3.00000000"),
            update(WsBookSide::Offer, "68901.00", "0.50000000"),
            update(WsBookSide::Offer, "68901.50", "0.75000000"),
            update(WsBookSide::Offer, "68902.00", "2.00000000"),
        ],
    }
}

fn update_event() -> WsL2DataEvent {
    WsL2DataEvent {
        event_type: WsEventType::Update,
        product_id: "BTC-USD".to_string(),
        updates: vec![
            update(WsBookSide::Bid, "68900.00", "2.00000000"),
            update(WsBookSide::Offer, "68901.00", "0.00000000"),
        ],
    }
}

#[test]
fn test_parse_ws_trade() {
    let instrument = test_instrument();
    let tick = parse_ws_trade(&ws_trades()[0], &instrument, 0).unwrap();
    assert_eq!(tick.instrument_id, instrument.id());
    assert_eq!(tick.price, price("68900.50"));
    assert_eq!(tick.size, qty("0.00150000"));
    assert_eq!(tick.aggressor_side, AggressorSide::Buyer);
    assert_eq!(tick.trade_id, "995098700");
    assert!(tick.ts_event > 0);
}

#[test]
fn test_parse_ws_trade_sell_side() {
    let instrument = test_instrument();
    let tick = parse_ws_trade(&ws_trades()[1], &instrument, 0).unwrap();
    assert_eq!(tick.aggressor_side, AggressorSide::Seller);
    assert_eq!(tick.price, price("68900.00"));
    assert_eq!(tick.size, qty("0.05000000"));
}

#[test]
fn test_parse_ws_ticker() {
    let instrument = test_instrument();
    let ticker = WsTicker {
        product_id: "BTC-USD".to_string(),
        best_bid: "68900.00".to_string(),
        best_bid_quantity: "1.50000000".to_string(),
        best_ask: "68901.00".to_string(),
        best_ask_quantity: "0.50000000".to_string(),
    };
    let ts_event = parse_rfc3339_timestamp("2026-04-07T00:29:00.5Z").unwrap();
    let quote = parse_ws_ticker(&ticker, &instrument, ts_event, 0).unwrap();
    assert_eq!(quote.instrument_id, instrument.id());
    assert_eq!(quote.bid_price, price("68900.00"));
    assert_eq!(quote.ask_price, price("68901.00"));
    assert_eq!(quote.bid_size, qty("1.50000000"));
    assert_eq!(quote.ask_size, qty("0.50000000"));
    assert_eq!(quote.ts_event, ts_event);
}

#[test]
fn test_parse_ws_candle() {
    let instrument = test_instrument();
    let bar_type = BarType {
        instrument_id: instrument.id(),
        spec: BarSpecification { step: 5, aggregation: BarAggregation::Minute, price_type: PriceType::Last },
        aggregation_source: AggregationSource::External,
    };
    let candle = WsCandle {
        product_id: "BTC-USD".to_string(),
        start: "1775521800".to_string(),
        high: "68950.00".to_string(),
        low: "68850.00".to_string(),
        open: "68900.00".to_string(),
        close: "68920.50".to_string(),
        volume: "42.15000000".to_string(),
    };
    let bar = parse_ws_candle(&candle, bar_type.clone(), &instrument, 0).unwrap();
    assert_eq!(bar.bar_type, bar_type);
    assert_eq!(bar.open, price("68900.00"));
    assert_eq!(bar.high, price("68950.00"));
    assert_eq!(bar.low, price("68850.00"));
    assert_eq!(bar.close, price("68920.50"));
    assert_eq!(bar.volume, qty("42.15000000"));
    assert_eq!(bar.ts_event, 1_775_521_800_000_000_000);
}

#[test]
fn test_parse_ws_l2_snapshot() {
    let instrument = test_instrument();
    let event = snapshot_event();
    assert_eq!(event.event_type, WsEventType::Snapshot);
    let deltas = parse_ws_l2_snapshot(&event, &instrument, 0).unwrap();
    assert_eq!(deltas.instrument_id, instrument.id());
    assert_eq!(deltas.deltas.len(), 7);
    assert_eq!(deltas.deltas[0].action, BookAction::Clear);
    assert_eq!(deltas.deltas[1].order.side, OrderSide::Buy);
    assert_eq!(deltas.deltas[1].order.price, price("68900.00"));
    assert_eq!(deltas.deltas[1].order.size, qty("1.50000000"));
    assert_eq!(deltas.deltas[4].order.side, OrderSide::Sell);
    assert_eq!(deltas.deltas[4].order.price, price("68901.00"));
    let last = deltas.deltas.last().unwrap();
    assert_ne!(last.flags & F_LAST, 0);
}

#[test]
fn test_parse_ws_l2_update() {
    let instrument = test_instrument();
    let event = update_event();
    assert_eq!(event.event_type, WsEventType::Update);
    let deltas = parse_ws_l2_update(&event, &instrument, 0).unwrap();
    assert_eq!(deltas.deltas.len(), 2);
    assert_eq!(deltas.deltas[0].order.side, OrderSide::Buy);
    assert_eq!(deltas.deltas[0].order.price, price("68900.00"));
    assert_eq!(deltas.deltas[0].order.size, qty("2.00000000"));
    assert_eq!(deltas.deltas[0].action, BookAction::Update);
    assert_eq!(deltas.deltas[1].order.side, OrderSide::Sell);
    assert_eq!(deltas.deltas[1].action, BookAction::Delete);
    assert_eq!(deltas.deltas[1].order.size, qty("0.00000000"));
    assert_ne!(deltas.deltas[1].flags & F_LAST, 0);
}

#[test]
fn test_parse_ws_l2_update_zero_quantity_is_delete() {
    let instrument = test_instrument();
    let deltas = parse_ws_l2_update(&update_event(), &instrument, 0).unwrap();
    let delete_delta = deltas
        .deltas
        .iter()
        .find(|d| d.action == BookAction::Delete)
        .expect("should have a delete action for zero quantity");
    assert_eq!(delete_delta.order.side, OrderSide::Sell);
}

#[test]
fn test_parse_ws_l2_update_empty_fails() {
    let instrument = test_instrument();
    let event = WsL2DataEvent {
        event_type: WsEventType::Update,
        product_id: "BTC-USD".to_string(),
        updates: vec![],
    };
    assert_eq!(parse_ws_l2_update(&event, &instrument, 0), Err(DataError::EmptyDeltas));
}

#[test]
fn test_ws_book_side_conversion() {
    assert_eq!(ws_book_side_to_order_side(WsBookSide::Bid), OrderSide::Buy);
    assert_eq!(ws_book_side_to_order_side(WsBookSide::Offer), OrderSide::Sell);
}
