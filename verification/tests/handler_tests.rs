use nautilus_coinbase::common::enums::{CoinbaseOrderSide, CoinbaseWsChannel};
use nautilus_coinbase::model::{
    instrument_id_from_product, AggregationSource, BarAggregation, BarSpecification, BarType,
    CurrencyPair, InstrumentAny, Price, PriceType, Quantity,
};
use nautilus_coinbase::websocket::handler::{
    frame_action, CommandAction, FeedHandler, FrameAction, FrameKind, HandlerCommand,
    NautilusWsMessage, NextStep, RECONNECTED,
};
use nautilus_coinbase::websocket::messages::{
    CoinbaseWsMessage, CoinbaseWsSubscription, WsBookSide, WsCandle, WsCandlesEvent, WsEventType,
    WsL2DataEvent, WsL2Update, WsMarketTradesEvent, WsTicker, WsTickerEvent, WsTrade,
};

fn pair(product_id: &str) -> InstrumentAny {
    InstrumentAny::CurrencyPair(CurrencyPair {
        id: instrument_id_from_product(product_id),
        raw_symbol: product_id.to_string(),
        base_currency: "BTC".to_string(),
        quote_currency: "USD".to_string(),
        price_precision: 2,
        size_precision: 8,
        price_increment: Price::from_decimal_str("0.01").unwrap(),
        size_increment: Quantity::from_decimal_str("0.00000001").unwrap(),
        max_quantity: None,
        min_quantity: None,
        ts_event: 0,
        ts_init: 0,
    })
}

fn trade(id: &str, product_id: &str, price: &str) -> WsTrade {
    WsTrade {
        trade_id: id.to_string(),
        product_id: product_id.to_string(),
        price: price.to_string(),
        size: "0.1".to_string(),
        side: CoinbaseOrderSide::Buy,
        time: "2026-04-07T00:29:00Z".to_string(),
    }
}

fn handler_with_btc() -> FeedHandler {
    let mut h = FeedHandler::new();
    let action = h.apply_command(HandlerCommand::InitializeInstruments(vec![pair("BTC-USD")]));
    assert!(matches!(action, CommandAction::Continue));
    h
}

fn drain(h: &mut FeedHandler) -> Vec<NautilusWsMessage> {
    let mut out = Vec::new();
    loop {
        match h.next_step(false) {
            NextStep::Emit(m) => out.push(m),
            NextStep::Wait => break,
            NextStep::Shutdown => panic!("no shutdown requested"),
        }
    }
    out
}

fn trade_id_of(m: &NautilusWsMessage) -> String {
    match m {
        NautilusWsMessage::Trade(t) => t.trade_id.clone(),
        other => panic!("expected a trade, got {other:?}"),
    }
}

#[test]
fn test_reconnected_sentinel() {
    let mut h = FeedHandler::new();
    assert_eq!(h.handle_text(RECONNECTED, None, 1), Some(NautilusWsMessage::Reconnected));
    assert_eq!(h.buffered(), 0);
}

#[test]
fn test_unparsed_text_yields_nothing() {
    let mut h = handler_with_btc();
    assert_eq!(h.handle_text("{not json", None, 1), None);
    assert_eq!(h.handle_text("{}", Some(CoinbaseWsMessage::Heartbeats), 1), None);
}

#[test]
fn test_market_trades_drain_in_exchange_order() {
    let mut h = handler_with_btc();
    let events = vec![
        WsMarketTradesEvent {
            event_type: WsEventType::Update,
            trades: vec![trade("1", "BTC-USD", "100.00"), trade("2", "ETH-USD", "101.00")],
        },
        WsMarketTradesEvent {
            event_type: WsEventType::Update,
            trades: vec![trade("3", "BTC-USD", "bad"), trade("4", "BTC-USD", "102.00"), trade("5", "BTC-USD", "103.00")],
        },
    ];
    let first = h.handle_message(CoinbaseWsMessage::MarketTrades { events }, 7).unwrap();
    assert_eq!(trade_id_of(&first), "1");
    let rest: Vec<String> = drain(&mut h).iter().map(trade_id_of).collect();
    assert_eq!(rest, vec!["4".to_string(), "5".to_string()]);
}

#[test]
fn test_market_trades_without_instrument_yield_nothing() {
    let mut h = FeedHandler::new();
    let events = vec![WsMarketTradesEvent {
        event_type: WsEventType::Update,
        trades: vec![trade("1", "BTC-USD", "100.00")],
    }];
    assert_eq!(h.handle_message(CoinbaseWsMessage::MarketTrades { events }, 7), None);
    assert_eq!(h.buffered(), 0);
}

#[test]
fn test_ticker_uses_message_timestamp_or_ts_init() {
    let mut h = handler_with_btc();
    let ticker = |bid: &str| WsTicker {
        product_id: "BTC-USD".to_string(),
        best_bid: bid.to_string(),
        best_bid_quantity: "1".to_string(),
        best_ask: "101.00".to_string(),
        best_ask_quantity: "2".to_string(),
    };
    let events = vec![WsTickerEvent { event_type: WsEventType::Update, tickers: vec![ticker("100.00"), ticker("99.00")] }];
    let first = h
        .handle_message(CoinbaseWsMessage::Ticker { timestamp: "1970-01-01T00:00:01Z".to_string(), events }, 5)
        .unwrap();
    match &first {
        NautilusWsMessage::Quote(q) => {
            assert_eq!(q.ts_event, 1_000_000_000);
            assert_eq!(q.ts_init, 5);
            assert_eq!(q.bid_price, Price::from_decimal_str("100.00").unwrap());
        }
        other => panic!("expected a quote, got {other:?}"),
    }
    assert_eq!(h.buffered(), 1);
    let events = vec![WsTickerEvent { event_type: WsEventType::Update, tickers: vec![ticker("98.00")] }];
    let _ = drain(&mut h);
    let next = h
        .handle_message(CoinbaseWsMessage::TickerBatch { timestamp: "garbage".to_string(), events }, 9)
        .unwrap();
    match next {
        NautilusWsMessage::Quote(q) => assert_eq!(q.ts_event, 9),
        other => panic!("expected a quote, got {other:?}"),
    }
}

#[test]
fn test_candles_need_registered_bar_type() {
    let mut h = handler_with_btc();
    let candle = WsCandle {
        product_id: "BTC-USD".to_string(),
        start: "1775521800".to_string(),
        high: "105".to_string(),
        low: "95".to_string(),
        open: "100".to_string(),
        close: "101".to_string(),
        volume: "3".to_string(),
    };
    let events = || vec![WsCandlesEvent { event_type: WsEventType::Update, candles: vec![candle.clone_fields()] }];
    assert_eq!(h.handle_message(CoinbaseWsMessage::Candles { events: events() }, 1), None);
    let bar_type = BarType {
        instrument_id: instrument_id_from_product("BTC-USD"),
        spec: BarSpecification { step: 5, aggregation: BarAggregation::Minute, price_type: PriceType::Last },
        aggregation_source: AggregationSource::External,
    };
    h.apply_command(HandlerCommand::AddBarType { key: "BTC-USD".to_string(), bar_type: bar_type.clone() });
    match h.handle_message(CoinbaseWsMessage::Candles { events: events() }, 1) {
        Some(NautilusWsMessage::Bar(b)) => {
            assert_eq!(b.bar_type, bar_type);
            assert_eq!(b.ts_event, 1_775_521_800_000_000_000);
        }
        other => panic!("expected a bar, got {other:?}"),
    }
    h.apply_command(HandlerCommand::RemoveBarType { key: "BTC-USD".to_string() });
    assert_eq!(h.handle_message(CoinbaseWsMessage::Candles { events: events() }, 1), None);
}

trait CloneFields {
    fn clone_fields(&self) -> Self;
}

impl CloneFields for WsCandle {
    fn clone_fields(&self) -> Self {
        WsCandle {
            product_id: self.product_id.clone(),
            start: self.start.clone(),
            high: self.high.clone(),
            low: self.low.clone(),
            open: self.open.clone(),
            close: self.close.clone(),
            volume: self.volume.clone(),
        }
    }
}

#[test]
fn test_l2_snapshot_and_update_messages() {
    let mut h = handler_with_btc();
    let up = |side, p: &str, q: &str| WsL2Update {
        side,
        event_time: "2026-04-07T00:29:00Z".to_string(),
        price_level: p.to_string(),
        new_quantity: q.to_string(),
    };
    let events = vec![
        WsL2DataEvent {
            event_type: WsEventType::Snapshot,
            product_id: "BTC-USD".to_string(),
            updates: vec![up(WsBookSide::Bid, "100", "1"), up(WsBookSide::Offer, "101", "2")],
        },
        WsL2DataEvent { event_type: WsEventType::Update, product_id: "BTC-USD".to_string(), updates: vec![] },
        WsL2DataEvent {
            event_type: WsEventType::Update,
            product_id: "BTC-USD".to_string(),
            updates: vec![up(WsBookSide::Bid, "100", "0")],
        },
    ];
    let first = h.handle_message(CoinbaseWsMessage::L2Data { events }, 3).unwrap();
    match &first {
        NautilusWsMessage::Deltas(d) => assert_eq!(d.deltas.len(), 3),
        other => panic!("expected deltas, got {other:?}"),
    }
    let rest = drain(&mut h);
    assert_eq!(rest.len(), 1);
    match &rest[0] {
        NautilusWsMessage::Deltas(d) => assert_eq!(d.deltas.len(), 1),
        other => panic!("expected deltas, got {other:?}"),
    }
}

#[test]
fn test_commands_subscribe_and_disconnect() {
    let mut h = FeedHandler::new();
    let sub = CoinbaseWsSubscription {
        kind: "subscribe".to_string(),
        product_ids: vec!["BTC-USD".to_string()],
        channel: CoinbaseWsChannel::Level2,
        jwt: None,
    };
    match h.apply_command(HandlerCommand::Subscribe(sub)) {
        CommandAction::Send(s) => assert_eq!(s.channel, CoinbaseWsChannel::Level2),
        _ => panic!("expected Send"),
    }
    assert!(matches!(h.apply_command(HandlerCommand::Disconnect), CommandAction::Disconnect));
}

#[test]
fn test_shutdown_drops_buffer() {
    let mut h = handler_with_btc();
    let events = vec![WsMarketTradesEvent {
        event_type: WsEventType::Update,
        trades: vec![trade("1", "BTC-USD", "100.00"), trade("2", "BTC-USD", "100.50")],
    }];
    h.handle_message(CoinbaseWsMessage::MarketTrades { events }, 1);
    assert_eq!(h.buffered(), 1);
    assert!(matches!(h.next_step(true), NextStep::Shutdown));
    assert_eq!(h.buffered(), 0);
}

#[test]
fn test_frame_actions() {
    assert_eq!(frame_action(FrameKind::Text, false), FrameAction::HandleText);
    assert_eq!(frame_action(FrameKind::Text, true), FrameAction::HandleText);
    assert_eq!(frame_action(FrameKind::Ping, true), FrameAction::SendPong);
    assert_eq!(frame_action(FrameKind::Ping, false), FrameAction::Ignore);
    assert_eq!(frame_action(FrameKind::Close, true), FrameAction::Stop);
    assert_eq!(frame_action(FrameKind::Close, false), FrameAction::Stop);
    assert_eq!(frame_action(FrameKind::Binary, true), FrameAction::Ignore);
    assert_eq!(frame_action(FrameKind::Pong, true), FrameAction::Ignore);
    assert_eq!(frame_action(FrameKind::Other, true), FrameAction::Ignore);
}

#[test]
fn test_text_trades_then_polls_in_order() {
    let mut h = handler_with_btc();
    let events = vec![WsMarketTradesEvent {
        event_type: WsEventType::Update,
        trades: vec![trade("a", "BTC-USD", "1.00"), trade("b", "BTC-USD", "2.00"), trade("c", "BTC-USD", "3.00")],
    }];
    let first = h.handle_text("{}", Some(CoinbaseWsMessage::MarketTrades { events }), 9).unwrap();
    assert_eq!(trade_id_of(&first), "a");
    match h.next_step(false) {
        NextStep::Emit(m) => assert_eq!(trade_id_of(&m), "b"),
        _ => panic!("expected a buffered trade"),
    }
    match h.next_step(false) {
        NextStep::Emit(m) => assert_eq!(trade_id_of(&m), "c"),
        _ => panic!("expected a buffered trade"),
    }
    assert!(matches!(h.next_step(false), NextStep::Wait));
}
