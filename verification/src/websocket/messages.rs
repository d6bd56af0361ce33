//! Coinbase WebSocket message models.

use crate::common::enums::{CoinbaseOrderSide, CoinbaseWsChannel};
use vstd::prelude::*;

verus! {

/// Side of a level-2 update.
#[derive(Debug, Clone, Copy, PartialEq, Eq, Structural)]
pub enum WsBookSide {
    Bid,
    Offer,
}

/// Kind of a level-2 event.
#[derive(Debug, Clone, Copy, PartialEq, Eq, Structural)]
pub enum WsEventType {
    Snapshot,
    Update,
}

/// A trade on the `market_trades` channel.
#[derive(Debug, PartialEq, Eq)]
pub struct WsTrade {
    pub trade_id: String,
    pub product_id: String,
    pub price: String,
    pub size: String,
    pub side: CoinbaseOrderSide,
    pub time: String,
}

/// A ticker on the `ticker` channel.
#[derive(Debug, PartialEq, Eq)]
pub struct WsTicker {
    pub product_id: String,
    pub best_bid: String,
    pub best_bid_quantity: String,
    pub best_ask: String,
    pub best_ask_quantity: String,
}

/// A candle on the `candles` channel; `start` is the open time in epoch seconds.
#[derive(Debug, PartialEq, Eq)]
pub struct WsCandle {
    pub product_id: String,
    pub start: String,
    pub high: String,
    pub low: String,
    pub open: String,
    pub close: String,
    pub volume: String,
}

/// One price level change of a level-2 event.
#[derive(Debug, PartialEq, Eq)]
pub struct WsL2Update {
    pub side: WsBookSide,
    pub event_time: String,
    pub price_level: String,
    pub new_quantity: String,
}

/// A level-2 event for one product.
#[derive(Debug, PartialEq, Eq)]
pub struct WsL2DataEvent {
    pub event_type: WsEventType,
    pub product_id: String,
    pub updates: Vec<WsL2Update>,
}

/// An event on the `market_trades` channel.
#[derive(Debug, PartialEq, Eq)]
pub struct WsMarketTradesEvent {
    pub event_type: WsEventType,
    pub trades: Vec<WsTrade>,
}

/// An event on the `ticker` channel.
#[derive(Debug, PartialEq, Eq)]
pub struct WsTickerEvent {
    pub event_type: WsEventType,
    pub tickers: Vec<WsTicker>,
}

/// An event on the `candles` channel.
#[derive(Debug, PartialEq, Eq)]
pub struct WsCandlesEvent {
    pub event_type: WsEventType,
    pub candles: Vec<WsCandle>,
}

/// A message received from the Coinbase WebSocket feed.
#[derive(Debug, PartialEq, Eq)]
#[allow(inconsistent_fields)]
pub enum CoinbaseWsMessage {
    L2Data { events: Vec<WsL2DataEvent> },
    MarketTrades { events: Vec<WsMarketTradesEvent> },
    Ticker { timestamp: String, events: Vec<WsTickerEvent> },
    TickerBatch { timestamp: String, events: Vec<WsTickerEvent> },
    Candles { events: Vec<WsCandlesEvent> },
    Heartbeats,
    Subscriptions,
    User,
    FuturesBalanceSummary,
    Status,
}

/// A subscribe or unsubscribe request.
#[derive(Debug, PartialEq, Eq)]
pub struct CoinbaseWsSubscription {
    /// `"subscribe"` or `"unsubscribe"`.
    pub kind: String,
    pub product_ids: Vec<String>,
    pub channel: CoinbaseWsChannel,
    pub jwt: Option<String>,
}

} // verus!
