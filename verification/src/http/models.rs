//! Coinbase REST response models.

use crate::common::enums::{CoinbaseContractExpiryType, CoinbaseOrderSide, CoinbaseProductType};
use vstd::prelude::*;

verus! {

/// Details of a futures product.
#[derive(Debug, PartialEq, Eq)]
pub struct FutureProductDetails {
    pub contract_size: String,
    pub contract_expiry: String,
    pub contract_expiry_type: CoinbaseContractExpiryType,
    pub funding_rate: String,
}

/// A tradable product.
#[derive(Debug, PartialEq, Eq)]
pub struct Product {
    pub product_id: String,
    pub base_currency_id: String,
    pub quote_currency_id: String,
    pub price_increment: String,
    pub base_increment: String,
    pub base_min_size: String,
    pub base_max_size: String,
    pub display_name: String,
    pub product_type: CoinbaseProductType,
    pub future_product_details: Option<FutureProductDetails>,
}

/// A public market trade.
#[derive(Debug, PartialEq, Eq)]
pub struct Trade {
    pub trade_id: String,
    pub product_id: String,
    pub price: String,
    pub size: String,
    pub time: String,
    pub side: CoinbaseOrderSide,
}

/// A historical candle; `start` is the open time in epoch seconds.
#[derive(Debug, PartialEq, Eq)]
pub struct Candle {
    pub start: String,
    pub low: String,
    pub high: String,
    pub open: String,
    pub close: String,
    pub volume: String,
}

/// One price level of a book.
#[derive(Debug, PartialEq, Eq)]
pub struct BookLevel {
    pub price: String,
    pub size: String,
}

/// An order book snapshot.
#[derive(Debug, PartialEq, Eq)]
pub struct PriceBook {
    pub product_id: String,
    pub bids: Vec<BookLevel>,
    pub asks: Vec<BookLevel>,
    pub time: String,
}

} // verus!
