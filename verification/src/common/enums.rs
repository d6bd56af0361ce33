//! Coinbase enumerations.

use crate::string::str_eq;
use vstd::prelude::*;

verus! {

/// Coinbase environment type.
#[derive(Debug, Clone, Copy, PartialEq, Eq, Hash, Structural)]
pub enum CoinbaseEnvironment {
    /// Production environment.
    Live,
    /// Sandbox/testing environment.
    Sandbox,
}

impl Default for CoinbaseEnvironment {
    fn default() -> (e: Self)
        ensures
            e == CoinbaseEnvironment::Live,
    {
        CoinbaseEnvironment::Live
    }
}

impl CoinbaseEnvironment {
    /// Returns true if this is the sandbox environment.
    pub fn is_sandbox(self) -> (b: bool)
        ensures
            b == (self == CoinbaseEnvironment::Sandbox),
    {
        matches!(self, CoinbaseEnvironment::Sandbox)
    }
}

/// Coinbase product type.
#[derive(Debug, Clone, Copy, PartialEq, Eq, Hash, Structural)]
pub enum CoinbaseProductType {
    Spot,
    Future,
    Unknown,
}

/// Coinbase order side.
#[derive(Debug, Clone, Copy, PartialEq, Eq, Hash, Structural)]
pub enum CoinbaseOrderSide {
    Buy,
    Sell,
    Unknown,
}

/// Coinbase order type used in create order requests.
#[derive(Debug, Clone, Copy, PartialEq, Eq, Hash, Structural)]
pub enum CoinbaseOrderType {
    Unknown,
    Market,
    Limit,
    Stop,
    StopLimit,
    Bracket,
}

/// Coinbase order status.
#[derive(Debug, Clone, Copy, PartialEq, Eq, Hash, Structural)]
pub enum CoinbaseOrderStatus {
    Pending,
    Open,
    Filled,
    Cancelled,
    Expired,
    Failed,
    Unknown,
    Queued,
    CancelQueued,
}

/// Coinbase time in force.
#[derive(Debug, Clone, Copy, PartialEq, Eq, Hash, Structural)]
pub enum CoinbaseTimeInForce {
    Unknown,
    GoodUntilDate,
    GoodUntilCancelled,
    ImmediateOrCancel,
    FillOrKill,
}

/// Coinbase product status.
#[derive(Debug, Clone, Copy, PartialEq, Eq, Hash, Structural)]
pub enum CoinbaseProductStatus {
    Online,
    Offline,
    /// Futures products return an empty status string
    Unset,
}

/// Coinbase product venue.
#[derive(Debug, Clone, Copy, PartialEq, Eq, Hash, Structural)]
pub enum CoinbaseProductVenue {
    /// Coinbase Exchange (spot).
    Cbe,
    /// Futures Commission Merchant (futures/perpetuals).
    Fcm,
}

/// Coinbase contract expiry type for futures products.
#[derive(Debug, Clone, Copy, PartialEq, Eq, Hash, Structural)]
pub enum CoinbaseContractExpiryType {
    Expiring,
    /// Non-expiring (perpetual)
    Perpetual,
}

/// Coinbase futures asset type.
#[derive(Debug, Clone, Copy, PartialEq, Eq, Hash, Structural)]
pub enum CoinbaseFuturesAssetType {
    Crypto,
    Energy,
    Metals,
    Stocks,
}

/// Coinbase fill liquidity indicator.
#[derive(Debug, Clone, Copy, PartialEq, Eq, Hash, Structural)]
pub enum CoinbaseLiquidityIndicator {
    Maker,
    Taker,
    Unknown,
}

/// Coinbase stop order direction.
#[derive(Debug, Clone, Copy, PartialEq, Eq, Hash, Structural)]
pub enum CoinbaseStopDirection {
    StopDown,
    StopUp,
}

/// Coinbase candle granularity for historical data.
#[derive(Debug, Clone, Copy, PartialEq, Eq, Hash, Structural)]
pub enum CoinbaseGranularity {
    OneMinute,
    FiveMinute,
    FifteenMinute,
    ThirtyMinute,
    OneHour,
    TwoHour,
    SixHour,
    OneDay,
}

/// Coinbase WebSocket channel type.
#[derive(Debug, Clone, Copy, PartialEq, Eq, Hash, Structural)]
pub enum CoinbaseWsChannel {
    Level2,
    MarketTrades,
    Ticker,
    TickerBatch,
    Candles,
    User,
    Heartbeats,
    FuturesBalanceSummary,
    Status,
}

impl CoinbaseWsChannel {
    /// Returns true if this channel requires authentication.
    pub fn requires_auth(&self) -> (b: bool)
        ensures
            b == (*self == CoinbaseWsChannel::User || *self
                == CoinbaseWsChannel::FuturesBalanceSummary),
    {
        matches!(self, CoinbaseWsChannel::User | CoinbaseWsChannel::FuturesBalanceSummary)
    }
}

impl CoinbaseProductType {
    /// The name of the product type on the wire.
    pub open spec fn wire_name(self) -> Seq<char> {
        match self {
            CoinbaseProductType::Spot => "SPOT"@,
            CoinbaseProductType::Future => "FUTURE"@,
            CoinbaseProductType::Unknown => "UNKNOWN"@,
        }
    }

    /// The name of the product type on the wire.
    pub fn as_str(&self) -> (s: &'static str)
        ensures
            s@ == self.wire_name(),
    {
        match self {
            CoinbaseProductType::Spot => "SPOT",
            CoinbaseProductType::Future => "FUTURE",
            CoinbaseProductType::Unknown => "UNKNOWN",
        }
    }

    /// The product type named `s` on the wire, if any.
    pub fn from_wire(s: &str) -> (r: Option<CoinbaseProductType>)
        ensures
            r matches Some(x) ==> x.wire_name() == s@,
            r is None ==> forall|x: CoinbaseProductType| #[trigger] x.wire_name() != s@,
    {
        if str_eq(s, "SPOT") {
            return Some(CoinbaseProductType::Spot);
        }
        if str_eq(s, "FUTURE") {
            return Some(CoinbaseProductType::Future);
        }
        if str_eq(s, "UNKNOWN") {
            return Some(CoinbaseProductType::Unknown);
        }
        proof {
            assert forall|x: CoinbaseProductType| #[trigger] x.wire_name() != s@ by {
                match x {
                    CoinbaseProductType::Spot => {},
                    CoinbaseProductType::Future => {},
                    CoinbaseProductType::Unknown => {},
                }
            }
        }
        None
    }
}

/// Distinct product types have distinct wire names, so `from_wire` reads back what `as_str` gives.
pub proof fn lemma_product_type_wire_names_distinct(x: CoinbaseProductType, y: CoinbaseProductType)
    ensures
        x.wire_name() == y.wire_name() ==> x == y,
{
    reveal_strlit("SPOT");
    reveal_strlit("FUTURE");
    reveal_strlit("UNKNOWN");
    if x.wire_name() == y.wire_name() && x != y {
        assert(x.wire_name().len() != y.wire_name().len() || exists|i: int|
            0 <= i < x.wire_name().len() && x.wire_name()[i] != y.wire_name()[i]) by {
            match x {
                CoinbaseProductType::Spot => match y {
                    CoinbaseProductType::Spot => {},
                    CoinbaseProductType::Future => {},
                    CoinbaseProductType::Unknown => {},
                },
                CoinbaseProductType::Future => match y {
                    CoinbaseProductType::Spot => {},
                    CoinbaseProductType::Future => {},
                    CoinbaseProductType::Unknown => {},
                },
                CoinbaseProductType::Unknown => match y {
                    CoinbaseProductType::Spot => {},
                    CoinbaseProductType::Future => {},
                    CoinbaseProductType::Unknown => {},
                },
            }
        }
    }
}

impl CoinbaseOrderSide {
    /// The name of the order side on the wire.
    pub open spec fn wire_name(self) -> Seq<char> {
        match self {
            CoinbaseOrderSide::Buy => "BUY"@,
            CoinbaseOrderSide::Sell => "SELL"@,
            CoinbaseOrderSide::Unknown => "UNKNOWN_ORDER_SIDE"@,
        }
    }

    /// The name of the order side on the wire.
    pub fn as_str(&self) -> (s: &'static str)
        ensures
            s@ == self.wire_name(),
    {
        match self {
            CoinbaseOrderSide::Buy => "BUY",
            CoinbaseOrderSide::Sell => "SELL",
            CoinbaseOrderSide::Unknown => "UNKNOWN_ORDER_SIDE",
        }
    }

    /// The order side named `s` on the wire, if any.
    pub fn from_wire(s: &str) -> (r: Option<CoinbaseOrderSide>)
        ensures
            r matches Some(x) ==> x.wire_name() == s@,
            r is None ==> forall|x: CoinbaseOrderSide| #[trigger] x.wire_name() != s@,
    {
        if str_eq(s, "BUY") {
            return Some(CoinbaseOrderSide::Buy);
        }
        if str_eq(s, "SELL") {
            return Some(CoinbaseOrderSide::Sell);
        }
        if str_eq(s, "UNKNOWN_ORDER_SIDE") {
            return Some(CoinbaseOrderSide::Unknown);
        }
        proof {
            assert forall|x: CoinbaseOrderSide| #[trigger] x.wire_name() != s@ by {
                match x {
                    CoinbaseOrderSide::Buy => {},
                    CoinbaseOrderSide::Sell => {},
                    CoinbaseOrderSide::Unknown => {},
                }
            }
        }
        None
    }
}

/// Distinct order sides have distinct wire names, so `from_wire` reads back what `as_str` gives.
pub proof fn lemma_order_side_wire_names_distinct(x: CoinbaseOrderSide, y: CoinbaseOrderSide)
    ensures
        x.wire_name() == y.wire_name() ==> x == y,
{
    reveal_strlit("BUY");
    reveal_strlit("SELL");
    reveal_strlit("UNKNOWN_ORDER_SIDE");
    if x.wire_name() == y.wire_name() && x != y {
        assert(x.wire_name().len() != y.wire_name().len() || exists|i: int|
            0 <= i < x.wire_name().len() && x.wire_name()[i] != y.wire_name()[i]) by {
            match x {
                CoinbaseOrderSide::Buy => match y {
                    CoinbaseOrderSide::Buy => {},
                    CoinbaseOrderSide::Sell => {},
                    CoinbaseOrderSide::Unknown => {},
                },
                CoinbaseOrderSide::Sell => match y {
                    CoinbaseOrderSide::Buy => {},
                    CoinbaseOrderSide::Sell => {},
                    CoinbaseOrderSide::Unknown => {},
                },
                CoinbaseOrderSide::Unknown => match y {
                    CoinbaseOrderSide::Buy => {},
                    CoinbaseOrderSide::Sell => {},
                    CoinbaseOrderSide::Unknown => {},
                },
            }
        }
    }
}

impl CoinbaseOrderType {
    /// The name of the order type on the wire.
    pub open spec fn wire_name(self) -> Seq<char> {
        match self {
            CoinbaseOrderType::Unknown => "UNKNOWN_ORDER_TYPE"@,
            CoinbaseOrderType::Market => "MARKET"@,
            CoinbaseOrderType::Limit => "LIMIT"@,
            CoinbaseOrderType::Stop => "STOP"@,
            CoinbaseOrderType::StopLimit => "STOP_LIMIT"@,
            CoinbaseOrderType::Bracket => "BRACKET"@,
        }
    }

    /// The name of the order type on the wire.
    pub fn as_str(&self) -> (s: &'static str)
        ensures
            s@ == self.wire_name(),
    {
        match self {
            CoinbaseOrderType::Unknown => "UNKNOWN_ORDER_TYPE",
            CoinbaseOrderType::Market => "MARKET",
            CoinbaseOrderType::Limit => "LIMIT",
            CoinbaseOrderType::Stop => "STOP",
            CoinbaseOrderType::StopLimit => "STOP_LIMIT",
            CoinbaseOrderType::Bracket => "BRACKET",
        }
    }

    /// The order type named `s` on the wire, if any.
    pub fn from_wire(s: &str) -> (r: Option<CoinbaseOrderType>)
        ensures
            r matches Some(x) ==> x.wire_name() == s@,
            r is None ==> forall|x: CoinbaseOrderType| #[trigger] x.wire_name() != s@,
    {
        if str_eq(s, "UNKNOWN_ORDER_TYPE") {
            return Some(CoinbaseOrderType::Unknown);
        }
        if str_eq(s, "MARKET") {
            return Some(CoinbaseOrderType::Market);
        }
        if str_eq(s, "LIMIT") {
            return Some(CoinbaseOrderType::Limit);
        }
        if str_eq(s, "STOP") {
            return Some(CoinbaseOrderType::Stop);
        }
        if str_eq(s, "STOP_LIMIT") {
            return Some(CoinbaseOrderType::StopLimit);
        }
        if str_eq(s, "BRACKET") {
            return Some(CoinbaseOrderType::Bracket);
        }
        proof {
            assert forall|x: CoinbaseOrderType| #[trigger] x.wire_name() != s@ by {
                match x {
                    CoinbaseOrderType::Unknown => {},
                    CoinbaseOrderType::Market => {},
                    CoinbaseOrderType::Limit => {},
                    CoinbaseOrderType::Stop => {},
                    CoinbaseOrderType::StopLimit => {},
                    CoinbaseOrderType::Bracket => {},
                }
            }
        }
        None
    }
}

/// Distinct order types have distinct wire names, so `from_wire` reads back what `as_str` gives.
pub proof fn lemma_order_type_wire_names_distinct(x: CoinbaseOrderType, y: CoinbaseOrderType)
    ensures
        x.wire_name() == y.wire_name() ==> x == y,
{
    reveal_strlit("UNKNOWN_ORDER_TYPE");
    reveal_strlit("MARKET");
    reveal_strlit("LIMIT");
    reveal_strlit("STOP");
    reveal_strlit("STOP_LIMIT");
    reveal_strlit("BRACKET");
    if x.wire_name() == y.wire_name() && x != y {
        assert(x.wire_name().len() != y.wire_name().len() || exists|i: int|
            0 <= i < x.wire_name().len() && x.wire_name()[i] != y.wire_name()[i]) by {
            match x {
                CoinbaseOrderType::Unknown => match y {
                    CoinbaseOrderType::Unknown => {},
                    CoinbaseOrderType::Market => {},
                    CoinbaseOrderType::Limit => {},
                    CoinbaseOrderType::Stop => {},
                    CoinbaseOrderType::StopLimit => {},
                    CoinbaseOrderType::Bracket => {},
                },
                CoinbaseOrderType::Market => match y {
                    CoinbaseOrderType::Unknown => {},
                    CoinbaseOrderType::Market => {},
                    CoinbaseOrderType::Limit => {},
                    CoinbaseOrderType::Stop => {},
                    CoinbaseOrderType::StopLimit => {},
                    CoinbaseOrderType::Bracket => {},
                },
                CoinbaseOrderType::Limit => match y {
                    CoinbaseOrderType::Unknown => {},
                    CoinbaseOrderType::Market => {},
                    CoinbaseOrderType::Limit => {},
                    CoinbaseOrderType::Stop => {},
                    CoinbaseOrderType::StopLimit => {},
                    CoinbaseOrderType::Bracket => {},
                },
                CoinbaseOrderType::Stop => match y {
                    CoinbaseOrderType::Unknown => {},
                    CoinbaseOrderType::Market => {},
                    CoinbaseOrderType::Limit => {},
                    CoinbaseOrderType::Stop => {},
                    CoinbaseOrderType::StopLimit => {},
                    CoinbaseOrderType::Bracket => {},
                },
                CoinbaseOrderType::StopLimit => match y {
                    CoinbaseOrderType::Unknown => {},
                    CoinbaseOrderType::Market => {},
                    CoinbaseOrderType::Limit => {},
                    CoinbaseOrderType::Stop => {},
                    CoinbaseOrderType::StopLimit => {},
                    CoinbaseOrderType::Bracket => {},
                },
                CoinbaseOrderType::Bracket => match y {
                    CoinbaseOrderType::Unknown => {},
                    CoinbaseOrderType::Market => {},
                    CoinbaseOrderType::Limit => {},
                    CoinbaseOrderType::Stop => {},
                    CoinbaseOrderType::StopLimit => {},
                    CoinbaseOrderType::Bracket => {},
                },
            }
        }
    }
}

impl CoinbaseOrderStatus {
    /// The name of the order status on the wire.
    pub open spec fn wire_name(self) -> Seq<char> {
        match self {
            CoinbaseOrderStatus::Pending => "PENDING"@,
            CoinbaseOrderStatus::Open => "OPEN"@,
            CoinbaseOrderStatus::Filled => "FILLED"@,
            CoinbaseOrderStatus::Cancelled => "CANCELLED"@,
            CoinbaseOrderStatus::Expired => "EXPIRED"@,
            CoinbaseOrderStatus::Failed => "FAILED"@,
            CoinbaseOrderStatus::Unknown => "UNKNOWN_ORDER_STATUS"@,
            CoinbaseOrderStatus::Queued => "QUEUED"@,
            CoinbaseOrderStatus::CancelQueued => "CANCEL_QUEUED"@,
        }
    }

    /// The name of the order status on the wire.
    pub fn as_str(&self) -> (s: &'static str)
        ensures
            s@ == self.wire_name(),
    {
        match self {
            CoinbaseOrderStatus::Pending => "PENDING",
            CoinbaseOrderStatus::Open => "OPEN",
            CoinbaseOrderStatus::Filled => "FILLED",
            CoinbaseOrderStatus::Cancelled => "CANCELLED",
            CoinbaseOrderStatus::Expired => "EXPIRED",
            CoinbaseOrderStatus::Failed => "FAILED",
            CoinbaseOrderStatus::Unknown => "UNKNOWN_ORDER_STATUS",
            CoinbaseOrderStatus::Queued => "QUEUED",
            CoinbaseOrderStatus::CancelQueued => "CANCEL_QUEUED",
        }
    }

    /// The order status named `s` on the wire, if any.
    pub fn from_wire(s: &str) -> (r: Option<CoinbaseOrderStatus>)
        ensures
            r matches Some(x) ==> x.wire_name() == s@,
            r is None ==> forall|x: CoinbaseOrderStatus| #[trigger] x.wire_name() != s@,
    {
        if str_eq(s, "PENDING") {
            return Some(CoinbaseOrderStatus::Pending);
        }
        if str_eq(s, "OPEN") {
            return Some(CoinbaseOrderStatus::Open);
        }
        if str_eq(s, "FILLED") {
            return Some(CoinbaseOrderStatus::Filled);
        }
        if str_eq(s, "CANCELLED") {
            return Some(CoinbaseOrderStatus::Cancelled);
        }
        if str_eq(s, "EXPIRED") {
            return Some(CoinbaseOrderStatus::Expired);
        }
        if str_eq(s, "FAILED") {
            return Some(CoinbaseOrderStatus::Failed);
        }
        if str_eq(s, "UNKNOWN_ORDER_STATUS") {
            return Some(CoinbaseOrderStatus::Unknown);
        }
        if str_eq(s, "QUEUED") {
            return Some(CoinbaseOrderStatus::Queued);
        }
        if str_eq(s, "CANCEL_QUEUED") {
            return Some(CoinbaseOrderStatus::CancelQueued);
        }
        proof {
            assert forall|x: CoinbaseOrderStatus| #[trigger] x.wire_name() != s@ by {
                match x {
                    CoinbaseOrderStatus::Pending => {},
                    CoinbaseOrderStatus::Open => {},
                    CoinbaseOrderStatus::Filled => {},
                    CoinbaseOrderStatus::Cancelled => {},
                    CoinbaseOrderStatus::Expired => {},
                    CoinbaseOrderStatus::Failed => {},
                    CoinbaseOrderStatus::Unknown => {},
                    CoinbaseOrderStatus::Queued => {},
                    CoinbaseOrderStatus::CancelQueued => {},
                }
            }
        }
        None
    }
}

/// Distinct order statuss have distinct wire names, so `from_wire` reads back what `as_str` gives.
pub proof fn lemma_order_status_wire_names_distinct(x: CoinbaseOrderStatus, y: CoinbaseOrderStatus)
    ensures
        x.wire_name() == y.wire_name() ==> x == y,
{
    reveal_strlit("PENDING");
    reveal_strlit("OPEN");
    reveal_strlit("FILLED");
    reveal_strlit("CANCELLED");
    reveal_strlit("EXPIRED");
    reveal_strlit("FAILED");
    reveal_strlit("UNKNOWN_ORDER_STATUS");
    reveal_strlit("QUEUED");
    reveal_strlit("CANCEL_QUEUED");
    if x.wire_name() == y.wire_name() && x != y {
        assert(x.wire_name().len() != y.wire_name().len() || exists|i: int|
            0 <= i < x.wire_name().len() && x.wire_name()[i] != y.wire_name()[i]) by {
            match x {
                CoinbaseOrderStatus::Pending => match y {
                    CoinbaseOrderStatus::Pending => {},
                    CoinbaseOrderStatus::Open => {},
                    CoinbaseOrderStatus::Filled => {},
                    CoinbaseOrderStatus::Cancelled => {},
                    CoinbaseOrderStatus::Expired => { assert(x.wire_name()[0] != y.wire_name()[0]); },
                    CoinbaseOrderStatus::Failed => {},
                    CoinbaseOrderStatus::Unknown => {},
                    CoinbaseOrderStatus::Queued => {},
                    CoinbaseOrderStatus::CancelQueued => {},
                },
                CoinbaseOrderStatus::Open => match y {
                    CoinbaseOrderStatus::Pending => {},
                    CoinbaseOrderStatus::Open => {},
                    CoinbaseOrderStatus::Filled => {},
                    CoinbaseOrderStatus::Cancelled => {},
                    CoinbaseOrderStatus::Expired => {},
                    CoinbaseOrderStatus::Failed => {},
                    CoinbaseOrderStatus::Unknown => {},
                    CoinbaseOrderStatus::Queued => {},
                    CoinbaseOrderStatus::CancelQueued => {},
                },
                CoinbaseOrderStatus::Filled => match y {
                    CoinbaseOrderStatus::Pending => {},
                    CoinbaseOrderStatus::Open => {},
                    CoinbaseOrderStatus::Filled => {},
                    CoinbaseOrderStatus::Cancelled => {},
                    CoinbaseOrderStatus::Expired => {},
                    CoinbaseOrderStatus::Failed => { assert(x.wire_name()[1] != y.wire_name()[1]); },
                    CoinbaseOrderStatus::Unknown => {},
                    CoinbaseOrderStatus::Queued => { assert(x.wire_name()[0] != y.wire_name()[0]); },
                    CoinbaseOrderStatus::CancelQueued => {},
                },
                CoinbaseOrderStatus::Cancelled => match y {
                    CoinbaseOrderStatus::Pending => {},
                    CoinbaseOrderStatus::Open => {},
                    CoinbaseOrderStatus::Filled => {},
                    CoinbaseOrderStatus::Cancelled => {},
                    CoinbaseOrderStatus::Expired => {},
                    CoinbaseOrderStatus::Failed => {},
                    CoinbaseOrderStatus::Unknown => {},
                    CoinbaseOrderStatus::Queued => {},
                    CoinbaseOrderStatus::CancelQueued => {},
                },
                CoinbaseOrderStatus::Expired => match y {
                    CoinbaseOrderStatus::Pending => { assert(x.wire_name()[0] != y.wire_name()[0]); },
                    CoinbaseOrderStatus::Open => {},
                    CoinbaseOrderStatus::Filled => {},
                    CoinbaseOrderStatus::Cancelled => {},
                    CoinbaseOrderStatus::Expired => {},
                    CoinbaseOrderStatus::Failed => {},
                    CoinbaseOrderStatus::Unknown => {},
                    CoinbaseOrderStatus::Queued => {},
                    CoinbaseOrderStatus::CancelQueued => {},
                },
                CoinbaseOrderStatus::Failed => match y {
                    CoinbaseOrderStatus::Pending => {},
                    CoinbaseOrderStatus::Open => {},
                    CoinbaseOrderStatus::Filled => { assert(x.wire_name()[1] != y.wire_name()[1]); },
                    CoinbaseOrderStatus::Cancelled => {},
                    CoinbaseOrderStatus::Expired => {},
                    CoinbaseOrderStatus::Failed => {},
                    CoinbaseOrderStatus::Unknown => {},
                    CoinbaseOrderStatus::Queued => { assert(x.wire_name()[0] != y.wire_name()[0]); },
                    CoinbaseOrderStatus::CancelQueued => {},
                },
                CoinbaseOrderStatus::Unknown => match y {
                    CoinbaseOrderStatus::Pending => {},
                    CoinbaseOrderStatus::Open => {},
                    CoinbaseOrderStatus::Filled => {},
                    CoinbaseOrderStatus::Cancelled => {},
                    CoinbaseOrderStatus::Expired => {},
                    CoinbaseOrderStatus::Failed => {},
                    CoinbaseOrderStatus::Unknown => {},
                    CoinbaseOrderStatus::Queued => {},
                    CoinbaseOrderStatus::CancelQueued => {},
                },
                CoinbaseOrderStatus::Queued => match y {
                    CoinbaseOrderStatus::Pending => {},
                    CoinbaseOrderStatus::Open => {},
                    CoinbaseOrderStatus::Filled => { assert(x.wire_name()[0] != y.wire_name()[0]); },
                    CoinbaseOrderStatus::Cancelled => {},
                    CoinbaseOrderStatus::Expired => {},
                    CoinbaseOrderStatus::Failed => { assert(x.wire_name()[0] != y.wire_name()[0]); },
                    CoinbaseOrderStatus::Unknown => {},
                    CoinbaseOrderStatus::Queued => {},
                    CoinbaseOrderStatus::CancelQueued => {},
                },
                CoinbaseOrderStatus::CancelQueued => match y {
                    CoinbaseOrderStatus::Pending => {},
                    CoinbaseOrderStatus::Open => {},
                    CoinbaseOrderStatus::Filled => {},
                    CoinbaseOrderStatus::Cancelled => {},
                    CoinbaseOrderStatus::Expired => {},
                    CoinbaseOrderStatus::Failed => {},
                    CoinbaseOrderStatus::Unknown => {},
                    CoinbaseOrderStatus::Queued => {},
                    CoinbaseOrderStatus::CancelQueued => {},
                },
            }
        }
    }
}

impl CoinbaseTimeInForce {
    /// The name of the time in force on the wire.
    pub open spec fn wire_name(self) -> Seq<char> {
        match self {
            CoinbaseTimeInForce::Unknown => "UNKNOWN_TIME_IN_FORCE"@,
            CoinbaseTimeInForce::GoodUntilDate => "GOOD_UNTIL_DATE"@,
            CoinbaseTimeInForce::GoodUntilCancelled => "GOOD_UNTIL_CANCELLED"@,
            CoinbaseTimeInForce::ImmediateOrCancel => "IMMEDIATE_OR_CANCEL"@,
            CoinbaseTimeInForce::FillOrKill => "FILL_OR_KILL"@,
        }
    }

    /// The name of the time in force on the wire.
    pub fn as_str(&self) -> (s: &'static str)
        ensures
            s@ == self.wire_name(),
    {
        match self {
            CoinbaseTimeInForce::Unknown => "UNKNOWN_TIME_IN_FORCE",
            CoinbaseTimeInForce::GoodUntilDate => "GOOD_UNTIL_DATE",
            CoinbaseTimeInForce::GoodUntilCancelled => "GOOD_UNTIL_CANCELLED",
            CoinbaseTimeInForce::ImmediateOrCancel => "IMMEDIATE_OR_CANCEL",
            CoinbaseTimeInForce::FillOrKill => "FILL_OR_KILL",
        }
    }

    /// The time in force named `s` on the wire, if any.
    pub fn from_wire(s: &str) -> (r: Option<CoinbaseTimeInForce>)
        ensures
            r matches Some(x) ==> x.wire_name() == s@,
            r is None ==> forall|x: CoinbaseTimeInForce| #[trigger] x.wire_name() != s@,
    {
        if str_eq(s, "UNKNOWN_TIME_IN_FORCE") {
            return Some(CoinbaseTimeInForce::Unknown);
        }
        if str_eq(s, "GOOD_UNTIL_DATE") {
            return Some(CoinbaseTimeInForce::GoodUntilDate);
        }
        if str_eq(s, "GOOD_UNTIL_CANCELLED") {
            return Some(CoinbaseTimeInForce::GoodUntilCancelled);
        }
        if str_eq(s, "IMMEDIATE_OR_CANCEL") {
            return Some(CoinbaseTimeInForce::ImmediateOrCancel);
        }
        if str_eq(s, "FILL_OR_KILL") {
            return Some(CoinbaseTimeInForce::FillOrKill);
        }
        proof {
            assert forall|x: CoinbaseTimeInForce| #[trigger] x.wire_name() != s@ by {
                match x {
                    CoinbaseTimeInForce::Unknown => {},
                    CoinbaseTimeInForce::GoodUntilDate => {},
                    CoinbaseTimeInForce::GoodUntilCancelled => {},
                    CoinbaseTimeInForce::ImmediateOrCancel => {},
                    CoinbaseTimeInForce::FillOrKill => {},
                }
            }
        }
        None
    }
}

/// Distinct time in forces have distinct wire names, so `from_wire` reads back what `as_str` gives.
pub proof fn lemma_time_in_force_wire_names_distinct(x: CoinbaseTimeInForce, y: CoinbaseTimeInForce)
    ensures
        x.wire_name() == y.wire_name() ==> x == y,
{
    reveal_strlit("UNKNOWN_TIME_IN_FORCE");
    reveal_strlit("GOOD_UNTIL_DATE");
    reveal_strlit("GOOD_UNTIL_CANCELLED");
    reveal_strlit("IMMEDIATE_OR_CANCEL");
    reveal_strlit("FILL_OR_KILL");
    if x.wire_name() == y.wire_name() && x != y {
        assert(x.wire_name().len() != y.wire_name().len() || exists|i: int|
            0 <= i < x.wire_name().len() && x.wire_name()[i] != y.wire_name()[i]) by {
            match x {
                CoinbaseTimeInForce::Unknown => match y {
                    CoinbaseTimeInForce::Unknown => {},
                    CoinbaseTimeInForce::GoodUntilDate => {},
                    CoinbaseTimeInForce::GoodUntilCancelled => {},
                    CoinbaseTimeInForce::ImmediateOrCancel => {},
                    CoinbaseTimeInForce::FillOrKill => {},
                },
                CoinbaseTimeInForce::GoodUntilDate => match y {
                    CoinbaseTimeInForce::Unknown => {},
                    CoinbaseTimeInForce::GoodUntilDate => {},
                    CoinbaseTimeInForce::GoodUntilCancelled => {},
                    CoinbaseTimeInForce::ImmediateOrCancel => {},
                    CoinbaseTimeInForce::FillOrKill => {},
                },
                CoinbaseTimeInForce::GoodUntilCancelled => match y {
                    CoinbaseTimeInForce::Unknown => {},
                    CoinbaseTimeInForce::GoodUntilDate => {},
                    CoinbaseTimeInForce::GoodUntilCancelled => {},
                    CoinbaseTimeInForce::ImmediateOrCancel => {},
                    CoinbaseTimeInForce::FillOrKill => {},
                },
                CoinbaseTimeInForce::ImmediateOrCancel => match y {
                    CoinbaseTimeInForce::Unknown => {},
                    CoinbaseTimeInForce::GoodUntilDate => {},
                    CoinbaseTimeInForce::GoodUntilCancelled => {},
                    CoinbaseTimeInForce::ImmediateOrCancel => {},
                    CoinbaseTimeInForce::FillOrKill => {},
                },
                CoinbaseTimeInForce::FillOrKill => match y {
                    CoinbaseTimeInForce::Unknown => {},
                    CoinbaseTimeInForce::GoodUntilDate => {},
                    CoinbaseTimeInForce::GoodUntilCancelled => {},
                    CoinbaseTimeInForce::ImmediateOrCancel => {},
                    CoinbaseTimeInForce::FillOrKill => {},
                },
            }
        }
    }
}

impl CoinbaseProductStatus {
    /// The name of the product status on the wire.
    pub open spec fn wire_name(self) -> Seq<char> {
        match self {
            CoinbaseProductStatus::Online => "online"@,
            CoinbaseProductStatus::Offline => "offline"@,
            CoinbaseProductStatus::Unset => ""@,
        }
    }

    /// The name of the product status on the wire.
    pub fn as_str(&self) -> (s: &'static str)
        ensures
            s@ == self.wire_name(),
    {
        match self {
            CoinbaseProductStatus::Online => "online",
            CoinbaseProductStatus::Offline => "offline",
            CoinbaseProductStatus::Unset => "",
        }
    }

    /// The product status named `s` on the wire, if any.
    pub fn from_wire(s: &str) -> (r: Option<CoinbaseProductStatus>)
        ensures
            r matches Some(x) ==> x.wire_name() == s@,
            r is None ==> forall|x: CoinbaseProductStatus| #[trigger] x.wire_name() != s@,
    {
        if str_eq(s, "online") {
            return Some(CoinbaseProductStatus::Online);
        }
        if str_eq(s, "offline") {
            return Some(CoinbaseProductStatus::Offline);
        }
        if str_eq(s, "") {
            return Some(CoinbaseProductStatus::Unset);
        }
        proof {
            assert forall|x: CoinbaseProductStatus| #[trigger] x.wire_name() != s@ by {
                match x {
                    CoinbaseProductStatus::Online => {},
                    CoinbaseProductStatus::Offline => {},
                    CoinbaseProductStatus::Unset => {},
                }
            }
        }
        None
    }
}

/// Distinct product statuss have distinct wire names, so `from_wire` reads back what `as_str` gives.
pub proof fn lemma_product_status_wire_names_distinct(x: CoinbaseProductStatus, y: CoinbaseProductStatus)
    ensures
        x.wire_name() == y.wire_name() ==> x == y,
{
    reveal_strlit("online");
    reveal_strlit("offline");
    reveal_strlit("");
    if x.wire_name() == y.wire_name() && x != y {
        assert(x.wire_name().len() != y.wire_name().len() || exists|i: int|
            0 <= i < x.wire_name().len() && x.wire_name()[i] != y.wire_name()[i]) by {
            match x {
                CoinbaseProductStatus::Online => match y {
                    CoinbaseProductStatus::Online => {},
                    CoinbaseProductStatus::Offline => {},
                    CoinbaseProductStatus::Unset => {},
                },
                CoinbaseProductStatus::Offline => match y {
                    CoinbaseProductStatus::Online => {},
                    CoinbaseProductStatus::Offline => {},
                    CoinbaseProductStatus::Unset => {},
                },
                CoinbaseProductStatus::Unset => match y {
                    CoinbaseProductStatus::Online => {},
                    CoinbaseProductStatus::Offline => {},
                    CoinbaseProductStatus::Unset => {},
                },
            }
        }
    }
}

impl CoinbaseProductVenue {
    /// The name of the product venue on the wire.
    pub open spec fn wire_name(self) -> Seq<char> {
        match self {
            CoinbaseProductVenue::Cbe => "CBE"@,
            CoinbaseProductVenue::Fcm => "FCM"@,
        }
    }

    /// The name of the product venue on the wire.
    pub fn as_str(&self) -> (s: &'static str)
        ensures
            s@ == self.wire_name(),
    {
        match self {
            CoinbaseProductVenue::Cbe => "CBE",
            CoinbaseProductVenue::Fcm => "FCM",
        }
    }

    /// The product venue named `s` on the wire, if any.
    pub fn from_wire(s: &str) -> (r: Option<CoinbaseProductVenue>)
        ensures
            r matches Some(x) ==> x.wire_name() == s@,
            r is None ==> forall|x: CoinbaseProductVenue| #[trigger] x.wire_name() != s@,
    {
        if str_eq(s, "CBE") {
            return Some(CoinbaseProductVenue::Cbe);
        }
        if str_eq(s, "FCM") {
            return Some(CoinbaseProductVenue::Fcm);
        }
        proof {
            assert forall|x: CoinbaseProductVenue| #[trigger] x.wire_name() != s@ by {
                match x {
                    CoinbaseProductVenue::Cbe => {},
                    CoinbaseProductVenue::Fcm => {},
                }
            }
        }
        None
    }
}

/// Distinct product venues have distinct wire names, so `from_wire` reads back what `as_str` gives.
pub proof fn lemma_product_venue_wire_names_distinct(x: CoinbaseProductVenue, y: CoinbaseProductVenue)
    ensures
        x.wire_name() == y.wire_name() ==> x == y,
{
    reveal_strlit("CBE");
    reveal_strlit("FCM");
    if x.wire_name() == y.wire_name() && x != y {
        assert(x.wire_name().len() != y.wire_name().len() || exists|i: int|
            0 <= i < x.wire_name().len() && x.wire_name()[i] != y.wire_name()[i]) by {
            match x {
                CoinbaseProductVenue::Cbe => match y {
                    CoinbaseProductVenue::Cbe => {},
                    CoinbaseProductVenue::Fcm => { assert(x.wire_name()[0] != y.wire_name()[0]); },
                },
                CoinbaseProductVenue::Fcm => match y {
                    CoinbaseProductVenue::Cbe => { assert(x.wire_name()[0] != y.wire_name()[0]); },
                    CoinbaseProductVenue::Fcm => {},
                },
            }
        }
    }
}

impl CoinbaseContractExpiryType {
    /// The name of the contract expiry type on the wire.
    pub open spec fn wire_name(self) -> Seq<char> {
        match self {
            CoinbaseContractExpiryType::Expiring => "EXPIRING"@,
            CoinbaseContractExpiryType::Perpetual => "PERPETUAL"@,
        }
    }

    /// The name of the contract expiry type on the wire.
    pub fn as_str(&self) -> (s: &'static str)
        ensures
            s@ == self.wire_name(),
    {
        match self {
            CoinbaseContractExpiryType::Expiring => "EXPIRING",
            CoinbaseContractExpiryType::Perpetual => "PERPETUAL",
        }
    }

    /// The contract expiry type named `s` on the wire, if any.
    pub fn from_wire(s: &str) -> (r: Option<CoinbaseContractExpiryType>)
        ensures
            r matches Some(x) ==> x.wire_name() == s@,
            r is None ==> forall|x: CoinbaseContractExpiryType| #[trigger] x.wire_name() != s@,
    {
        if str_eq(s, "EXPIRING") {
            return Some(CoinbaseContractExpiryType::Expiring);
        }
        if str_eq(s, "PERPETUAL") {
            return Some(CoinbaseContractExpiryType::Perpetual);
        }
        proof {
            assert forall|x: CoinbaseContractExpiryType| #[trigger] x.wire_name() != s@ by {
                match x {
                    CoinbaseContractExpiryType::Expiring => {},
                    CoinbaseContractExpiryType::Perpetual => {},
                }
            }
        }
        None
    }
}

/// Distinct contract expiry types have distinct wire names, so `from_wire` reads back what `as_str` gives.
pub proof fn lemma_contract_expiry_type_wire_names_distinct(x: CoinbaseContractExpiryType, y: CoinbaseContractExpiryType)
    ensures
        x.wire_name() == y.wire_name() ==> x == y,
{
    reveal_strlit("EXPIRING");
    reveal_strlit("PERPETUAL");
    if x.wire_name() == y.wire_name() && x != y {
        assert(x.wire_name().len() != y.wire_name().len() || exists|i: int|
            0 <= i < x.wire_name().len() && x.wire_name()[i] != y.wire_name()[i]) by {
            match x {
                CoinbaseContractExpiryType::Expiring => match y {
                    CoinbaseContractExpiryType::Expiring => {},
                    CoinbaseContractExpiryType::Perpetual => {},
                },
                CoinbaseContractExpiryType::Perpetual => match y {
                    CoinbaseContractExpiryType::Expiring => {},
                    CoinbaseContractExpiryType::Perpetual => {},
                },
            }
        }
    }
}

impl CoinbaseFuturesAssetType {
    /// The name of the futures asset type on the wire.
    pub open spec fn wire_name(self) -> Seq<char> {
        match self {
            CoinbaseFuturesAssetType::Crypto => "FUTURES_ASSET_TYPE_CRYPTO"@,
            CoinbaseFuturesAssetType::Energy => "FUTURES_ASSET_TYPE_ENERGY"@,
            CoinbaseFuturesAssetType::Metals => "FUTURES_ASSET_TYPE_METALS"@,
            CoinbaseFuturesAssetType::Stocks => "FUTURES_ASSET_TYPE_STOCKS"@,
        }
    }

    /// The name of the futures asset type on the wire.
    pub fn as_str(&self) -> (s: &'static str)
        ensures
            s@ == self.wire_name(),
    {
        match self {
            CoinbaseFuturesAssetType::Crypto => "FUTURES_ASSET_TYPE_CRYPTO",
            CoinbaseFuturesAssetType::Energy => "FUTURES_ASSET_TYPE_ENERGY",
            CoinbaseFuturesAssetType::Metals => "FUTURES_ASSET_TYPE_METALS",
            CoinbaseFuturesAssetType::Stocks => "FUTURES_ASSET_TYPE_STOCKS",
        }
    }

    /// The futures asset type named `s` on the wire, if any.
    pub fn from_wire(s: &str) -> (r: Option<CoinbaseFuturesAssetType>)
        ensures
            r matches Some(x) ==> x.wire_name() == s@,
            r is None ==> forall|x: CoinbaseFuturesAssetType| #[trigger] x.wire_name() != s@,
    {
        if str_eq(s, "FUTURES_ASSET_TYPE_CRYPTO") {
            return Some(CoinbaseFuturesAssetType::Crypto);
        }
        if str_eq(s, "FUTURES_ASSET_TYPE_ENERGY") {
            return Some(CoinbaseFuturesAssetType::Energy);
        }
        if str_eq(s, "FUTURES_ASSET_TYPE_METALS") {
            return Some(CoinbaseFuturesAssetType::Metals);
        }
        if str_eq(s, "FUTURES_ASSET_TYPE_STOCKS") {
            return Some(CoinbaseFuturesAssetType::Stocks);
        }
        proof {
            assert forall|x: CoinbaseFuturesAssetType| #[trigger] x.wire_name() != s@ by {
                match x {
                    CoinbaseFuturesAssetType::Crypto => {},
                    CoinbaseFuturesAssetType::Energy => {},
                    CoinbaseFuturesAssetType::Metals => {},
                    CoinbaseFuturesAssetType::Stocks => {},
                }
            }
        }
        None
    }
}

/// Distinct futures asset types have distinct wire names, so `from_wire` reads back what `as_str` gives.
pub proof fn lemma_futures_asset_type_wire_names_distinct(x: CoinbaseFuturesAssetType, y: CoinbaseFuturesAssetType)
    ensures
        x.wire_name() == y.wire_name() ==> x == y,
{
    reveal_strlit("FUTURES_ASSET_TYPE_CRYPTO");
    reveal_strlit("FUTURES_ASSET_TYPE_ENERGY");
    reveal_strlit("FUTURES_ASSET_TYPE_METALS");
    reveal_strlit("FUTURES_ASSET_TYPE_STOCKS");
    if x.wire_name() == y.wire_name() && x != y {
        assert(x.wire_name().len() != y.wire_name().len() || exists|i: int|
            0 <= i < x.wire_name().len() && x.wire_name()[i] != y.wire_name()[i]) by {
            match x {
                CoinbaseFuturesAssetType::Crypto => match y {
                    CoinbaseFuturesAssetType::Crypto => {},
                    CoinbaseFuturesAssetType::Energy => { assert(x.wire_name()[19] != y.wire_name()[19]); },
                    CoinbaseFuturesAssetType::Metals => { assert(x.wire_name()[19] != y.wire_name()[19]); },
                    CoinbaseFuturesAssetType::Stocks => { assert(x.wire_name()[19] != y.wire_name()[19]); },
                },
                CoinbaseFuturesAssetType::Energy => match y {
                    CoinbaseFuturesAssetType::Crypto => { assert(x.wire_name()[19] != y.wire_name()[19]); },
                    CoinbaseFuturesAssetType::Energy => {},
                    CoinbaseFuturesAssetType::Metals => { assert(x.wire_name()[19] != y.wire_name()[19]); },
                    CoinbaseFuturesAssetType::Stocks => { assert(x.wire_name()[19] != y.wire_name()[19]); },
                },
                CoinbaseFuturesAssetType::Metals => match y {
                    CoinbaseFuturesAssetType::Crypto => { assert(x.wire_name()[19] != y.wire_name()[19]); },
                    CoinbaseFuturesAssetType::Energy => { assert(x.wire_name()[19] != y.wire_name()[19]); },
                    CoinbaseFuturesAssetType::Metals => {},
                    CoinbaseFuturesAssetType::Stocks => { assert(x.wire_name()[19] != y.wire_name()[19]); },
                },
                CoinbaseFuturesAssetType::Stocks => match y {
                    CoinbaseFuturesAssetType::Crypto => { assert(x.wire_name()[19] != y.wire_name()[19]); },
                    CoinbaseFuturesAssetType::Energy => { assert(x.wire_name()[19] != y.wire_name()[19]); },
                    CoinbaseFuturesAssetType::Metals => { assert(x.wire_name()[19] != y.wire_name()[19]); },
                    CoinbaseFuturesAssetType::Stocks => {},
                },
            }
        }
    }
}

impl CoinbaseLiquidityIndicator {
    /// The name of the liquidity indicator on the wire.
    pub open spec fn wire_name(self) -> Seq<char> {
        match self {
            CoinbaseLiquidityIndicator::Maker => "MAKER"@,
            CoinbaseLiquidityIndicator::Taker => "TAKER"@,
            CoinbaseLiquidityIndicator::Unknown => "UNKNOWN"@,
        }
    }

    /// The name of the liquidity indicator on the wire.
    pub fn as_str(&self) -> (s: &'static str)
        ensures
            s@ == self.wire_name(),
    {
        match self {
            CoinbaseLiquidityIndicator::Maker => "MAKER",
            CoinbaseLiquidityIndicator::Taker => "TAKER",
            CoinbaseLiquidityIndicator::Unknown => "UNKNOWN",
        }
    }

    /// The liquidity indicator named `s` on the wire, if any.
    pub fn from_wire(s: &str) -> (r: Option<CoinbaseLiquidityIndicator>)
        ensures
            r matches Some(x) ==> x.wire_name() == s@,
            r is None ==> forall|x: CoinbaseLiquidityIndicator| #[trigger] x.wire_name() != s@,
    {
        if str_eq(s, "MAKER") {
            return Some(CoinbaseLiquidityIndicator::Maker);
        }
        if str_eq(s, "TAKER") {
            return Some(CoinbaseLiquidityIndicator::Taker);
        }
        if str_eq(s, "UNKNOWN") {
            return Some(CoinbaseLiquidityIndicator::Unknown);
        }
        proof {
            assert forall|x: CoinbaseLiquidityIndicator| #[trigger] x.wire_name() != s@ by {
                match x {
                    CoinbaseLiquidityIndicator::Maker => {},
                    CoinbaseLiquidityIndicator::Taker => {},
                    CoinbaseLiquidityIndicator::Unknown => {},
                }
            }
        }
        None
    }
}

/// Distinct liquidity indicators have distinct wire names, so `from_wire` reads back what `as_str` gives.
pub proof fn lemma_liquidity_indicator_wire_names_distinct(x: CoinbaseLiquidityIndicator, y: CoinbaseLiquidityIndicator)
    ensures
        x.wire_name() == y.wire_name() ==> x == y,
{
    reveal_strlit("MAKER");
    reveal_strlit("TAKER");
    reveal_strlit("UNKNOWN");
    if x.wire_name() == y.wire_name() && x != y {
        assert(x.wire_name().len() != y.wire_name().len() || exists|i: int|
            0 <= i < x.wire_name().len() && x.wire_name()[i] != y.wire_name()[i]) by {
            match x {
                CoinbaseLiquidityIndicator::Maker => match y {
                    CoinbaseLiquidityIndicator::Maker => {},
                    CoinbaseLiquidityIndicator::Taker => { assert(x.wire_name()[0] != y.wire_name()[0]); },
                    CoinbaseLiquidityIndicator::Unknown => {},
                },
                CoinbaseLiquidityIndicator::Taker => match y {
                    CoinbaseLiquidityIndicator::Maker => { assert(x.wire_name()[0] != y.wire_name()[0]); },
                    CoinbaseLiquidityIndicator::Taker => {},
                    CoinbaseLiquidityIndicator::Unknown => {},
                },
                CoinbaseLiquidityIndicator::Unknown => match y {
                    CoinbaseLiquidityIndicator::Maker => {},
                    CoinbaseLiquidityIndicator::Taker => {},
                    CoinbaseLiquidityIndicator::Unknown => {},
                },
            }
        }
    }
}

impl CoinbaseStopDirection {
    /// The name of the stop direction on the wire.
    pub open spec fn wire_name(self) -> Seq<char> {
        match self {
            CoinbaseStopDirection::StopDown => "STOP_DIRECTION_STOP_DOWN"@,
            CoinbaseStopDirection::StopUp => "STOP_DIRECTION_STOP_UP"@,
        }
    }

    /// The name of the stop direction on the wire.
    pub fn as_str(&self) -> (s: &'static str)
        ensures
            s@ == self.wire_name(),
    {
        match self {
            CoinbaseStopDirection::StopDown => "STOP_DIRECTION_STOP_DOWN",
            CoinbaseStopDirection::StopUp => "STOP_DIRECTION_STOP_UP",
        }
    }

    /// The stop direction named `s` on the wire, if any.
    pub fn from_wire(s: &str) -> (r: Option<CoinbaseStopDirection>)
        ensures
            r matches Some(x) ==> x.wire_name() == s@,
            r is None ==> forall|x: CoinbaseStopDirection| #[trigger] x.wire_name() != s@,
    {
        if str_eq(s, "STOP_DIRECTION_STOP_DOWN") {
            return Some(CoinbaseStopDirection::StopDown);
        }
        if str_eq(s, "STOP_DIRECTION_STOP_UP") {
            return Some(CoinbaseStopDirection::StopUp);
        }
        proof {
            assert forall|x: CoinbaseStopDirection| #[trigger] x.wire_name() != s@ by {
                match x {
                    CoinbaseStopDirection::StopDown => {},
                    CoinbaseStopDirection::StopUp => {},
                }
            }
        }
        None
    }
}

/// Distinct stop directions have distinct wire names, so `from_wire` reads back what `as_str` gives.
pub proof fn lemma_stop_direction_wire_names_distinct(x: CoinbaseStopDirection, y: CoinbaseStopDirection)
    ensures
        x.wire_name() == y.wire_name() ==> x == y,
{
    reveal_strlit("STOP_DIRECTION_STOP_DOWN");
    reveal_strlit("STOP_DIRECTION_STOP_UP");
    if x.wire_name() == y.wire_name() && x != y {
        assert(x.wire_name().len() != y.wire_name().len() || exists|i: int|
            0 <= i < x.wire_name().len() && x.wire_name()[i] != y.wire_name()[i]) by {
            match x {
                CoinbaseStopDirection::StopDown => match y {
                    CoinbaseStopDirection::StopDown => {},
                    CoinbaseStopDirection::StopUp => {},
                },
                CoinbaseStopDirection::StopUp => match y {
                    CoinbaseStopDirection::StopDown => {},
                    CoinbaseStopDirection::StopUp => {},
                },
            }
        }
    }
}

impl CoinbaseGranularity {
    /// The name of the granularity on the wire.
    pub open spec fn wire_name(self) -> Seq<char> {
        match self {
            CoinbaseGranularity::OneMinute => "ONE_MINUTE"@,
            CoinbaseGranularity::FiveMinute => "FIVE_MINUTE"@,
            CoinbaseGranularity::FifteenMinute => "FIFTEEN_MINUTE"@,
            CoinbaseGranularity::ThirtyMinute => "THIRTY_MINUTE"@,
            CoinbaseGranularity::OneHour => "ONE_HOUR"@,
            CoinbaseGranularity::TwoHour => "TWO_HOUR"@,
            CoinbaseGranularity::SixHour => "SIX_HOUR"@,
            CoinbaseGranularity::OneDay => "ONE_DAY"@,
        }
    }

    /// The name of the granularity on the wire.
    pub fn as_str(&self) -> (s: &'static str)
        ensures
            s@ == self.wire_name(),
    {
        match self {
            CoinbaseGranularity::OneMinute => "ONE_MINUTE",
            CoinbaseGranularity::FiveMinute => "FIVE_MINUTE",
            CoinbaseGranularity::FifteenMinute => "FIFTEEN_MINUTE",
            CoinbaseGranularity::ThirtyMinute => "THIRTY_MINUTE",
            CoinbaseGranularity::OneHour => "ONE_HOUR",
            CoinbaseGranularity::TwoHour => "TWO_HOUR",
            CoinbaseGranularity::SixHour => "SIX_HOUR",
            CoinbaseGranularity::OneDay => "ONE_DAY",
        }
    }

    /// The granularity named `s` on the wire, if any.
    pub fn from_wire(s: &str) -> (r: Option<CoinbaseGranularity>)
        ensures
            r matches Some(x) ==> x.wire_name() == s@,
            r is None ==> forall|x: CoinbaseGranularity| #[trigger] x.wire_name() != s@,
    {
        if str_eq(s, "ONE_MINUTE") {
            return Some(CoinbaseGranularity::OneMinute);
        }
        if str_eq(s, "FIVE_MINUTE") {
            return Some(CoinbaseGranularity::FiveMinute);
        }
        if str_eq(s, "FIFTEEN_MINUTE") {
            return Some(CoinbaseGranularity::FifteenMinute);
        }
        if str_eq(s, "THIRTY_MINUTE") {
            return Some(CoinbaseGranularity::ThirtyMinute);
        }
        if str_eq(s, "ONE_HOUR") {
            return Some(CoinbaseGranularity::OneHour);
        }
        if str_eq(s, "TWO_HOUR") {
            return Some(CoinbaseGranularity::TwoHour);
        }
        if str_eq(s, "SIX_HOUR") {
            return Some(CoinbaseGranularity::SixHour);
        }
        if str_eq(s, "ONE_DAY") {
            return Some(CoinbaseGranularity::OneDay);
        }
        proof {
            assert forall|x: CoinbaseGranularity| #[trigger] x.wire_name() != s@ by {
                match x {
                    CoinbaseGranularity::OneMinute => {},
                    CoinbaseGranularity::FiveMinute => {},
                    CoinbaseGranularity::FifteenMinute => {},
                    CoinbaseGranularity::ThirtyMinute => {},
                    CoinbaseGranularity::OneHour => {},
                    CoinbaseGranularity::TwoHour => {},
                    CoinbaseGranularity::SixHour => {},
                    CoinbaseGranularity::OneDay => {},
                }
            }
        }
        None
    }
}

/// Distinct granularitys have distinct wire names, so `from_wire` reads back what `as_str` gives.
pub proof fn lemma_granularity_wire_names_distinct(x: CoinbaseGranularity, y: CoinbaseGranularity)
    ensures
        x.wire_name() == y.wire_name() ==> x == y,
{
    reveal_strlit("ONE_MINUTE");
    reveal_strlit("FIVE_MINUTE");
    reveal_strlit("FIFTEEN_MINUTE");
    reveal_strlit("THIRTY_MINUTE");
    reveal_strlit("ONE_HOUR");
    reveal_strlit("TWO_HOUR");
    reveal_strlit("SIX_HOUR");
    reveal_strlit("ONE_DAY");
    if x.wire_name() == y.wire_name() && x != y {
        assert(x.wire_name().len() != y.wire_name().len() || exists|i: int|
            0 <= i < x.wire_name().len() && x.wire_name()[i] != y.wire_name()[i]) by {
            match x {
                CoinbaseGranularity::OneMinute => match y {
                    CoinbaseGranularity::OneMinute => {},
                    CoinbaseGranularity::FiveMinute => {},
                    CoinbaseGranularity::FifteenMinute => {},
                    CoinbaseGranularity::ThirtyMinute => {},
                    CoinbaseGranularity::OneHour => {},
                    CoinbaseGranularity::TwoHour => {},
                    CoinbaseGranularity::SixHour => {},
                    CoinbaseGranularity::OneDay => {},
                },
                CoinbaseGranularity::FiveMinute => match y {
                    CoinbaseGranularity::OneMinute => {},
                    CoinbaseGranularity::FiveMinute => {},
                    CoinbaseGranularity::FifteenMinute => {},
                    CoinbaseGranularity::ThirtyMinute => {},
                    CoinbaseGranularity::OneHour => {},
                    CoinbaseGranularity::TwoHour => {},
                    CoinbaseGranularity::SixHour => {},
                    CoinbaseGranularity::OneDay => {},
                },
                CoinbaseGranularity::FifteenMinute => match y {
                    CoinbaseGranularity::OneMinute => {},
                    CoinbaseGranularity::FiveMinute => {},
                    CoinbaseGranularity::FifteenMinute => {},
                    CoinbaseGranularity::ThirtyMinute => {},
                    CoinbaseGranularity::OneHour => {},
                    CoinbaseGranularity::TwoHour => {},
                    CoinbaseGranularity::SixHour => {},
                    CoinbaseGranularity::OneDay => {},
                },
                CoinbaseGranularity::ThirtyMinute => match y {
                    CoinbaseGranularity::OneMinute => {},
                    CoinbaseGranularity::FiveMinute => {},
                    CoinbaseGranularity::FifteenMinute => {},
                    CoinbaseGranularity::ThirtyMinute => {},
                    CoinbaseGranularity::OneHour => {},
                    CoinbaseGranularity::TwoHour => {},
                    CoinbaseGranularity::SixHour => {},
                    CoinbaseGranularity::OneDay => {},
                },
                CoinbaseGranularity::OneHour => match y {
                    CoinbaseGranularity::OneMinute => {},
                    CoinbaseGranularity::FiveMinute => {},
                    CoinbaseGranularity::FifteenMinute => {},
                    CoinbaseGranularity::ThirtyMinute => {},
                    CoinbaseGranularity::OneHour => {},
                    CoinbaseGranularity::TwoHour => { assert(x.wire_name()[0] != y.wire_name()[0]); },
                    CoinbaseGranularity::SixHour => { assert(x.wire_name()[0] != y.wire_name()[0]); },
                    CoinbaseGranularity::OneDay => {},
                },
                CoinbaseGranularity::TwoHour => match y {
                    CoinbaseGranularity::OneMinute => {},
                    CoinbaseGranularity::FiveMinute => {},
                    CoinbaseGranularity::FifteenMinute => {},
                    CoinbaseGranularity::ThirtyMinute => {},
                    CoinbaseGranularity::OneHour => { assert(x.wire_name()[0] != y.wire_name()[0]); },
                    CoinbaseGranularity::TwoHour => {},
                    CoinbaseGranularity::SixHour => { assert(x.wire_name()[0] != y.wire_name()[0]); },
                    CoinbaseGranularity::OneDay => {},
                },
                CoinbaseGranularity::SixHour => match y {
                    CoinbaseGranularity::OneMinute => {},
                    CoinbaseGranularity::FiveMinute => {},
                    CoinbaseGranularity::FifteenMinute => {},
                    CoinbaseGranularity::ThirtyMinute => {},
                    CoinbaseGranularity::OneHour => { assert(x.wire_name()[0] != y.wire_name()[0]); },
                    CoinbaseGranularity::TwoHour => { assert(x.wire_name()[0] != y.wire_name()[0]); },
                    CoinbaseGranularity::SixHour => {},
                    CoinbaseGranularity::OneDay => {},
                },
                CoinbaseGranularity::OneDay => match y {
                    CoinbaseGranularity::OneMinute => {},
                    CoinbaseGranularity::FiveMinute => {},
                    CoinbaseGranularity::FifteenMinute => {},
                    CoinbaseGranularity::ThirtyMinute => {},
                    CoinbaseGranularity::OneHour => {},
                    CoinbaseGranularity::TwoHour => {},
                    CoinbaseGranularity::SixHour => {},
                    CoinbaseGranularity::OneDay => {},
                },
            }
        }
    }
}

impl CoinbaseWsChannel {
    /// The name of the channel on the wire.
    pub open spec fn wire_name(self) -> Seq<char> {
        match self {
            CoinbaseWsChannel::Level2 => "level2"@,
            CoinbaseWsChannel::MarketTrades => "market_trades"@,
            CoinbaseWsChannel::Ticker => "ticker"@,
            CoinbaseWsChannel::TickerBatch => "ticker_batch"@,
            CoinbaseWsChannel::Candles => "candles"@,
            CoinbaseWsChannel::User => "user"@,
            CoinbaseWsChannel::Heartbeats => "heartbeats"@,
            CoinbaseWsChannel::FuturesBalanceSummary => "futures_balance_summary"@,
            CoinbaseWsChannel::Status => "status"@,
        }
    }

    /// The name of the channel on the wire.
    pub fn as_str(&self) -> (s: &'static str)
        ensures
            s@ == self.wire_name(),
    {
        match self {
            CoinbaseWsChannel::Level2 => "level2",
            CoinbaseWsChannel::MarketTrades => "market_trades",
            CoinbaseWsChannel::Ticker => "ticker",
            CoinbaseWsChannel::TickerBatch => "ticker_batch",
            CoinbaseWsChannel::Candles => "candles",
            CoinbaseWsChannel::User => "user",
            CoinbaseWsChannel::Heartbeats => "heartbeats",
            CoinbaseWsChannel::FuturesBalanceSummary => "futures_balance_summary",
            CoinbaseWsChannel::Status => "status",
        }
    }

    /// The channel named `s` on the wire, if any.
    pub fn from_wire(s: &str) -> (r: Option<CoinbaseWsChannel>)
        ensures
            r matches Some(x) ==> x.wire_name() == s@,
            r is None ==> forall|x: CoinbaseWsChannel| #[trigger] x.wire_name() != s@,
    {
        if str_eq(s, "level2") {
            return Some(CoinbaseWsChannel::Level2);
        }
        if str_eq(s, "market_trades") {
            return Some(CoinbaseWsChannel::MarketTrades);
        }
        if str_eq(s, "ticker") {
            return Some(CoinbaseWsChannel::Ticker);
        }
        if str_eq(s, "ticker_batch") {
            return Some(CoinbaseWsChannel::TickerBatch);
        }
        if str_eq(s, "candles") {
            return Some(CoinbaseWsChannel::Candles);
        }
        if str_eq(s, "user") {
            return Some(CoinbaseWsChannel::User);
        }
        if str_eq(s, "heartbeats") {
            return Some(CoinbaseWsChannel::Heartbeats);
        }
        if str_eq(s, "futures_balance_summary") {
            return Some(CoinbaseWsChannel::FuturesBalanceSummary);
        }
        if str_eq(s, "status") {
            return Some(CoinbaseWsChannel::Status);
        }
        proof {
            assert forall|x: CoinbaseWsChannel| #[trigger] x.wire_name() != s@ by {
                match x {
                    CoinbaseWsChannel::Level2 => {},
                    CoinbaseWsChannel::MarketTrades => {},
                    CoinbaseWsChannel::Ticker => {},
                    CoinbaseWsChannel::TickerBatch => {},
                    CoinbaseWsChannel::Candles => {},
                    CoinbaseWsChannel::User => {},
                    CoinbaseWsChannel::Heartbeats => {},
                    CoinbaseWsChannel::FuturesBalanceSummary => {},
                    CoinbaseWsChannel::Status => {},
                }
            }
        }
        None
    }
}

/// Distinct channels have distinct wire names, so `from_wire` reads back what `as_str` gives.
pub proof fn lemma_ws_channel_wire_names_distinct(x: CoinbaseWsChannel, y: CoinbaseWsChannel)
    ensures
        x.wire_name() == y.wire_name() ==> x == y,
{
    reveal_strlit("level2");
    reveal_strlit("market_trades");
    reveal_strlit("ticker");
    reveal_strlit("ticker_batch");
    reveal_strlit("candles");
    reveal_strlit("user");
    reveal_strlit("heartbeats");
    reveal_strlit("futures_balance_summary");
    reveal_strlit("status");
    if x.wire_name() == y.wire_name() && x != y {
        assert(x.wire_name().len() != y.wire_name().len() || exists|i: int|
            0 <= i < x.wire_name().len() && x.wire_name()[i] != y.wire_name()[i]) by {
            match x {
                CoinbaseWsChannel::Level2 => match y {
                    CoinbaseWsChannel::Level2 => {},
                    CoinbaseWsChannel::MarketTrades => {},
                    CoinbaseWsChannel::Ticker => { assert(x.wire_name()[0] != y.wire_name()[0]); },
                    CoinbaseWsChannel::TickerBatch => {},
                    CoinbaseWsChannel::Candles => {},
                    CoinbaseWsChannel::User => {},
                    CoinbaseWsChannel::Heartbeats => {},
                    CoinbaseWsChannel::FuturesBalanceSummary => {},
                    CoinbaseWsChannel::Status => { assert(x.wire_name()[0] != y.wire_name()[0]); },
                },
                CoinbaseWsChannel::MarketTrades => match y {
                    CoinbaseWsChannel::Level2 => {},
                    CoinbaseWsChannel::MarketTrades => {},
                    CoinbaseWsChannel::Ticker => {},
                    CoinbaseWsChannel::TickerBatch => {},
                    CoinbaseWsChannel::Candles => {},
                    CoinbaseWsChannel::User => {},
                    CoinbaseWsChannel::Heartbeats => {},
                    CoinbaseWsChannel::FuturesBalanceSummary => {},
                    CoinbaseWsChannel::Status => {},
                },
                CoinbaseWsChannel::Ticker => match y {
                    CoinbaseWsChannel::Level2 => { assert(x.wire_name()[0] != y.wire_name()[0]); },
                    CoinbaseWsChannel::MarketTrades => {},
                    CoinbaseWsChannel::Ticker => {},
                    CoinbaseWsChannel::TickerBatch => {},
                    CoinbaseWsChannel::Candles => {},
                    CoinbaseWsChannel::User => {},
                    CoinbaseWsChannel::Heartbeats => {},
                    CoinbaseWsChannel::FuturesBalanceSummary => {},
                    CoinbaseWsChannel::Status => { assert(x.wire_name()[0] != y.wire_name()[0]); },
                },
                CoinbaseWsChannel::TickerBatch => match y {
                    CoinbaseWsChannel::Level2 => {},
                    CoinbaseWsChannel::MarketTrades => {},
                    CoinbaseWsChannel::Ticker => {},
                    CoinbaseWsChannel::TickerBatch => {},
                    CoinbaseWsChannel::Candles => {},
                    CoinbaseWsChannel::User => {},
                    CoinbaseWsChannel::Heartbeats => {},
                    CoinbaseWsChannel::FuturesBalanceSummary => {},
                    CoinbaseWsChannel::Status => {},
                },
                CoinbaseWsChannel::Candles => match y {
                    CoinbaseWsChannel::Level2 => {},
                    CoinbaseWsChannel::MarketTrades => {},
                    CoinbaseWsChannel::Ticker => {},
                    CoinbaseWsChannel::TickerBatch => {},
                    CoinbaseWsChannel::Candles => {},
                    CoinbaseWsChannel::User => {},
                    CoinbaseWsChannel::Heartbeats => {},
                    CoinbaseWsChannel::FuturesBalanceSummary => {},
                    CoinbaseWsChannel::Status => {},
                },
                CoinbaseWsChannel::User => match y {
                    CoinbaseWsChannel::Level2 => {},
                    CoinbaseWsChannel::MarketTrades => {},
                    CoinbaseWsChannel::Ticker => {},
                    CoinbaseWsChannel::TickerBatch => {},
                    CoinbaseWsChannel::Candles => {},
                    CoinbaseWsChannel::User => {},
                    CoinbaseWsChannel::Heartbeats => {},
                    CoinbaseWsChannel::FuturesBalanceSummary => {},
                    CoinbaseWsChannel::Status => {},
                },
                CoinbaseWsChannel::Heartbeats => match y {
                    CoinbaseWsChannel::Level2 => {},
                    CoinbaseWsChannel::MarketTrades => {},
                    CoinbaseWsChannel::Ticker => {},
                    CoinbaseWsChannel::TickerBatch => {},
                    CoinbaseWsChannel::Candles => {},
                    CoinbaseWsChannel::User => {},
                    CoinbaseWsChannel::Heartbeats => {},
                    CoinbaseWsChannel::FuturesBalanceSummary => {},
                    CoinbaseWsChannel::Status => {},
                },
                CoinbaseWsChannel::FuturesBalanceSummary => match y {
                    CoinbaseWsChannel::Level2 => {},
                    CoinbaseWsChannel::MarketTrades => {},
                    CoinbaseWsChannel::Ticker => {},
                    CoinbaseWsChannel::TickerBatch => {},
                    CoinbaseWsChannel::Candles => {},
                    CoinbaseWsChannel::User => {},
                    CoinbaseWsChannel::Heartbeats => {},
                    CoinbaseWsChannel::FuturesBalanceSummary => {},
                    CoinbaseWsChannel::Status => {},
                },
                CoinbaseWsChannel::Status => match y {
                    CoinbaseWsChannel::Level2 => { assert(x.wire_name()[0] != y.wire_name()[0]); },
                    CoinbaseWsChannel::MarketTrades => {},
                    CoinbaseWsChannel::Ticker => { assert(x.wire_name()[0] != y.wire_name()[0]); },
                    CoinbaseWsChannel::TickerBatch => {},
                    CoinbaseWsChannel::Candles => {},
                    CoinbaseWsChannel::User => {},
                    CoinbaseWsChannel::Heartbeats => {},
                    CoinbaseWsChannel::FuturesBalanceSummary => {},
                    CoinbaseWsChannel::Status => {},
                },
            }
        }
    }
}

} // verus!
