//! Domain model: fixed-point prices and quantities, identifiers, market data records and
//! instruments.

use crate::decimal::{
    decimal_from_str, decimal_mantissa_bound, fixed_raw, fixed_raw_u128, parse_decimal, FIXED_PRECISION,
};
use vstd::prelude::*;

verus! {

/// Nanoseconds since the UNIX epoch.
pub type UnixNanos = u64;

/// Largest price magnitude, in raw units of `10^-9`: `9_223_372_036`.
pub const PRICE_RAW_MAX: i64 = 9_223_372_036_000_000_000;

/// Largest quantity, in raw units of `10^-9`: `18_446_744_073`.
pub const QUANTITY_RAW_MAX: u64 = 18_446_744_073_000_000_000;

/// Errors from building or parsing domain values.
#[derive(Debug, Clone, Copy, PartialEq, Eq, Structural)]
pub enum DataError {
    /// The text is not a decimal number.
    InvalidDecimal,
    /// More decimals were asked for than the fixed-point representation holds.
    PrecisionTooHigh,
    /// The value lies outside the representable range.
    ValueOutOfRange,
    /// A quantity was negative.
    NegativeQuantity,
    /// The text is not an RFC 3339 timestamp.
    InvalidTimestamp,
    /// The timestamp does not fit in 64-bit nanoseconds.
    TimestampOutOfRange,
    /// The timestamp lies before the UNIX epoch.
    NegativeTimestamp,
    /// The text is not an unsigned integer.
    InvalidInteger,
    /// A trade or book entry that must have a positive size has none.
    NonPositiveSize,
    /// A bar's high/low do not bound its open and close.
    InvalidBar,
    /// A batch of book deltas was empty.
    EmptyDeltas,
    /// A quote's bid and ask differ in precision.
    PrecisionMismatch,
    /// A dated future has no contract expiry.
    MissingContractExpiry,
    /// The product type is not known.
    UnknownProductType,
}

/// A price: `raw / 10^9`, displayed with `precision` decimals.
#[derive(Debug, Clone, Copy, PartialEq, Eq, Structural)]
pub struct Price {
    pub raw: i64,
    pub precision: u8,
}

/// A non-negative quantity: `raw / 10^9`, displayed with `precision` decimals.
#[derive(Debug, Clone, Copy, PartialEq, Eq, Structural)]
pub struct Quantity {
    pub raw: u64,
    pub precision: u8,
}

/// The result of converting the decimal `mantissa / 10^scale` to a price with
/// `precision` decimals, rounding half to even.
pub open spec fn spec_price_from_decimal(mantissa: int, scale: nat, precision: nat) -> Result<
    Price,
    DataError,
> {
    if precision > FIXED_PRECISION {
        Err(DataError::PrecisionTooHigh)
    } else {
        let mag = fixed_raw(
            if mantissa < 0 {
                -mantissa
            } else {
                mantissa
            } as nat,
            scale,
            precision,
        );
        if mag > PRICE_RAW_MAX {
            Err(DataError::ValueOutOfRange)
        } else {
            Ok(
                Price {
                    raw: if mantissa < 0 {
                        -mag
                    } else {
                        mag as int
                    } as i64,
                    precision: precision as u8,
                },
            )
        }
    }
}

/// The result of converting the decimal `mantissa / 10^scale` to a quantity with
/// `precision` decimals, rounding half to even.
pub open spec fn spec_quantity_from_decimal(mantissa: int, scale: nat, precision: nat) -> Result<
    Quantity,
    DataError,
> {
    if precision > FIXED_PRECISION {
        Err(DataError::PrecisionTooHigh)
    } else if mantissa < 0 {
        Err(DataError::NegativeQuantity)
    } else {
        let mag = fixed_raw(mantissa as nat, scale, precision);
        if mag > QUANTITY_RAW_MAX {
            Err(DataError::ValueOutOfRange)
        } else {
            Ok(Quantity { raw: mag as u64, precision: precision as u8 })
        }
    }
}

/// What parsing the text `s` as a price with `precision` decimals gives.
pub open spec fn spec_parse_price(s: Seq<char>, precision: nat) -> Result<Price, DataError> {
    match decimal_from_str(s) {
        None => Err(DataError::InvalidDecimal),
        Some((m, sc)) => spec_price_from_decimal(m as int, sc as nat, precision),
    }
}

/// What parsing the text `s` as a quantity with `precision` decimals gives.
pub open spec fn spec_parse_quantity(s: Seq<char>, precision: nat) -> Result<Quantity, DataError> {
    match decimal_from_str(s) {
        None => Err(DataError::InvalidDecimal),
        Some((m, sc)) => spec_quantity_from_decimal(m as int, sc as nat, precision),
    }
}

/// What parsing `s` as a quantity with its own number of decimals gives.
pub open spec fn spec_quantity_from_str(s: Seq<char>) -> Result<Quantity, DataError> {
    match decimal_from_str(s) {
        None => Err(DataError::InvalidDecimal),
        Some((m, sc)) => spec_quantity_from_decimal(m as int, sc as nat, sc as nat),
    }
}

/// What parsing `s` as a price with its own number of decimals gives.
pub open spec fn spec_price_from_str(s: Seq<char>) -> Result<Price, DataError> {
    match decimal_from_str(s) {
        None => Err(DataError::InvalidDecimal),
        Some((m, sc)) => spec_price_from_decimal(m as int, sc as nat, sc as nat),
    }
}

fn magnitude(mantissa: i128) -> (a: u128)
    requires
        -decimal_mantissa_bound() < mantissa < decimal_mantissa_bound(),
    ensures
        a == (if mantissa < 0 {
            -mantissa
        } else {
            mantissa as int
        }),
        a < decimal_mantissa_bound(),
{
    if mantissa < 0 {
        (-mantissa) as u128
    } else {
        mantissa as u128
    }
}

impl Price {
    /// Converts the decimal `mantissa / 10^scale` to a price with `precision` decimals,
    /// rounding half to even.
    pub fn from_decimal_dp(mantissa: i128, scale: u32, precision: u8) -> (r: Result<
        Price,
        DataError,
    >)
        requires
            -decimal_mantissa_bound() < mantissa < decimal_mantissa_bound(),
            scale <= 28,
        ensures
            r == spec_price_from_decimal(mantissa as int, scale as nat, precision as nat),
    {
        if precision > FIXED_PRECISION {
            return Err(DataError::PrecisionTooHigh);
        }
        let mag = fixed_raw_u128(magnitude(mantissa), scale, precision);
        if mag > PRICE_RAW_MAX as u128 {
            return Err(DataError::ValueOutOfRange);
        }
        let raw: i64 = if mantissa < 0 {
            -(mag as i64)
        } else {
            mag as i64
        };
        Ok(Price { raw, precision })
    }

    /// Parses a decimal string as a price with its own number of decimals.
    pub fn from_decimal_str(value: &str) -> (r: Result<Price, DataError>)
        ensures
            r == spec_price_from_str(value@),
    {
        match parse_decimal(value) {
            None => Err(DataError::InvalidDecimal),
            Some((m, sc)) => {
                if sc > 255 {
                    return Err(DataError::PrecisionTooHigh);
                }
                Price::from_decimal_dp(m, sc, sc as u8)
            },
        }
    }
}

impl Quantity {
    /// Converts the decimal `mantissa / 10^scale` to a quantity with `precision`
    /// decimals, rounding half to even.
    pub fn from_decimal_dp(mantissa: i128, scale: u32, precision: u8) -> (r: Result<
        Quantity,
        DataError,
    >)
        requires
            -decimal_mantissa_bound() < mantissa < decimal_mantissa_bound(),
            scale <= 28,
        ensures
            r == spec_quantity_from_decimal(mantissa as int, scale as nat, precision as nat),
    {
        if precision > FIXED_PRECISION {
            return Err(DataError::PrecisionTooHigh);
        }
        if mantissa < 0 {
            return Err(DataError::NegativeQuantity);
        }
        let mag = fixed_raw_u128(magnitude(mantissa), scale, precision);
        if mag > QUANTITY_RAW_MAX as u128 {
            return Err(DataError::ValueOutOfRange);
        }
        Ok(Quantity { raw: mag as u64, precision })
    }

    /// Parses a decimal string as a quantity with its own number of decimals.
    pub fn from_decimal_str(value: &str) -> (r: Result<Quantity, DataError>)
        ensures
            r == spec_quantity_from_str(value@),
    {
        match parse_decimal(value) {
            None => Err(DataError::InvalidDecimal),
            Some((m, sc)) => {
                if sc > 255 {
                    return Err(DataError::PrecisionTooHigh);
                }
                Quantity::from_decimal_dp(m, sc, sc as u8)
            },
        }
    }

    /// The zero quantity with the given precision.
    pub fn zero(precision: u8) -> (q: Quantity)
        ensures
            q == (Quantity { raw: 0, precision }),
    {
        Quantity { raw: 0, precision }
    }

    /// A quantity is positive when its raw value is.
    pub fn is_positive(&self) -> (b: bool)
        ensures
            b == (self.raw > 0),
    {
        self.raw > 0
    }
}

/// Venue name of Coinbase instruments.
pub const COINBASE: &'static str = "COINBASE";

/// An instrument identifier: a symbol at a venue.
#[derive(Debug, PartialEq, Eq, Hash)]
pub struct InstrumentId {
    pub symbol: String,
    pub venue: String,
}

impl Clone for InstrumentId {
    fn clone(&self) -> (r: Self)
        ensures
            r == *self,
    {
        InstrumentId { symbol: self.symbol.clone(), venue: self.venue.clone() }
    }
}

/// An instrument identifier by its symbol and venue.
pub open spec fn id_key(id: InstrumentId) -> (Seq<char>, Seq<char>) {
    (id.symbol@, id.venue@)
}

/// The identifier `"{product_id}.COINBASE"` of a Coinbase product.
pub fn instrument_id_from_product(product_id: &str) -> (id: InstrumentId)
    ensures
        id.symbol@ == product_id@,
        id.venue@ == COINBASE@,
{
    InstrumentId { symbol: product_id.to_owned(), venue: COINBASE.to_owned() }
}

/// Side of an order.
#[derive(Debug, Clone, Copy, PartialEq, Eq, Structural)]
pub enum OrderSide {
    NoOrderSide,
    Buy,
    Sell,
}

/// Side of the aggressor in a trade.
#[derive(Debug, Clone, Copy, PartialEq, Eq, Structural)]
pub enum AggressorSide {
    NoAggressor,
    Buyer,
    Seller,
}

/// Action applied by an order book delta.
#[derive(Debug, Clone, Copy, PartialEq, Eq, Structural)]
pub enum BookAction {
    Add,
    Update,
    Delete,
    Clear,
}

/// Record flag: the last message of a packet.
pub const F_LAST: u8 = 128;

/// Record flag: top-of-book message.
pub const F_TOB: u8 = 64;

/// Record flag: part of a snapshot.
pub const F_SNAPSHOT: u8 = 32;

/// Record flag: market-by-price message.
pub const F_MBP: u8 = 16;

/// An order in a book.
#[derive(Debug, Clone, Copy, PartialEq, Eq, Structural)]
pub struct BookOrder {
    pub side: OrderSide,
    pub price: Price,
    pub size: Quantity,
    pub order_id: u64,
}

impl BookOrder {
    /// Creates a new [`BookOrder`].
    pub fn new(side: OrderSide, price: Price, size: Quantity, order_id: u64) -> (o: BookOrder)
        ensures
            o == (BookOrder { side, price, size, order_id }),
    {
        BookOrder { side, price, size, order_id }
    }

    /// The empty order used by book-clear deltas.
    pub open spec fn spec_null() -> BookOrder {
        BookOrder {
            side: OrderSide::NoOrderSide,
            price: Price { raw: 0, precision: 0 },
            size: Quantity { raw: 0, precision: 0 },
            order_id: 0,
        }
    }

    /// The empty order used by book-clear deltas.
    pub fn null() -> (o: BookOrder)
        ensures
            o == BookOrder::spec_null(),
    {
        BookOrder {
            side: OrderSide::NoOrderSide,
            price: Price { raw: 0, precision: 0 },
            size: Quantity { raw: 0, precision: 0 },
            order_id: 0,
        }
    }
}

/// A single change to an order book.
#[derive(Debug, PartialEq, Eq)]
pub struct OrderBookDelta {
    pub instrument_id: InstrumentId,
    pub action: BookAction,
    pub order: BookOrder,
    pub flags: u8,
    pub sequence: u64,
    pub ts_event: UnixNanos,
    pub ts_init: UnixNanos,
}

impl Clone for OrderBookDelta {
    fn clone(&self) -> (r: Self)
        ensures
            r == *self,
    {
        OrderBookDelta {
            instrument_id: self.instrument_id.clone(),
            action: self.action,
            order: self.order,
            flags: self.flags,
            sequence: self.sequence,
            ts_event: self.ts_event,
            ts_init: self.ts_init,
        }
    }
}

/// An `Add` or `Update` delta must carry a positive size.
pub open spec fn delta_size_valid(action: BookAction, order: BookOrder) -> bool {
    (action == BookAction::Add || action == BookAction::Update) ==> order.size.raw > 0
}

impl OrderBookDelta {
    /// Creates a delta, checking that adds and updates carry a positive size.
    pub fn new_checked(
        instrument_id: InstrumentId,
        action: BookAction,
        order: BookOrder,
        flags: u8,
        sequence: u64,
        ts_event: UnixNanos,
        ts_init: UnixNanos,
    ) -> (r: Result<OrderBookDelta, DataError>)
        ensures
            r == (if !delta_size_valid(action, order) {
                Err::<OrderBookDelta, DataError>(DataError::NonPositiveSize)
            } else {
                Ok(OrderBookDelta { instrument_id, action, order, flags, sequence, ts_event, ts_init })
            }),
    {
        if (matches!(action, BookAction::Add) || matches!(action, BookAction::Update))
            && !order.size.is_positive() {
            return Err(DataError::NonPositiveSize);
        }
        Ok(OrderBookDelta { instrument_id, action, order, flags, sequence, ts_event, ts_init })
    }

    /// The delta that clears the book, flagged as part of a snapshot.
    pub open spec fn spec_clear(
        instrument_id: InstrumentId,
        sequence: u64,
        ts_event: UnixNanos,
        ts_init: UnixNanos,
    ) -> OrderBookDelta {
        OrderBookDelta {
            instrument_id,
            action: BookAction::Clear,
            order: BookOrder::spec_null(),
            flags: F_SNAPSHOT,
            sequence,
            ts_event,
            ts_init,
        }
    }

    /// Creates the delta that clears the book.
    pub fn clear(
        instrument_id: InstrumentId,
        sequence: u64,
        ts_event: UnixNanos,
        ts_init: UnixNanos,
    ) -> (d: OrderBookDelta)
        ensures
            d == OrderBookDelta::spec_clear(instrument_id, sequence, ts_event, ts_init),
    {
        OrderBookDelta {
            instrument_id,
            action: BookAction::Clear,
            order: BookOrder::null(),
            flags: F_SNAPSHOT,
            sequence,
            ts_event,
            ts_init,
        }
    }
}

/// A batch of order book deltas for one instrument; the batch carries the flags,
/// sequence and timestamps of its last delta.
#[derive(Debug, PartialEq, Eq)]
pub struct OrderBookDeltas {
    pub instrument_id: InstrumentId,
    pub deltas: Vec<OrderBookDelta>,
    pub flags: u8,
    pub sequence: u64,
    pub ts_event: UnixNanos,
    pub ts_init: UnixNanos,
}

impl OrderBookDeltas {
    /// Creates a batch from a non-empty vector of deltas.
    pub fn new_checked(instrument_id: InstrumentId, deltas: Vec<OrderBookDelta>) -> (r: Result<
        OrderBookDeltas,
        DataError,
    >)
        ensures
            deltas.len() == 0 <==> r == Err::<OrderBookDeltas, DataError>(DataError::EmptyDeltas),
            deltas.len() > 0 <==> r is Ok,
            r matches Ok(b) ==> {
                &&& b.instrument_id == instrument_id
                &&& b.deltas@ == deltas@
                &&& b.flags == deltas@.last().flags
                &&& b.sequence == deltas@.last().sequence
                &&& b.ts_event == deltas@.last().ts_event
                &&& b.ts_init == deltas@.last().ts_init
            },
    {
        if deltas.len() == 0 {
            return Err(DataError::EmptyDeltas);
        }
        let last = deltas.len() - 1;
        let flags = deltas[last].flags;
        let sequence = deltas[last].sequence;
        let ts_event = deltas[last].ts_event;
        let ts_init = deltas[last].ts_init;
        Ok(OrderBookDeltas { instrument_id, deltas, flags, sequence, ts_event, ts_init })
    }
}

/// The ten best levels of each side of a book.
#[derive(Debug, PartialEq, Eq)]
pub struct OrderBookDepth10 {
    pub instrument_id: InstrumentId,
    pub bids: [BookOrder; 10],
    pub asks: [BookOrder; 10],
    pub bid_counts: [u32; 10],
    pub ask_counts: [u32; 10],
    pub flags: u8,
    pub sequence: u64,
    pub ts_event: UnixNanos,
    pub ts_init: UnixNanos,
}

/// The fields of an [`OrderBookDepth10`]: its identifier by symbol and venue, its arrays
/// as sequences.
pub struct Depth10Fields {
    pub instrument: (Seq<char>, Seq<char>),
    pub bids: Seq<BookOrder>,
    pub asks: Seq<BookOrder>,
    pub bid_counts: Seq<u32>,
    pub ask_counts: Seq<u32>,
    pub flags: u8,
    pub sequence: u64,
    pub ts_event: UnixNanos,
    pub ts_init: UnixNanos,
}

impl View for OrderBookDepth10 {
    type V = Depth10Fields;

    open spec fn view(&self) -> Depth10Fields {
        Depth10Fields {
            instrument: id_key(self.instrument_id),
            bids: self.bids@,
            asks: self.asks@,
            bid_counts: self.bid_counts@,
            ask_counts: self.ask_counts@,
            flags: self.flags,
            sequence: self.sequence,
            ts_event: self.ts_event,
            ts_init: self.ts_init,
        }
    }
}

/// The fields of an [`OrderBookDelta`], its identifier by symbol and venue.
pub struct DeltaFields {
    pub instrument: (Seq<char>, Seq<char>),
    pub action: BookAction,
    pub order: BookOrder,
    pub flags: u8,
    pub sequence: u64,
    pub ts_event: UnixNanos,
    pub ts_init: UnixNanos,
}

impl View for OrderBookDelta {
    type V = DeltaFields;

    open spec fn view(&self) -> DeltaFields {
        DeltaFields {
            instrument: id_key(self.instrument_id),
            action: self.action,
            order: self.order,
            flags: self.flags,
            sequence: self.sequence,
            ts_event: self.ts_event,
            ts_init: self.ts_init,
        }
    }
}

/// The fields of an [`OrderBookDeltas`], identifiers by symbol and venue.
pub struct DeltasFields {
    pub instrument: (Seq<char>, Seq<char>),
    pub deltas: Seq<DeltaFields>,
    pub flags: u8,
    pub sequence: u64,
    pub ts_event: UnixNanos,
    pub ts_init: UnixNanos,
}

impl View for OrderBookDeltas {
    type V = DeltasFields;

    open spec fn view(&self) -> DeltasFields {
        DeltasFields {
            instrument: id_key(self.instrument_id),
            deltas: self.deltas@.map_values(|d: OrderBookDelta| d@),
            flags: self.flags,
            sequence: self.sequence,
            ts_event: self.ts_event,
            ts_init: self.ts_init,
        }
    }
}

/// A trade.
#[derive(Debug, PartialEq, Eq)]
pub struct TradeTick {
    pub instrument_id: InstrumentId,
    pub price: Price,
    pub size: Quantity,
    pub aggressor_side: AggressorSide,
    pub trade_id: String,
    pub ts_event: UnixNanos,
    pub ts_init: UnixNanos,
}

impl TradeTick {
    /// Creates a trade, checking that its size is positive.
    pub fn new_checked(
        instrument_id: InstrumentId,
        price: Price,
        size: Quantity,
        aggressor_side: AggressorSide,
        trade_id: String,
        ts_event: UnixNanos,
        ts_init: UnixNanos,
    ) -> (r: Result<TradeTick, DataError>)
        ensures
            r == (if size.raw == 0 {
                Err::<TradeTick, DataError>(DataError::NonPositiveSize)
            } else {
                Ok(TradeTick { instrument_id, price, size, aggressor_side, trade_id, ts_event, ts_init })
            }),
    {
        if !size.is_positive() {
            return Err(DataError::NonPositiveSize);
        }
        Ok(TradeTick { instrument_id, price, size, aggressor_side, trade_id, ts_event, ts_init })
    }
}

/// A top-of-book quote.
#[derive(Debug, PartialEq, Eq)]
pub struct QuoteTick {
    pub instrument_id: InstrumentId,
    pub bid_price: Price,
    pub ask_price: Price,
    pub bid_size: Quantity,
    pub ask_size: Quantity,
    pub ts_event: UnixNanos,
    pub ts_init: UnixNanos,
}

/// A quote's two prices share a precision, and so do its two sizes.
pub open spec fn quote_valid(bid_price: Price, ask_price: Price, bid_size: Quantity, ask_size: Quantity) -> bool {
    bid_price.precision == ask_price.precision && bid_size.precision == ask_size.precision
}

impl QuoteTick {
    /// Creates a quote, checking that bid and ask share precisions.
    pub fn new_checked(
        instrument_id: InstrumentId,
        bid_price: Price,
        ask_price: Price,
        bid_size: Quantity,
        ask_size: Quantity,
        ts_event: UnixNanos,
        ts_init: UnixNanos,
    ) -> (r: Result<QuoteTick, DataError>)
        ensures
            r == (if !quote_valid(bid_price, ask_price, bid_size, ask_size) {
                Err::<QuoteTick, DataError>(DataError::PrecisionMismatch)
            } else {
                Ok(
                    QuoteTick {
                        instrument_id,
                        bid_price,
                        ask_price,
                        bid_size,
                        ask_size,
                        ts_event,
                        ts_init,
                    },
                )
            }),
    {
        if bid_price.precision != ask_price.precision || bid_size.precision != ask_size.precision {
            return Err(DataError::PrecisionMismatch);
        }
        Ok(QuoteTick { instrument_id, bid_price, ask_price, bid_size, ask_size, ts_event, ts_init })
    }
}

/// How bars are aggregated.
#[derive(Debug, Clone, Copy, PartialEq, Eq, Structural)]
pub enum BarAggregation {
    Tick,
    TickImbalance,
    TickRuns,
    Volume,
    VolumeImbalance,
    VolumeRuns,
    Value,
    ValueImbalance,
    ValueRuns,
    Millisecond,
    Second,
    Minute,
    Hour,
    Day,
    Week,
    Month,
    Year,
    Renko,
}

/// Which price a bar is built from.
#[derive(Debug, Clone, Copy, PartialEq, Eq, Structural)]
pub enum PriceType {
    Bid,
    Ask,
    Mid,
    Last,
    Mark,
}

/// Where bars are aggregated.
#[derive(Debug, Clone, Copy, PartialEq, Eq, Structural)]
pub enum AggregationSource {
    External,
    Internal,
}

/// Step, aggregation and price type of a bar.
#[derive(Debug, Clone, Copy, PartialEq, Eq, Structural)]
pub struct BarSpecification {
    pub step: u64,
    pub aggregation: BarAggregation,
    pub price_type: PriceType,
}

/// The type of a bar series.
#[derive(Debug, PartialEq, Eq)]
pub struct BarType {
    pub instrument_id: InstrumentId,
    pub spec: BarSpecification,
    pub aggregation_source: AggregationSource,
}

impl Clone for BarType {
    fn clone(&self) -> (r: Self)
        ensures
            r == *self,
    {
        BarType {
            instrument_id: self.instrument_id.clone(),
            spec: self.spec,
            aggregation_source: self.aggregation_source,
        }
    }
}

/// An OHLCV bar.
#[derive(Debug, PartialEq, Eq)]
pub struct Bar {
    pub bar_type: BarType,
    pub open: Price,
    pub high: Price,
    pub low: Price,
    pub close: Price,
    pub volume: Quantity,
    pub ts_event: UnixNanos,
    pub ts_init: UnixNanos,
}

/// The high bounds the open, low and close from above, and the low bounds the open and
/// close from below.
pub open spec fn bar_valid(open: Price, high: Price, low: Price, close: Price) -> bool {
    &&& high.raw >= open.raw
    &&& high.raw >= low.raw
    &&& high.raw >= close.raw
    &&& low.raw <= close.raw
    &&& low.raw <= open.raw
}

impl Bar {
    /// Creates a bar, checking that high and low bound open and close.
    pub fn new_checked(
        bar_type: BarType,
        open: Price,
        high: Price,
        low: Price,
        close: Price,
        volume: Quantity,
        ts_event: UnixNanos,
        ts_init: UnixNanos,
    ) -> (r: Result<Bar, DataError>)
        ensures
            r == (if !bar_valid(open, high, low, close) {
                Err::<Bar, DataError>(DataError::InvalidBar)
            } else {
                Ok(Bar { bar_type, open, high, low, close, volume, ts_event, ts_init })
            }),
    {
        if !(high.raw >= open.raw && high.raw >= low.raw && high.raw >= close.raw && low.raw
            <= close.raw && low.raw <= open.raw) {
            return Err(DataError::InvalidBar);
        }
        Ok(Bar { bar_type, open, high, low, close, volume, ts_event, ts_init })
    }
}

/// A spot currency pair.
#[derive(Debug, PartialEq, Eq)]
pub struct CurrencyPair {
    pub id: InstrumentId,
    pub raw_symbol: String,
    pub base_currency: String,
    pub quote_currency: String,
    pub price_precision: u8,
    pub size_precision: u8,
    pub price_increment: Price,
    pub size_increment: Quantity,
    pub max_quantity: Option<Quantity>,
    pub min_quantity: Option<Quantity>,
    pub ts_event: UnixNanos,
    pub ts_init: UnixNanos,
}

/// A perpetual futures contract.
#[derive(Debug, PartialEq, Eq)]
pub struct CryptoPerpetual {
    pub id: InstrumentId,
    pub raw_symbol: String,
    pub base_currency: String,
    pub quote_currency: String,
    pub settlement_currency: String,
    pub is_inverse: bool,
    pub price_precision: u8,
    pub size_precision: u8,
    pub price_increment: Price,
    pub size_increment: Quantity,
    pub multiplier: Option<Quantity>,
    pub max_quantity: Option<Quantity>,
    pub min_quantity: Option<Quantity>,
    pub ts_event: UnixNanos,
    pub ts_init: UnixNanos,
}

/// A dated futures contract.
#[derive(Debug, PartialEq, Eq)]
pub struct CryptoFuture {
    pub id: InstrumentId,
    pub raw_symbol: String,
    pub underlying: String,
    pub quote_currency: String,
    pub settlement_currency: String,
    pub is_inverse: bool,
    pub activation_ns: UnixNanos,
    pub expiration_ns: UnixNanos,
    pub price_precision: u8,
    pub size_precision: u8,
    pub price_increment: Price,
    pub size_increment: Quantity,
    pub multiplier: Option<Quantity>,
    pub max_quantity: Option<Quantity>,
    pub min_quantity: Option<Quantity>,
    pub ts_event: UnixNanos,
    pub ts_init: UnixNanos,
}

/// Any instrument.
#[derive(Debug, PartialEq, Eq)]
pub enum InstrumentAny {
    CurrencyPair(CurrencyPair),
    CryptoPerpetual(CryptoPerpetual),
    CryptoFuture(CryptoFuture),
}

/// The identifier of an instrument.
pub open spec fn instrument_id_of(i: InstrumentAny) -> InstrumentId {
    match i {
        InstrumentAny::CurrencyPair(p) => p.id,
        InstrumentAny::CryptoPerpetual(p) => p.id,
        InstrumentAny::CryptoFuture(f) => f.id,
    }
}

/// The price precision of an instrument.
pub open spec fn price_precision_of(i: InstrumentAny) -> u8 {
    match i {
        InstrumentAny::CurrencyPair(p) => p.price_precision,
        InstrumentAny::CryptoPerpetual(p) => p.price_precision,
        InstrumentAny::CryptoFuture(f) => f.price_precision,
    }
}

/// The size precision of an instrument.
pub open spec fn size_precision_of(i: InstrumentAny) -> u8 {
    match i {
        InstrumentAny::CurrencyPair(p) => p.size_precision,
        InstrumentAny::CryptoPerpetual(p) => p.size_precision,
        InstrumentAny::CryptoFuture(f) => f.size_precision,
    }
}

impl InstrumentAny {
    /// The instrument's identifier.
    pub fn id(&self) -> (id: InstrumentId)
        ensures
            id == instrument_id_of(*self),
    {
        match self {
            InstrumentAny::CurrencyPair(p) => p.id.clone(),
            InstrumentAny::CryptoPerpetual(p) => p.id.clone(),
            InstrumentAny::CryptoFuture(f) => f.id.clone(),
        }
    }

    /// The instrument's price precision.
    pub fn price_precision(&self) -> (p: u8)
        ensures
            p == price_precision_of(*self),
    {
        match self {
            InstrumentAny::CurrencyPair(p) => p.price_precision,
            InstrumentAny::CryptoPerpetual(p) => p.price_precision,
            InstrumentAny::CryptoFuture(f) => f.price_precision,
        }
    }

    /// The instrument's size precision.
    pub fn size_precision(&self) -> (p: u8)
        ensures
            p == size_precision_of(*self),
    {
        match self {
            InstrumentAny::CurrencyPair(p) => p.size_precision,
            InstrumentAny::CryptoPerpetual(p) => p.size_precision,
            InstrumentAny::CryptoFuture(f) => f.size_precision,
        }
    }
}

} // verus!
