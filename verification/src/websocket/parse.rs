//! Parsing functions for converting Coinbase WebSocket messages to domain types.

use crate::http::parse::{
    coinbase_side_to_aggressor, epoch_secs_fit, is_batch_of, level_flags, parse_epoch_secs_timestamp,
    parse_price, parse_quantity, parse_rfc3339_timestamp, snapshot_clear, spec_bar_from_parts,
    spec_candle_parts, spec_level_delta, spec_parse_rfc3339, spec_side_to_aggressor,
    spec_trade_parts,
};
use crate::model::{
    instrument_id_of, price_precision_of, size_precision_of, spec_parse_price,
    spec_parse_quantity, Bar, BarType, BookAction, BookOrder, DataError, InstrumentAny,
    InstrumentId, OrderBookDelta, OrderBookDeltas, OrderSide, Price, Quantity, QuoteTick,
    TradeTick, UnixNanos, F_LAST, F_MBP,
};
use crate::websocket::messages::{WsBookSide, WsCandle, WsL2DataEvent, WsL2Update, WsTicker, WsTrade};
use vstd::prelude::*;

verus! {

/// Parses a WebSocket trade into a trade tick.
pub fn parse_ws_trade(trade: &WsTrade, instrument: &InstrumentAny, ts_init: UnixNanos) -> (r: Result<
    TradeTick,
    DataError,
>)
    ensures
        ({
            let parts = spec_trade_parts(
                trade.price@,
                trade.size@,
                trade.time@,
                price_precision_of(*instrument),
                size_precision_of(*instrument),
            );
            &&& parts matches Err(e) ==> r == Err::<TradeTick, DataError>(e)
            &&& parts matches Ok((p, q, ts)) ==> r == (if q.raw == 0 {
                Err::<TradeTick, DataError>(DataError::NonPositiveSize)
            } else {
                Ok(
                    TradeTick {
                        instrument_id: instrument_id_of(*instrument),
                        price: p,
                        size: q,
                        aggressor_side: spec_side_to_aggressor(trade.side),
                        trade_id: trade.trade_id,
                        ts_event: ts,
                        ts_init,
                    },
                )
            })
        }),
{
    let price = parse_price(trade.price.as_str(), instrument.price_precision())?;
    let size = parse_quantity(trade.size.as_str(), instrument.size_precision())?;
    let aggressor_side = coinbase_side_to_aggressor(&trade.side);
    let trade_id = trade.trade_id.clone();
    let ts_event = parse_rfc3339_timestamp(trade.time.as_str())?;
    TradeTick::new_checked(
        instrument.id(),
        price,
        size,
        aggressor_side,
        trade_id,
        ts_event,
        ts_init,
    )
}

/// Best bid and ask prices and sizes of a ticker, or the first error among them.
pub open spec fn spec_ticker_parts(ticker: WsTicker, price_precision: u8, size_precision: u8) -> Result<
    (Price, Price, Quantity, Quantity),
    DataError,
> {
    match spec_parse_price(ticker.best_bid@, price_precision as nat) {
        Err(e) => Err(e),
        Ok(bp) => match spec_parse_price(ticker.best_ask@, price_precision as nat) {
            Err(e) => Err(e),
            Ok(ap) => match spec_parse_quantity(ticker.best_bid_quantity@, size_precision as nat) {
                Err(e) => Err(e),
                Ok(bs) => match spec_parse_quantity(ticker.best_ask_quantity@, size_precision as nat) {
                    Err(e) => Err(e),
                    Ok(asz) => Ok((bp, ap, bs, asz)),
                },
            },
        },
    }
}

/// Parses a WebSocket ticker into a quote tick.
pub fn parse_ws_ticker(
    ticker: &WsTicker,
    instrument: &InstrumentAny,
    ts_event: UnixNanos,
    ts_init: UnixNanos,
) -> (r: Result<QuoteTick, DataError>)
    ensures
        ({
            let parts = spec_ticker_parts(
                *ticker,
                price_precision_of(*instrument),
                size_precision_of(*instrument),
            );
            &&& parts matches Err(e) ==> r == Err::<QuoteTick, DataError>(e)
            &&& parts matches Ok((bp, ap, bs, asz)) ==> r == Ok::<QuoteTick, DataError>(
                QuoteTick {
                    instrument_id: instrument_id_of(*instrument),
                    bid_price: bp,
                    ask_price: ap,
                    bid_size: bs,
                    ask_size: asz,
                    ts_event,
                    ts_init,
                },
            )
        }),
{
    let bid_price = parse_price(ticker.best_bid.as_str(), instrument.price_precision())?;
    let ask_price = parse_price(ticker.best_ask.as_str(), instrument.price_precision())?;
    let bid_size = parse_quantity(ticker.best_bid_quantity.as_str(), instrument.size_precision())?;
    let ask_size = parse_quantity(ticker.best_ask_quantity.as_str(), instrument.size_precision())?;
    QuoteTick::new_checked(
        instrument.id(),
        bid_price,
        ask_price,
        bid_size,
        ask_size,
        ts_event,
        ts_init,
    )
}

/// Parses a WebSocket candle into a bar.
pub fn parse_ws_candle(
    candle: &WsCandle,
    bar_type: BarType,
    instrument: &InstrumentAny,
    ts_init: UnixNanos,
) -> (r: Result<Bar, DataError>)
    requires
        epoch_secs_fit(candle.start@),
    ensures
        r == spec_bar_from_parts(
            spec_candle_parts(
                candle.open@,
                candle.high@,
                candle.low@,
                candle.close@,
                candle.volume@,
                candle.start@,
                price_precision_of(*instrument),
                size_precision_of(*instrument),
            ),
            bar_type,
            ts_init,
        ),
{
    let open = parse_price(candle.open.as_str(), instrument.price_precision())?;
    let high = parse_price(candle.high.as_str(), instrument.price_precision())?;
    let low = parse_price(candle.low.as_str(), instrument.price_precision())?;
    let close = parse_price(candle.close.as_str(), instrument.price_precision())?;
    let volume = parse_quantity(candle.volume.as_str(), instrument.size_precision())?;
    let ts_event = parse_epoch_secs_timestamp(candle.start.as_str())?;
    Bar::new_checked(bar_type, open, high, low, close, volume, ts_event, ts_init)
}

/// The order side of a book side.
pub open spec fn spec_ws_side(side: WsBookSide) -> OrderSide {
    match side {
        WsBookSide::Bid => OrderSide::Buy,
        WsBookSide::Offer => OrderSide::Sell,
    }
}

/// Converts a Coinbase WebSocket book side to an order side.
pub fn ws_book_side_to_order_side(side: WsBookSide) -> (s: OrderSide)
    ensures
        s == spec_ws_side(side),
{
    match side {
        WsBookSide::Bid => OrderSide::Buy,
        WsBookSide::Offer => OrderSide::Sell,
    }
}

/// Parses a single L2 snapshot level into an `Add` delta.
fn parse_l2_delta(
    update: &WsL2Update,
    instrument_id: InstrumentId,
    price_precision: u8,
    size_precision: u8,
    is_last: bool,
    ts_event: UnixNanos,
    ts_init: UnixNanos,
) -> (r: Result<OrderBookDelta, DataError>)
    ensures
        r == spec_level_delta(
            update.price_level@,
            update.new_quantity@,
            spec_ws_side(update.side),
            instrument_id,
            price_precision,
            size_precision,
            is_last,
            ts_event,
            ts_init,
        ),
{
    let price = parse_price(update.price_level.as_str(), price_precision)?;
    let size = parse_quantity(update.new_quantity.as_str(), size_precision)?;
    let side = ws_book_side_to_order_side(update.side);
    let flags: u8 = if is_last {
        F_MBP | F_LAST
    } else {
        F_MBP
    };
    let order = BookOrder::new(side, price, size, 0);
    OrderBookDelta::new_checked(instrument_id, BookAction::Add, order, flags, 0, ts_event, ts_init)
}

/// The `Add` deltas of the first `n` updates of a snapshot, or the first error.
pub open spec fn spec_snapshot_updates(
    updates: Seq<WsL2Update>,
    instrument_id: InstrumentId,
    price_precision: u8,
    size_precision: u8,
    ts_event: UnixNanos,
    ts_init: UnixNanos,
    n: int,
) -> Result<Seq<OrderBookDelta>, DataError>
    decreases n,
{
    if n <= 0 {
        Ok(Seq::empty())
    } else {
        match spec_snapshot_updates(
            updates,
            instrument_id,
            price_precision,
            size_precision,
            ts_event,
            ts_init,
            n - 1,
        ) {
            Err(e) => Err(e),
            Ok(prev) => match spec_level_delta(
                updates[n - 1].price_level@,
                updates[n - 1].new_quantity@,
                spec_ws_side(updates[n - 1].side),
                instrument_id,
                price_precision,
                size_precision,
                n == updates.len(),
                ts_event,
                ts_init,
            ) {
                Err(e) => Err(e),
                Ok(d) => Ok(prev.push(d)),
            },
        }
    }
}

/// The event time of a snapshot: that of its first update, or `ts_init` without updates.
pub open spec fn spec_snapshot_time(updates: Seq<WsL2Update>, ts_init: UnixNanos) -> Result<
    UnixNanos,
    DataError,
> {
    if updates.len() == 0 {
        Ok(ts_init)
    } else {
        spec_parse_rfc3339(updates[0].event_time@)
    }
}

/// What parsing an L2 snapshot event gives: a clear and an `Add` per update.
pub open spec fn spec_ws_snapshot(
    updates: Seq<WsL2Update>,
    instrument_id: InstrumentId,
    price_precision: u8,
    size_precision: u8,
    ts_init: UnixNanos,
) -> Result<Seq<OrderBookDelta>, DataError> {
    match spec_snapshot_time(updates, ts_init) {
        Err(e) => Err(e),
        Ok(ts_event) => match spec_snapshot_updates(
            updates,
            instrument_id,
            price_precision,
            size_precision,
            ts_event,
            ts_init,
            updates.len() as int,
        ) {
            Err(e) => Err(e),
            Ok(ds) => Ok(
                seq![snapshot_clear(instrument_id, updates.len() as int, ts_event, ts_init)] + ds,
            ),
        },
    }
}

proof fn lemma_snapshot_updates_err(
    updates: Seq<WsL2Update>,
    instrument_id: InstrumentId,
    price_precision: u8,
    size_precision: u8,
    ts_event: UnixNanos,
    ts_init: UnixNanos,
    n: int,
    m: int,
)
    requires
        1 <= n <= m,
        spec_snapshot_updates(
            updates,
            instrument_id,
            price_precision,
            size_precision,
            ts_event,
            ts_init,
            n,
        ) is Err,
    ensures
        spec_snapshot_updates(
            updates,
            instrument_id,
            price_precision,
            size_precision,
            ts_event,
            ts_init,
            m,
        ) == spec_snapshot_updates(
            updates,
            instrument_id,
            price_precision,
            size_precision,
            ts_event,
            ts_init,
            n,
        ),
    decreases m - n,
{
    if m > n {
        lemma_snapshot_updates_err(
            updates,
            instrument_id,
            price_precision,
            size_precision,
            ts_event,
            ts_init,
            n,
            m - 1,
        );
    }
}

/// Parses a WebSocket L2 snapshot event into order book deltas.
pub fn parse_ws_l2_snapshot(event: &WsL2DataEvent, instrument: &InstrumentAny, ts_init: UnixNanos) -> (r:
    Result<OrderBookDeltas, DataError>)
    requires
        event.updates.len() < usize::MAX,
    ensures
        ({
            let spec = spec_ws_snapshot(
                event.updates@,
                instrument_id_of(*instrument),
                price_precision_of(*instrument),
                size_precision_of(*instrument),
                ts_init,
            );
            &&& spec matches Err(e) ==> r == Err::<OrderBookDeltas, DataError>(e)
            &&& spec matches Ok(ds) ==> (r matches Ok(b) && is_batch_of(
                b,
                instrument_id_of(*instrument),
                ds,
            ))
        }),
{
    let instrument_id = instrument.id();
    let ts_event = if event.updates.len() > 0 {
        parse_rfc3339_timestamp(event.updates[0].event_time.as_str())?
    } else {
        ts_init
    };
    let total = event.updates.len();
    let mut deltas: Vec<OrderBookDelta> = Vec::new();
    let mut clear = OrderBookDelta::clear(instrument_id.clone(), 0, ts_event, ts_init);
    if total == 0 {
        clear.flags = clear.flags | F_LAST;
    }
    deltas.push(clear);
    let ghost first = deltas@;
    let price_precision = instrument.price_precision();
    let size_precision = instrument.size_precision();
    let mut i: usize = 0;
    while i < total
        invariant
            total == event.updates.len(),
            i <= total,
            instrument_id == instrument_id_of(*instrument),
            price_precision == price_precision_of(*instrument),
            size_precision == size_precision_of(*instrument),
            spec_snapshot_time(event.updates@, ts_init) == Ok::<UnixNanos, DataError>(ts_event),
            spec_snapshot_updates(
                event.updates@,
                instrument_id,
                price_precision,
                size_precision,
                ts_event,
                ts_init,
                i as int,
            ) matches Ok(ds) && deltas@ == first + ds,
        decreases total - i,
    {
        let is_last = i + 1 == total;
        let delta = parse_l2_delta(
            &event.updates[i],
            instrument_id.clone(),
            price_precision,
            size_precision,
            is_last,
            ts_event,
            ts_init,
        );
        match delta {
            Err(e) => {
                proof {
                    assert(spec_snapshot_updates(
                        event.updates@,
                        instrument_id,
                        price_precision,
                        size_precision,
                        ts_event,
                        ts_init,
                        i + 1,
                    ) == Err::<Seq<OrderBookDelta>, DataError>(e));
                    lemma_snapshot_updates_err(
                        event.updates@,
                        instrument_id,
                        price_precision,
                        size_precision,
                        ts_event,
                        ts_init,
                        i + 1,
                        total as int,
                    );
                }
                return Err(e);
            },
            Ok(d) => {
                let ghost prev = deltas@;
                deltas.push(d);
                proof {
                    let ds = spec_snapshot_updates(
                        event.updates@,
                        instrument_id,
                        price_precision,
                        size_precision,
                        ts_event,
                        ts_init,
                        i as int,
                    )->Ok_0;
                    assert(deltas@ =~= first + ds.push(d));
                }
            },
        }
        i += 1;
    }
    proof {
        let ds = spec_ws_snapshot(
            event.updates@,
            instrument_id,
            price_precision,
            size_precision,
            ts_init,
        )->Ok_0;
        assert(deltas@ =~= ds);
    }
    OrderBookDeltas::new_checked(instrument_id, deltas)
}

/// The delta for one update of an L2 update event: a delete for a zero quantity, else an
/// update; or the first error from parsing the update.
pub open spec fn spec_update_delta(
    update: WsL2Update,
    instrument_id: InstrumentId,
    price_precision: u8,
    size_precision: u8,
    is_last: bool,
    ts_init: UnixNanos,
) -> Result<OrderBookDelta, DataError> {
    match spec_parse_rfc3339(update.event_time@) {
        Err(e) => Err(e),
        Ok(ts_event) => match spec_parse_price(update.price_level@, price_precision as nat) {
            Err(e) => Err(e),
            Ok(p) => match spec_parse_quantity(update.new_quantity@, size_precision as nat) {
                Err(e) => Err(e),
                Ok(q) => Ok(
                    OrderBookDelta {
                        instrument_id,
                        action: if q.raw == 0 {
                            BookAction::Delete
                        } else {
                            BookAction::Update
                        },
                        order: BookOrder { side: spec_ws_side(update.side), price: p, size: q, order_id: 0 },
                        flags: level_flags(is_last),
                        sequence: 0,
                        ts_event,
                        ts_init,
                    },
                ),
            },
        },
    }
}

/// The deltas of the first `n` updates of an update event, or the first error.
pub open spec fn spec_update_deltas(
    updates: Seq<WsL2Update>,
    instrument_id: InstrumentId,
    price_precision: u8,
    size_precision: u8,
    ts_init: UnixNanos,
    n: int,
) -> Result<Seq<OrderBookDelta>, DataError>
    decreases n,
{
    if n <= 0 {
        Ok(Seq::empty())
    } else {
        match spec_update_deltas(updates, instrument_id, price_precision, size_precision, ts_init, n - 1) {
            Err(e) => Err(e),
            Ok(prev) => match spec_update_delta(
                updates[n - 1],
                instrument_id,
                price_precision,
                size_precision,
                n == updates.len(),
                ts_init,
            ) {
                Err(e) => Err(e),
                Ok(d) => Ok(prev.push(d)),
            },
        }
    }
}

proof fn lemma_update_deltas_err(
    updates: Seq<WsL2Update>,
    instrument_id: InstrumentId,
    price_precision: u8,
    size_precision: u8,
    ts_init: UnixNanos,
    n: int,
    m: int,
)
    requires
        1 <= n <= m,
        spec_update_deltas(updates, instrument_id, price_precision, size_precision, ts_init, n) is Err,
    ensures
        spec_update_deltas(updates, instrument_id, price_precision, size_precision, ts_init, m)
            == spec_update_deltas(updates, instrument_id, price_precision, size_precision, ts_init, n),
    decreases m - n,
{
    if m > n {
        lemma_update_deltas_err(updates, instrument_id, price_precision, size_precision, ts_init, n, m - 1);
    }
}

/// Parses a WebSocket L2 update event into order book deltas: zero quantities delete a
/// level, others update it.
pub fn parse_ws_l2_update(event: &WsL2DataEvent, instrument: &InstrumentAny, ts_init: UnixNanos) -> (r:
    Result<OrderBookDeltas, DataError>)
    ensures
        ({
            let spec = spec_update_deltas(
                event.updates@,
                instrument_id_of(*instrument),
                price_precision_of(*instrument),
                size_precision_of(*instrument),
                ts_init,
                event.updates.len() as int,
            );
            &&& spec matches Err(e) ==> r == Err::<OrderBookDeltas, DataError>(e)
            &&& spec matches Ok(ds) ==> (if ds.len() == 0 {
                r == Err::<OrderBookDeltas, DataError>(DataError::EmptyDeltas)
            } else {
                r matches Ok(b) && is_batch_of(b, instrument_id_of(*instrument), ds)
            })
        }),
{
    let instrument_id = instrument.id();
    let total = event.updates.len();
    let price_precision = instrument.price_precision();
    let size_precision = instrument.size_precision();
    let mut deltas: Vec<OrderBookDelta> = Vec::new();
    let mut i: usize = 0;
    while i < total
        invariant
            total == event.updates.len(),
            i <= total,
            instrument_id == instrument_id_of(*instrument),
            price_precision == price_precision_of(*instrument),
            size_precision == size_precision_of(*instrument),
            spec_update_deltas(
                event.updates@,
                instrument_id,
                price_precision,
                size_precision,
                ts_init,
                i as int,
            ) matches Ok(ds) && deltas@ == ds,
        decreases total - i,
    {
        let update = &event.updates[i];
        let is_last = i + 1 == total;
        let ts_event = match parse_rfc3339_timestamp(update.event_time.as_str()) {
            Ok(t) => t,
            Err(e) => {
                proof {
                    lemma_update_deltas_err(event.updates@, instrument_id, price_precision, size_precision, ts_init, i + 1, total as int);
                }
                return Err(e);
            },
        };
        let price = match parse_price(update.price_level.as_str(), price_precision) {
            Ok(p) => p,
            Err(e) => {
                proof {
                    lemma_update_deltas_err(event.updates@, instrument_id, price_precision, size_precision, ts_init, i + 1, total as int);
                }
                return Err(e);
            },
        };
        let size = match parse_quantity(update.new_quantity.as_str(), size_precision) {
            Ok(q) => q,
            Err(e) => {
                proof {
                    lemma_update_deltas_err(event.updates@, instrument_id, price_precision, size_precision, ts_init, i + 1, total as int);
                }
                return Err(e);
            },
        };
        let side = ws_book_side_to_order_side(update.side);
        let action = if size.raw == Quantity::zero(size_precision).raw {
            BookAction::Delete
        } else {
            BookAction::Update
        };
        let flags: u8 = if is_last {
            F_MBP | F_LAST
        } else {
            F_MBP
        };
        let order = BookOrder::new(side, price, size, 0);
        let delta = match OrderBookDelta::new_checked(
            instrument_id.clone(),
            action,
            order,
            flags,
            0,
            ts_event,
            ts_init,
        ) {
            Ok(d) => d,
            Err(e) => {
                return Err(e);
            },
        };
        deltas.push(delta);
        proof {
            let ds = spec_update_deltas(event.updates@, instrument_id, price_precision, size_precision, ts_init, i as int)->Ok_0;
            assert(deltas@ =~= ds.push(delta));
        }
        i += 1;
    }
    OrderBookDeltas::new_checked(instrument_id, deltas)
}

/// `d` is the delta for the L2 update `update` of `instrument_id`, `last` telling whether
/// it is the event's last update: its price and size are the update's, parsed at
/// `price_precision` and `size_precision`; a bid is a buy and an offer a sell; a size of
/// zero deletes the level and any other size updates it; its time is the update's event
/// time; and its flags are `F_MBP`, with `F_LAST` as well exactly when `last`.
pub open spec fn updates_level(
    d: OrderBookDelta,
    update: WsL2Update,
    instrument_id: InstrumentId,
    price_precision: u8,
    size_precision: u8,
    last: bool,
    ts_init: UnixNanos,
) -> bool {
    &&& d.instrument_id == instrument_id
    &&& spec_parse_price(update.price_level@, price_precision as nat) == Ok::<Price, DataError>(
        d.order.price,
    )
    &&& spec_parse_quantity(update.new_quantity@, size_precision as nat) == Ok::<Quantity, DataError>(
        d.order.size,
    )
    &&& (update.side is Bid ==> d.order.side is Buy)
    &&& (update.side is Offer ==> d.order.side is Sell)
    &&& (d.order.size.raw == 0 ==> d.action is Delete)
    &&& (d.order.size.raw != 0 ==> d.action is Update)
    &&& d.order.order_id == 0
    &&& d.sequence == 0
    &&& spec_parse_rfc3339(update.event_time@) == Ok::<UnixNanos, DataError>(d.ts_event)
    &&& d.ts_init == ts_init
    &&& d.flags == (if last {
        F_MBP | F_LAST
    } else {
        F_MBP
    })
}

proof fn lemma_update_deltas_fields(
    updates: Seq<WsL2Update>,
    instrument_id: InstrumentId,
    price_precision: u8,
    size_precision: u8,
    ts_init: UnixNanos,
    n: int,
)
    requires
        0 <= n <= updates.len(),
    ensures
        spec_update_deltas(updates, instrument_id, price_precision, size_precision, ts_init, n)
            matches Ok(ds) ==> ds.len() == n && forall|j: int|
            0 <= j < n ==> updates_level(
                #[trigger] ds[j],
                updates[j],
                instrument_id,
                price_precision,
                size_precision,
                j + 1 == updates.len(),
                ts_init,
            ),
    decreases n,
{
    if n > 0 {
        lemma_update_deltas_fields(updates, instrument_id, price_precision, size_precision, ts_init, n - 1);
    }
}

/// The deltas of an L2 update event are one per update, in order, each as `updates_level`
/// says: in particular only the last of them carries `F_LAST`, every earlier one has it
/// clear, and sizes are parsed at `size_precision`.
pub proof fn lemma_l2_update_deltas(
    updates: Seq<WsL2Update>,
    instrument_id: InstrumentId,
    price_precision: u8,
    size_precision: u8,
    ts_init: UnixNanos,
)
    ensures
        spec_update_deltas(
            updates,
            instrument_id,
            price_precision,
            size_precision,
            ts_init,
            updates.len() as int,
        ) matches Ok(ds) ==> ds.len() == updates.len() && (forall|j: int|
            0 <= j < ds.len() ==> updates_level(
                #[trigger] ds[j],
                updates[j],
                instrument_id,
                price_precision,
                size_precision,
                j + 1 == ds.len(),
                ts_init,
            )) && (forall|j: int| 0 <= j < ds.len() - 1 ==> (#[trigger] ds[j]).flags & F_LAST == 0)
            && (ds.len() > 0 ==> ds[ds.len() - 1].flags & F_LAST == F_LAST),
{
    lemma_update_deltas_fields(
        updates,
        instrument_id,
        price_precision,
        size_precision,
        ts_init,
        updates.len() as int,
    );
    assert((F_MBP & F_LAST) == 0u8) by (bit_vector);
    assert(((F_MBP | F_LAST) & F_LAST) == F_LAST) by (bit_vector);
}

/// `d` adds the snapshot level `update` of `instrument_id`: its price and size are the
/// update's, parsed at `price_precision` and `size_precision`, the size positive; a bid is
/// a buy and an offer a sell; its times are `ts_event` and `ts_init`; and its flags are
/// `F_MBP`, with `F_LAST` as well exactly when `last`.
pub open spec fn adds_snapshot_level(
    d: OrderBookDelta,
    update: WsL2Update,
    instrument_id: InstrumentId,
    price_precision: u8,
    size_precision: u8,
    last: bool,
    ts_event: UnixNanos,
    ts_init: UnixNanos,
) -> bool {
    &&& d.instrument_id == instrument_id
    &&& d.action is Add
    &&& spec_parse_price(update.price_level@, price_precision as nat) == Ok::<Price, DataError>(
        d.order.price,
    )
    &&& spec_parse_quantity(update.new_quantity@, size_precision as nat) == Ok::<Quantity, DataError>(
        d.order.size,
    )
    &&& d.order.size.raw > 0
    &&& (update.side is Bid ==> d.order.side is Buy)
    &&& (update.side is Offer ==> d.order.side is Sell)
    &&& d.order.order_id == 0
    &&& d.sequence == 0
    &&& d.ts_event == ts_event
    &&& d.ts_init == ts_init
    &&& d.flags == (if last {
        F_MBP | F_LAST
    } else {
        F_MBP
    })
}

proof fn lemma_snapshot_updates_fields(
    updates: Seq<WsL2Update>,
    instrument_id: InstrumentId,
    price_precision: u8,
    size_precision: u8,
    ts_event: UnixNanos,
    ts_init: UnixNanos,
    n: int,
)
    requires
        0 <= n <= updates.len(),
    ensures
        spec_snapshot_updates(updates, instrument_id, price_precision, size_precision, ts_event, ts_init, n)
            matches Ok(ds) ==> ds.len() == n && forall|j: int|
            0 <= j < n ==> adds_snapshot_level(
                #[trigger] ds[j],
                updates[j],
                instrument_id,
                price_precision,
                size_precision,
                j + 1 == updates.len(),
                ts_event,
                ts_init,
            ),
    decreases n,
{
    if n > 0 {
        lemma_snapshot_updates_fields(
            updates,
            instrument_id,
            price_precision,
            size_precision,
            ts_event,
            ts_init,
            n - 1,
        );
    }
}

/// A parsed L2 snapshot event is a clear, then one `Add` per update in order, as
/// `adds_snapshot_level` says, all at the first update's event time (`ts_init` without
/// updates): only the last delta carries `F_LAST`, and sizes are parsed at
/// `size_precision`.
pub proof fn lemma_ws_snapshot_deltas(
    updates: Seq<WsL2Update>,
    instrument_id: InstrumentId,
    price_precision: u8,
    size_precision: u8,
    ts_init: UnixNanos,
)
    ensures
        spec_ws_snapshot(updates, instrument_id, price_precision, size_precision, ts_init) matches Ok(
            ds,
        ) ==> ({
            let ts_event = if updates.len() == 0 {
                ts_init
            } else {
                spec_parse_rfc3339(updates[0].event_time@)->Ok_0
            };
            &&& updates.len() > 0 ==> spec_parse_rfc3339(updates[0].event_time@) is Ok
            &&& ds.len() == 1 + updates.len()
            &&& ds[0].action is Clear
            &&& ds[0].instrument_id == instrument_id
            &&& forall|j: int|
                0 <= j < updates.len() ==> adds_snapshot_level(
                    #[trigger] ds[1 + j],
                    updates[j],
                    instrument_id,
                    price_precision,
                    size_precision,
                    j + 1 == updates.len(),
                    ts_event,
                    ts_init,
                )
        }),
{
    if spec_snapshot_time(updates, ts_init) is Ok {
        let ts_event = spec_snapshot_time(updates, ts_init)->Ok_0;
        lemma_snapshot_updates_fields(
            updates,
            instrument_id,
            price_precision,
            size_precision,
            ts_event,
            ts_init,
            updates.len() as int,
        );
        if spec_ws_snapshot(updates, instrument_id, price_precision, size_precision, ts_init) is Ok {
            let ds = spec_ws_snapshot(updates, instrument_id, price_precision, size_precision, ts_init)->Ok_0;
            let us = spec_snapshot_updates(
                updates,
                instrument_id,
                price_precision,
                size_precision,
                ts_event,
                ts_init,
                updates.len() as int,
            )->Ok_0;
            assert(ds == seq![snapshot_clear(instrument_id, updates.len() as int, ts_event, ts_init)] + us);
            assert forall|j: int| 0 <= j < updates.len() implies adds_snapshot_level(
                #[trigger] ds[1 + j],
                updates[j],
                instrument_id,
                price_precision,
                size_precision,
                j + 1 == updates.len(),
                ts_event,
                ts_init,
            ) by {
                assert(ds[1 + j] == us[j]);
            }
        }
    }
}

/// The parts of a ticker are, in order, its best bid price and best ask price parsed at
/// `price_precision`, then its best bid size and best ask size parsed at `size_precision`.
pub proof fn lemma_ticker_parts(ticker: WsTicker, price_precision: u8, size_precision: u8)
    ensures
        spec_ticker_parts(ticker, price_precision, size_precision) matches Ok((bp, ap, bs, asz)) ==> (
        spec_parse_price(ticker.best_bid@, price_precision as nat) == Ok::<Price, DataError>(bp)
            && spec_parse_price(ticker.best_ask@, price_precision as nat) == Ok::<Price, DataError>(ap)
            && spec_parse_quantity(ticker.best_bid_quantity@, size_precision as nat) == Ok::<
            Quantity,
            DataError,
        >(bs) && spec_parse_quantity(ticker.best_ask_quantity@, size_precision as nat) == Ok::<
            Quantity,
            DataError,
        >(asz)),
{
}

} // verus!
