//! Layouts of book orders, book deltas, delta batches and depth snapshots.
//!
//! Prices are an `i64` raw value and a precision byte, quantities a `u64` raw value and a
//! precision byte, enums one byte each, integers little-endian, and an instrument
//! identifier its symbol and venue as string fields. A record's fixed-length block comes
//! first and its instrument identifier last.

use crate::model::{
    id_key, BookAction, BookOrder, DeltaFields, DeltasFields, Depth10Fields, InstrumentId, OrderBookDelta, OrderBookDeltas,
    OrderBookDepth10, OrderSide, Price, Quantity, UnixNanos,
};
use crate::sbe::{
    le_i64_bytes, le_u16_bytes, le_u32_bytes, le_u64_bytes, lemma_read_i64, lemma_read_string,
    lemma_read_u16, lemma_read_u32, lemma_read_u64, lemma_read_u8, lemma_split, bytes_at, push_i64_le,
    push_u16_le, push_u32_le, push_u64_le, push_u8, read_as, spec_read_i64, spec_read_string,
    spec_read_u16, spec_read_u32, spec_read_u64, spec_read_u8, string_bytes, SbeCursor,
    SbeDecodeError, SbeEncodeError,
};
use vstd::prelude::*;
use vstd::utf8::encode_utf8;

verus! {

/// Length of an encoded book order.
pub const BOOK_ORDER_BLOCK_LENGTH: u16 = 27;

/// Length of the fixed part of an encoded book delta.
pub const ORDER_BOOK_DELTA_GROUP_BLOCK_LENGTH: u16 = 53;

/// Length of the fixed part of an encoded delta batch, before its instrument and deltas.
pub const ORDER_BOOK_DELTAS_BLOCK_LENGTH: u16 = 25;

/// Length of an encoded depth level: a price and a quantity.
pub const DEPTH10_LEVEL_BLOCK_LENGTH: u16 = 18;

/// Length of the ten encoded order counts of one side.
pub const DEPTH10_COUNTS_BLOCK_LENGTH: u16 = 40;

/// Length of the fixed part of an encoded depth snapshot.
pub const ORDER_BOOK_DEPTH10_BLOCK_LENGTH: u16 = 465;

/// Number of levels on each side of a depth snapshot.
pub const DEPTH10_LEVEL_COUNT: usize = 10;

/// Length of a group header: the entry length and the entry count, two bytes each.
pub const GROUP_HEADER_16_LENGTH: usize = 4;

/// The byte of an order side.
pub open spec fn side_code(side: OrderSide) -> u8 {
    match side {
        OrderSide::NoOrderSide => 0,
        OrderSide::Buy => 1,
        OrderSide::Sell => 2,
    }
}

/// The order side of a byte.
pub open spec fn spec_side_of(b: u8) -> Result<OrderSide, SbeDecodeError> {
    if b == 0 {
        Ok(OrderSide::NoOrderSide)
    } else if b == 1 {
        Ok(OrderSide::Buy)
    } else if b == 2 {
        Ok(OrderSide::Sell)
    } else {
        Err(SbeDecodeError::InvalidEnumValue { value: b })
    }
}

/// The byte of a book action.
pub open spec fn action_code(action: BookAction) -> u8 {
    match action {
        BookAction::Add => 1,
        BookAction::Update => 2,
        BookAction::Delete => 3,
        BookAction::Clear => 4,
    }
}

/// The book action of a byte.
pub open spec fn spec_action_of(b: u8) -> Result<BookAction, SbeDecodeError> {
    if b == 1 {
        Ok(BookAction::Add)
    } else if b == 2 {
        Ok(BookAction::Update)
    } else if b == 3 {
        Ok(BookAction::Delete)
    } else if b == 4 {
        Ok(BookAction::Clear)
    } else {
        Err(SbeDecodeError::InvalidEnumValue { value: b })
    }
}

/// An encoded price.
pub open spec fn price_bytes(p: Price) -> Seq<u8> {
    le_i64_bytes(p.raw) + seq![p.precision]
}

/// An encoded quantity.
pub open spec fn quantity_bytes(q: Quantity) -> Seq<u8> {
    le_u64_bytes(q.raw) + seq![q.precision]
}

/// An encoded book order: price, size, side, order identifier.
pub open spec fn book_order_bytes(o: BookOrder) -> Seq<u8> {
    price_bytes(o.price) + (quantity_bytes(o.size) + (seq![side_code(o.side)] + le_u64_bytes(
        o.order_id,
    )))
}

/// An encoded instrument identifier, given by symbol and venue: symbol, then venue.
pub open spec fn instrument_id_bytes(id: (Seq<char>, Seq<char>)) -> Seq<u8> {
    string_bytes(id.0) + string_bytes(id.1)
}

/// Both strings of the identifier fit their one-byte length prefixes.
pub open spec fn id_encodable(id: (Seq<char>, Seq<char>)) -> bool {
    encode_utf8(id.0).len() <= 255 && encode_utf8(id.1).len() <= 255
}

/// Why an identifier that cannot be encoded cannot: the symbol is checked first.
pub open spec fn id_encode_error(id: (Seq<char>, Seq<char>)) -> SbeEncodeError {
    if encode_utf8(id.0).len() > 255 {
        SbeEncodeError::StringTooLong { len: encode_utf8(id.0).len() as usize }
    } else {
        SbeEncodeError::StringTooLong { len: encode_utf8(id.1).len() as usize }
    }
}

/// Decoding a price at `pos`.
pub open spec fn spec_decode_price(bytes: Seq<u8>, pos: int) -> Result<(Price, int), SbeDecodeError> {
    match spec_read_i64(bytes, pos) {
        Err(e) => Err(e),
        Ok((raw, p1)) => match spec_read_u8(bytes, p1) {
            Err(e) => Err(e),
            Ok((precision, p2)) => Ok((Price { raw, precision }, p2)),
        },
    }
}

/// Decoding a quantity at `pos`.
pub open spec fn spec_decode_quantity(bytes: Seq<u8>, pos: int) -> Result<(Quantity, int), SbeDecodeError> {
    match spec_read_u64(bytes, pos) {
        Err(e) => Err(e),
        Ok((raw, p1)) => match spec_read_u8(bytes, p1) {
            Err(e) => Err(e),
            Ok((precision, p2)) => Ok((Quantity { raw, precision }, p2)),
        },
    }
}

/// Decoding an order side at `pos`.
pub open spec fn spec_decode_side(bytes: Seq<u8>, pos: int) -> Result<(OrderSide, int), SbeDecodeError> {
    match spec_read_u8(bytes, pos) {
        Err(e) => Err(e),
        Ok((b, p1)) => match spec_side_of(b) {
            Err(e) => Err(e),
            Ok(side) => Ok((side, p1)),
        },
    }
}

/// Decoding a book action at `pos`.
pub open spec fn spec_decode_action(bytes: Seq<u8>, pos: int) -> Result<(BookAction, int), SbeDecodeError> {
    match spec_read_u8(bytes, pos) {
        Err(e) => Err(e),
        Ok((b, p1)) => match spec_action_of(b) {
            Err(e) => Err(e),
            Ok(action) => Ok((action, p1)),
        },
    }
}

/// Decoding an instrument identifier at `pos`, as symbol and venue.
pub open spec fn spec_decode_instrument_id(bytes: Seq<u8>, pos: int) -> Result<
    ((Seq<char>, Seq<char>), int),
    SbeDecodeError,
> {
    match spec_read_string(bytes, pos) {
        Err(e) => Err(e),
        Ok((symbol, p1)) => match spec_read_string(bytes, p1) {
            Err(e) => Err(e),
            Ok((venue, p2)) => Ok(((symbol, venue), p2)),
        },
    }
}

/// Decoding a book order at `pos`.
pub open spec fn spec_decode_book_order(bytes: Seq<u8>, pos: int) -> Result<(BookOrder, int), SbeDecodeError> {
    match spec_decode_price(bytes, pos) {
        Err(e) => Err(e),
        Ok((price, p1)) => match spec_decode_quantity(bytes, p1) {
            Err(e) => Err(e),
            Ok((size, p2)) => match spec_decode_side(bytes, p2) {
                Err(e) => Err(e),
                Ok((side, p3)) => match spec_read_u64(bytes, p3) {
                    Err(e) => Err(e),
                    Ok((order_id, p4)) => Ok((BookOrder { side, price, size, order_id }, p4)),
                },
            },
        },
    }
}

/// A price reads back.
pub proof fn lemma_decode_price(bytes: Seq<u8>, pos: int, x: Price)
    requires
        bytes_at(bytes, pos, price_bytes(x)),
    ensures
        spec_decode_price(bytes, pos) == Ok::<(Price, int), SbeDecodeError>((x, pos + price_bytes(x).len())),
{
    lemma_split(bytes, pos, le_i64_bytes(x.raw), seq![x.precision]);
    lemma_read_i64(bytes, pos, x.raw);
    lemma_read_u8(bytes, pos + 8, x.precision);
}

/// A quantity reads back.
pub proof fn lemma_decode_quantity(bytes: Seq<u8>, pos: int, x: Quantity)
    requires
        bytes_at(bytes, pos, quantity_bytes(x)),
    ensures
        spec_decode_quantity(bytes, pos) == Ok::<(Quantity, int), SbeDecodeError>(
            (x, pos + quantity_bytes(x).len()),
        ),
{
    lemma_split(bytes, pos, le_u64_bytes(x.raw), seq![x.precision]);
    lemma_read_u64(bytes, pos, x.raw);
    lemma_read_u8(bytes, pos + 8, x.precision);
}

/// An encodable instrument identifier reads back.
pub proof fn lemma_decode_instrument_id(bytes: Seq<u8>, pos: int, x: (Seq<char>, Seq<char>))
    requires
        id_encodable(x),
        bytes_at(bytes, pos, instrument_id_bytes(x)),
    ensures
        spec_decode_instrument_id(bytes, pos) == Ok::<((Seq<char>, Seq<char>), int), SbeDecodeError>(
            (x, pos + instrument_id_bytes(x).len()),
        ),
{
    lemma_split(bytes, pos, string_bytes(x.0), string_bytes(x.1));
    lemma_read_string(bytes, pos, x.0);
    lemma_read_string(bytes, pos + string_bytes(x.0).len(), x.1);
}

/// A book order reads back.
pub proof fn lemma_decode_book_order(bytes: Seq<u8>, pos: int, x: BookOrder)
    requires
        bytes_at(bytes, pos, book_order_bytes(x)),
    ensures
        spec_decode_book_order(bytes, pos) == Ok::<(BookOrder, int), SbeDecodeError>(
            (x, pos + book_order_bytes(x).len()),
        ),
{
    let a = price_bytes(x.price);
    let b = quantity_bytes(x.size);
    let c = seq![side_code(x.side)];
    let d = le_u64_bytes(x.order_id);
    lemma_split(bytes, pos, a, b + (c + d));
    lemma_decode_price(bytes, pos, x.price);
    lemma_split(bytes, pos + 9, b, c + d);
    lemma_decode_quantity(bytes, pos + 9, x.size);
    lemma_split(bytes, pos + 18, c, d);
    lemma_read_u8(bytes, pos + 18, side_code(x.side));
    lemma_read_u64(bytes, pos + 19, x.order_id);
}

/// The byte of an order side.
fn side_byte(side: OrderSide) -> (b: u8)
    ensures
        b == side_code(side),
{
    match side {
        OrderSide::NoOrderSide => 0,
        OrderSide::Buy => 1,
        OrderSide::Sell => 2,
    }
}

/// The byte of a book action.
fn action_byte(action: BookAction) -> (b: u8)
    ensures
        b == action_code(action),
{
    match action {
        BookAction::Add => 1,
        BookAction::Update => 2,
        BookAction::Delete => 3,
        BookAction::Clear => 4,
    }
}

/// Appends bytes.
fn push_bytes(buf: &mut Vec<u8>, bytes: &[u8])
    ensures
        final(buf)@ == old(buf)@ + bytes@,
{
    buf.extend_from_slice(bytes);
    proof {
        assert(final(buf)@ =~= old(buf)@ + bytes@);
    }
}

/// Appends a price.
pub fn encode_price(buf: &mut Vec<u8>, price: &Price)
    ensures
        final(buf)@ == old(buf)@ + price_bytes(*price),
{
    push_i64_le(buf, price.raw);
    push_u8(buf, price.precision);
    proof {
        assert(final(buf)@ =~= old(buf)@ + price_bytes(*price));
    }
}

/// Appends a quantity.
pub fn encode_quantity(buf: &mut Vec<u8>, quantity: &Quantity)
    ensures
        final(buf)@ == old(buf)@ + quantity_bytes(*quantity),
{
    push_u64_le(buf, quantity.raw);
    push_u8(buf, quantity.precision);
    proof {
        assert(final(buf)@ =~= old(buf)@ + quantity_bytes(*quantity));
    }
}

/// Appends a timestamp.
pub fn encode_unix_nanos(buf: &mut Vec<u8>, ts: UnixNanos)
    ensures
        final(buf)@ == old(buf)@ + le_u64_bytes(ts),
{
    push_u64_le(buf, ts);
}

/// Appends an instrument identifier, or fails, leaving `buf` as it was, when its symbol or
/// venue is longer than 255 bytes.
pub fn encode_instrument_id(buf: &mut Vec<u8>, id: &InstrumentId) -> (r: Result<(), SbeEncodeError>)
    ensures
        id_encodable(id_key(*id)) ==> r is Ok && final(buf)@ == old(buf)@ + instrument_id_bytes(
            id_key(*id),
        ),
        !id_encodable(id_key(*id)) ==> r == Err::<(), SbeEncodeError>(id_encode_error(id_key(*id)))
            && final(buf)@ == old(buf)@,
{
    let symbol = id.symbol.as_str().as_bytes();
    let venue = id.venue.as_str().as_bytes();
    let symbol_len = symbol.len();
    let venue_len = venue.len();
    if symbol_len > 255 {
        return Err(SbeEncodeError::StringTooLong { len: symbol_len });
    }
    if venue_len > 255 {
        return Err(SbeEncodeError::StringTooLong { len: venue_len });
    }
    push_u8(buf, symbol_len as u8);
    push_bytes(buf, symbol);
    push_u8(buf, venue_len as u8);
    push_bytes(buf, venue);
    proof {
        assert(final(buf)@ =~= old(buf)@ + instrument_id_bytes(id_key(*id)));
    }
    Ok(())
}

/// Length of an encoded instrument identifier.
pub fn encoded_instrument_id_size(id: &InstrumentId) -> (n: usize)
    requires
        instrument_id_bytes(id_key(*id)).len() <= usize::MAX,
    ensures
        n == instrument_id_bytes(id_key(*id)).len(),
{
    2 + id.symbol.as_str().as_bytes().len() + id.venue.as_str().as_bytes().len()
}

/// Appends a book order.
pub fn encode_book_order(buf: &mut Vec<u8>, order: &BookOrder)
    ensures
        final(buf)@ == old(buf)@ + book_order_bytes(*order),
{
    encode_price(buf, &order.price);
    encode_quantity(buf, &order.size);
    push_u8(buf, side_byte(order.side));
    push_u64_le(buf, order.order_id);
    proof {
        assert(final(buf)@ =~= old(buf)@ + book_order_bytes(*order));
    }
}

/// Decodes a price.
pub fn decode_price(cursor: &mut SbeCursor) -> (r: Result<Price, SbeDecodeError>)
    requires
        old(cursor).wf(),
    ensures
        final(cursor).wf(),
        final(cursor).bytes() == old(cursor).bytes(),
        read_as(spec_decode_price(old(cursor).bytes(), old(cursor).position()), r, final(cursor).position()),
{
    let raw = cursor.read_i64_le()?;
    let precision = cursor.read_u8()?;
    Ok(Price { raw, precision })
}

/// Decodes a quantity.
pub fn decode_quantity(cursor: &mut SbeCursor) -> (r: Result<Quantity, SbeDecodeError>)
    requires
        old(cursor).wf(),
    ensures
        final(cursor).wf(),
        final(cursor).bytes() == old(cursor).bytes(),
        read_as(spec_decode_quantity(old(cursor).bytes(), old(cursor).position()), r, final(cursor).position()),
{
    let raw = cursor.read_u64_le()?;
    let precision = cursor.read_u8()?;
    Ok(Quantity { raw, precision })
}

/// Decodes an order side.
pub fn decode_order_side(cursor: &mut SbeCursor) -> (r: Result<OrderSide, SbeDecodeError>)
    requires
        old(cursor).wf(),
    ensures
        final(cursor).wf(),
        final(cursor).bytes() == old(cursor).bytes(),
        read_as(spec_decode_side(old(cursor).bytes(), old(cursor).position()), r, final(cursor).position()),
{
    let b = cursor.read_u8()?;
    match b {
        0 => Ok(OrderSide::NoOrderSide),
        1 => Ok(OrderSide::Buy),
        2 => Ok(OrderSide::Sell),
        _ => Err(SbeDecodeError::InvalidEnumValue { value: b }),
    }
}

/// Decodes a book action.
pub fn decode_book_action(cursor: &mut SbeCursor) -> (r: Result<BookAction, SbeDecodeError>)
    requires
        old(cursor).wf(),
    ensures
        final(cursor).wf(),
        final(cursor).bytes() == old(cursor).bytes(),
        read_as(spec_decode_action(old(cursor).bytes(), old(cursor).position()), r, final(cursor).position()),
{
    let b = cursor.read_u8()?;
    match b {
        1 => Ok(BookAction::Add),
        2 => Ok(BookAction::Update),
        3 => Ok(BookAction::Delete),
        4 => Ok(BookAction::Clear),
        _ => Err(SbeDecodeError::InvalidEnumValue { value: b }),
    }
}

/// Decodes a timestamp.
pub fn decode_unix_nanos(cursor: &mut SbeCursor) -> (r: Result<UnixNanos, SbeDecodeError>)
    requires
        old(cursor).wf(),
    ensures
        final(cursor).wf(),
        final(cursor).bytes() == old(cursor).bytes(),
        read_as(spec_read_u64(old(cursor).bytes(), old(cursor).position()), r, final(cursor).position()),
{
    cursor.read_u64_le()
}

/// Decodes an instrument identifier.
pub fn decode_instrument_id(cursor: &mut SbeCursor) -> (r: Result<InstrumentId, SbeDecodeError>)
    requires
        old(cursor).wf(),
    ensures
        final(cursor).wf(),
        final(cursor).bytes() == old(cursor).bytes(),
        match spec_decode_instrument_id(old(cursor).bytes(), old(cursor).position()) {
            Ok((k, p)) => r matches Ok(id) && id_key(id) == k && final(cursor).position() == p,
            Err(e) => r == Err::<InstrumentId, SbeDecodeError>(e),
        },
{
    let symbol = cursor.read_string()?;
    let venue = cursor.read_string()?;
    Ok(InstrumentId { symbol, venue })
}

/// Decodes a book order.
pub fn decode_book_order(cursor: &mut SbeCursor) -> (r: Result<BookOrder, SbeDecodeError>)
    requires
        old(cursor).wf(),
    ensures
        final(cursor).wf(),
        final(cursor).bytes() == old(cursor).bytes(),
        read_as(spec_decode_book_order(old(cursor).bytes(), old(cursor).position()), r, final(cursor).position()),
{
    let price = decode_price(cursor)?;
    let size = decode_quantity(cursor)?;
    let side = decode_order_side(cursor)?;
    let order_id = cursor.read_u64_le()?;
    Ok(BookOrder { side, price, size, order_id })
}


/// The fixed part of an encoded book delta: action, order, flags, sequence, timestamps.
pub open spec fn delta_fields_bytes(d: DeltaFields) -> Seq<u8> {
    seq![action_code(d.action)] + (book_order_bytes(d.order) + (seq![d.flags] + (le_u64_bytes(
        d.sequence,
    ) + (le_u64_bytes(d.ts_event) + le_u64_bytes(d.ts_init)))))
}

/// An encoded book delta: its fixed part, then its instrument identifier.
pub open spec fn delta_bytes(d: DeltaFields) -> Seq<u8> {
    delta_fields_bytes(d) + instrument_id_bytes(d.instrument)
}

/// The encoded deltas, one after another.
pub open spec fn delta_entries_bytes(ds: Seq<DeltaFields>) -> Seq<u8>
    decreases ds.len(),
{
    if ds.len() == 0 {
        Seq::empty()
    } else {
        delta_entries_bytes(ds.drop_last()) + delta_bytes(ds.last())
    }
}

/// An encoded delta batch: flags, sequence, timestamps, instrument identifier, then the
/// deltas as a group (entry length, entry count, entries).
pub open spec fn deltas_bytes(b: DeltasFields) -> Seq<u8> {
    seq![b.flags] + (le_u64_bytes(b.sequence) + (le_u64_bytes(b.ts_event) + (le_u64_bytes(b.ts_init)
        + (instrument_id_bytes(b.instrument) + (le_u16_bytes(ORDER_BOOK_DELTA_GROUP_BLOCK_LENGTH)
        + (le_u16_bytes(b.deltas.len() as u16) + delta_entries_bytes(b.deltas)))))))
}

/// Why the first of `ds` that cannot be encoded cannot, if one cannot.
pub open spec fn entries_encode_error(ds: Seq<DeltaFields>) -> Option<SbeEncodeError>
    decreases ds.len(),
{
    if ds.len() == 0 {
        None
    } else {
        match entries_encode_error(ds.drop_last()) {
            Some(e) => Some(e),
            None => if id_encodable(ds.last().instrument) {
                None
            } else {
                Some(id_encode_error(ds.last().instrument))
            },
        }
    }
}

/// Why a batch cannot be encoded, if it cannot: its identifier is checked first, then the
/// number of deltas, then the deltas in order.
pub open spec fn deltas_encode_error(b: DeltasFields) -> Option<SbeEncodeError> {
    if !id_encodable(b.instrument) {
        Some(id_encode_error(b.instrument))
    } else if b.deltas.len() > u16::MAX {
        Some(SbeEncodeError::GroupTooLarge { count: b.deltas.len() as usize })
    } else {
        entries_encode_error(b.deltas)
    }
}

/// Decoding a book delta at `pos`.
#[verifier::opaque]
pub open spec fn spec_decode_delta(bytes: Seq<u8>, pos: int) -> Result<(DeltaFields, int), SbeDecodeError> {
    match spec_decode_action(bytes, pos) {
        Err(e) => Err(e),
        Ok((action, p1)) => match spec_decode_book_order(bytes, p1) {
            Err(e) => Err(e),
            Ok((order, p2)) => match spec_read_u8(bytes, p2) {
                Err(e) => Err(e),
                Ok((flags, p3)) => match spec_read_u64(bytes, p3) {
                    Err(e) => Err(e),
                    Ok((sequence, p4)) => match spec_read_u64(bytes, p4) {
                        Err(e) => Err(e),
                        Ok((ts_event, p5)) => match spec_read_u64(bytes, p5) {
                            Err(e) => Err(e),
                            Ok((ts_init, p6)) => match spec_decode_instrument_id(bytes, p6) {
                                Err(e) => Err(e),
                                Ok((instrument, p7)) => Ok(
                                    (
                                        DeltaFields {
                                            instrument,
                                            action,
                                            order,
                                            flags,
                                            sequence,
                                            ts_event,
                                            ts_init,
                                        },
                                        p7,
                                    ),
                                ),
                            },
                        },
                    },
                },
            },
        },
    }
}

/// Decoding `n` book deltas, one after another, at `pos`.
#[verifier::opaque]
pub open spec fn spec_decode_delta_entries(bytes: Seq<u8>, pos: int, n: nat) -> Result<
    (Seq<DeltaFields>, int),
    SbeDecodeError,
>
    decreases n,
{
    if n == 0 {
        Ok((Seq::empty(), pos))
    } else {
        match spec_decode_delta_entries(bytes, pos, (n - 1) as nat) {
            Err(e) => Err(e),
            Ok((ds, p1)) => match spec_decode_delta(bytes, p1) {
                Err(e) => Err(e),
                Ok((d, p2)) => Ok((ds.push(d), p2)),
            },
        }
    }
}

/// Decoding a delta batch at `pos`.
#[verifier::opaque]
pub open spec fn spec_decode_deltas(bytes: Seq<u8>, pos: int) -> Result<(DeltasFields, int), SbeDecodeError> {
    match spec_read_u8(bytes, pos) {
        Err(e) => Err(e),
        Ok((flags, p1)) => match spec_read_u64(bytes, p1) {
            Err(e) => Err(e),
            Ok((sequence, p2)) => match spec_read_u64(bytes, p2) {
                Err(e) => Err(e),
                Ok((ts_event, p3)) => match spec_read_u64(bytes, p3) {
                    Err(e) => Err(e),
                    Ok((ts_init, p4)) => match spec_decode_instrument_id(bytes, p4) {
                        Err(e) => Err(e),
                        Ok((instrument, p5)) => match spec_read_u16(bytes, p5) {
                            Err(e) => Err(e),
                            Ok((block_length, p6)) => match spec_read_u16(bytes, p6) {
                                Err(e) => Err(e),
                                Ok((count, p7)) => if block_length != ORDER_BOOK_DELTA_GROUP_BLOCK_LENGTH {
                                    Err(
                                        SbeDecodeError::InvalidBlockLength {
                                            expected: ORDER_BOOK_DELTA_GROUP_BLOCK_LENGTH,
                                            actual: block_length,
                                        },
                                    )
                                } else {
                                    match spec_decode_delta_entries(bytes, p7, count as nat) {
                                        Err(e) => Err(e),
                                        Ok((deltas, p8)) => Ok(
                                            (
                                                DeltasFields {
                                                    instrument,
                                                    deltas,
                                                    flags,
                                                    sequence,
                                                    ts_event,
                                                    ts_init,
                                                },
                                                p8,
                                            ),
                                        ),
                                    }
                                },
                            },
                        },
                    },
                },
            },
        },
    }
}

/// A book delta with an encodable identifier reads back.
pub proof fn lemma_decode_delta(bytes: Seq<u8>, pos: int, x: DeltaFields)
    requires
        id_encodable(x.instrument),
        bytes_at(bytes, pos, delta_bytes(x)),
    ensures
        spec_decode_delta(bytes, pos) == Ok::<(DeltaFields, int), SbeDecodeError>(
            (x, pos + delta_bytes(x).len()),
        ),
{
    reveal(spec_decode_delta);
    let a = seq![action_code(x.action)];
    let o = book_order_bytes(x.order);
    let f = seq![x.flags];
    let q = le_u64_bytes(x.sequence);
    let e = le_u64_bytes(x.ts_event);
    let t = le_u64_bytes(x.ts_init);
    let id = instrument_id_bytes(x.instrument);
    lemma_split(bytes, pos, delta_fields_bytes(x), id);
    lemma_split(bytes, pos, a, o + (f + (q + (e + t))));
    lemma_read_u8(bytes, pos, action_code(x.action));
    lemma_split(bytes, pos + 1, o, f + (q + (e + t)));
    lemma_decode_book_order(bytes, pos + 1, x.order);
    lemma_split(bytes, pos + 28, f, q + (e + t));
    lemma_read_u8(bytes, pos + 28, x.flags);
    lemma_split(bytes, pos + 29, q, e + t);
    lemma_read_u64(bytes, pos + 29, x.sequence);
    lemma_split(bytes, pos + 37, e, t);
    lemma_read_u64(bytes, pos + 37, x.ts_event);
    lemma_read_u64(bytes, pos + 45, x.ts_init);
    lemma_decode_instrument_id(bytes, pos + 53, x.instrument);
}

/// Whether every delta of `ds` can be encoded.
pub proof fn lemma_entries_encodable(ds: Seq<DeltaFields>)
    ensures
        entries_encode_error(ds) is None <==> forall|i: int|
            0 <= i < ds.len() ==> id_encodable(#[trigger] ds[i].instrument),
    decreases ds.len(),
{
    if ds.len() > 0 {
        lemma_entries_encodable(ds.drop_last());
        if entries_encode_error(ds) is None {
            assert forall|i: int| 0 <= i < ds.len() implies id_encodable(#[trigger] ds[i].instrument) by {
                if i < ds.len() - 1 {
                    assert(ds[i] == ds.drop_last()[i]);
                }
            }
        } else {
            if entries_encode_error(ds.drop_last()) is Some {
                let j = choose|j: int| 0 <= j < ds.drop_last().len() && !id_encodable(
                    #[trigger] ds.drop_last()[j].instrument,
                );
                assert(ds[j] == ds.drop_last()[j]);
            }
        }
    }
}

/// Deltas that can all be encoded read back, one after another.
pub proof fn lemma_decode_delta_entries(bytes: Seq<u8>, pos: int, ds: Seq<DeltaFields>)
    requires
        entries_encode_error(ds) is None,
        bytes_at(bytes, pos, delta_entries_bytes(ds)),
    ensures
        spec_decode_delta_entries(bytes, pos, ds.len()) == Ok::<(Seq<DeltaFields>, int), SbeDecodeError>(
            (ds, pos + delta_entries_bytes(ds).len()),
        ),
    decreases ds.len(),
{
    reveal(spec_decode_delta_entries);
    if ds.len() == 0 {
        assert(ds =~= Seq::<DeltaFields>::empty());
    } else {
        let init = ds.drop_last();
        let last = ds.last();
        assert(entries_encode_error(init) is None && id_encodable(last.instrument));
        lemma_split(bytes, pos, delta_entries_bytes(init), delta_bytes(last));
        lemma_decode_delta_entries(bytes, pos, init);
        lemma_decode_delta(bytes, pos + delta_entries_bytes(init).len(), last);
        assert(init.push(last) =~= ds);
    }
}

/// A batch that can be encoded reads back.
#[verifier::rlimit(50)]
pub proof fn lemma_decode_deltas(bytes: Seq<u8>, pos: int, x: DeltasFields)
    requires
        deltas_encode_error(x) is None,
        bytes_at(bytes, pos, deltas_bytes(x)),
    ensures
        spec_decode_deltas(bytes, pos) == Ok::<(DeltasFields, int), SbeDecodeError>(
            (x, pos + deltas_bytes(x).len()),
        ),
{
    reveal(spec_decode_deltas);
    let f = seq![x.flags];
    let q = le_u64_bytes(x.sequence);
    let e = le_u64_bytes(x.ts_event);
    let t = le_u64_bytes(x.ts_init);
    let id = instrument_id_bytes(x.instrument);
    let bl = le_u16_bytes(ORDER_BOOK_DELTA_GROUP_BLOCK_LENGTH);
    let n = le_u16_bytes(x.deltas.len() as u16);
    let es = delta_entries_bytes(x.deltas);
    lemma_split(bytes, pos, f, q + (e + (t + (id + (bl + (n + es))))));
    lemma_read_u8(bytes, pos, x.flags);
    lemma_split(bytes, pos + 1, q, e + (t + (id + (bl + (n + es)))));
    lemma_read_u64(bytes, pos + 1, x.sequence);
    lemma_split(bytes, pos + 9, e, t + (id + (bl + (n + es))));
    lemma_read_u64(bytes, pos + 9, x.ts_event);
    lemma_split(bytes, pos + 17, t, id + (bl + (n + es)));
    lemma_read_u64(bytes, pos + 17, x.ts_init);
    lemma_split(bytes, pos + 25, id, bl + (n + es));
    lemma_decode_instrument_id(bytes, pos + 25, x.instrument);
    let p5 = pos + 25 + id.len();
    lemma_split(bytes, p5, bl, n + es);
    lemma_read_u16(bytes, p5, ORDER_BOOK_DELTA_GROUP_BLOCK_LENGTH);
    lemma_split(bytes, p5 + 2, n, es);
    lemma_read_u16(bytes, p5 + 2, x.deltas.len() as u16);
    lemma_decode_delta_entries(bytes, p5 + 4, x.deltas);
}


/// Once some delta of a prefix cannot be encoded, the first such delta of the whole
/// sequence is that one.
proof fn lemma_prefix_encode_error(ds: Seq<DeltaFields>, k: int)
    requires
        0 <= k <= ds.len(),
        entries_encode_error(ds.take(k)) is Some,
    ensures
        entries_encode_error(ds) == entries_encode_error(ds.take(k)),
    decreases ds.len(),
{
    if k == ds.len() {
        assert(ds.take(k) =~= ds);
    } else {
        assert(ds.drop_last().take(k) =~= ds.take(k));
        lemma_prefix_encode_error(ds.drop_last(), k);
    }
}

/// One more delta: the bytes and the first error of a prefix grow by that delta's.
proof fn lemma_entries_step(ds: Seq<DeltaFields>, i: int)
    requires
        0 <= i < ds.len(),
    ensures
        delta_entries_bytes(ds.take(i + 1)) == delta_entries_bytes(ds.take(i)) + delta_bytes(ds[i]),
        entries_encode_error(ds.take(i + 1)) == match entries_encode_error(ds.take(i)) {
            Some(e) => Some(e),
            None => if id_encodable(ds[i].instrument) {
                None
            } else {
                Some(id_encode_error(ds[i].instrument))
            },
        },
{
    assert(ds.take(i + 1).drop_last() =~= ds.take(i));
    assert(ds.take(i + 1).last() == ds[i]);
}

/// A failed read of the first `i` deltas fails the read of `n >= i` deltas the same way.
proof fn lemma_entries_err(bytes: Seq<u8>, pos: int, i: nat, n: nat)
    requires
        i <= n,
        spec_decode_delta_entries(bytes, pos, i) is Err,
    ensures
        spec_decode_delta_entries(bytes, pos, n) == spec_decode_delta_entries(bytes, pos, i),
    decreases n,
{
    reveal(spec_decode_delta_entries);
    if n > i {
        lemma_entries_err(bytes, pos, i, (n - 1) as nat);
    }
}

/// Appends a group header: the entry length and the entry count, or fails, leaving `buf`
/// as it was, when the count does not fit in two bytes.
pub fn encode_group_header_16(buf: &mut Vec<u8>, count: usize, block_length: u16) -> (r: Result<
    (),
    SbeEncodeError,
>)
    ensures
        count <= u16::MAX ==> r is Ok && final(buf)@ == old(buf)@ + (le_u16_bytes(block_length)
            + le_u16_bytes(count as u16)),
        count > u16::MAX ==> r == Err::<(), SbeEncodeError>(SbeEncodeError::GroupTooLarge { count })
            && final(buf)@ == old(buf)@,
{
    if count > 65535 {
        return Err(SbeEncodeError::GroupTooLarge { count });
    }
    push_u16_le(buf, block_length);
    push_u16_le(buf, count as u16);
    proof {
        assert(final(buf)@ =~= old(buf)@ + (le_u16_bytes(block_length) + le_u16_bytes(count as u16)));
    }
    Ok(())
}

/// Appends the fixed part of a book delta.
pub fn encode_order_book_delta_fields(buf: &mut Vec<u8>, delta: &OrderBookDelta)
    ensures
        final(buf)@ == old(buf)@ + delta_fields_bytes(delta@),
{
    push_u8(buf, action_byte(delta.action));
    encode_book_order(buf, &delta.order);
    push_u8(buf, delta.flags);
    push_u64_le(buf, delta.sequence);
    encode_unix_nanos(buf, delta.ts_event);
    encode_unix_nanos(buf, delta.ts_init);
    proof {
        assert(final(buf)@ =~= old(buf)@ + delta_fields_bytes(delta@));
    }
}

/// Length of an encoded book delta.
pub fn encoded_order_book_delta_size(delta: &OrderBookDelta) -> (n: usize)
    requires
        delta_bytes(delta@).len() <= usize::MAX,
    ensures
        n == delta_bytes(delta@).len(),
{
    ORDER_BOOK_DELTA_GROUP_BLOCK_LENGTH as usize + encoded_instrument_id_size(&delta.instrument_id)
}

impl BookOrder {
    /// Appends the encoded order; this cannot fail.
    pub fn encode_body(&self, buf: &mut Vec<u8>) -> (r: Result<(), SbeEncodeError>)
        ensures
            r is Ok,
            final(buf)@ == old(buf)@ + book_order_bytes(*self),
    {
        encode_book_order(buf, self);
        Ok(())
    }

    /// Decodes an order.
    pub fn decode_body(cursor: &mut SbeCursor) -> (r: Result<BookOrder, SbeDecodeError>)
        requires
            old(cursor).wf(),
        ensures
            final(cursor).wf(),
            final(cursor).bytes() == old(cursor).bytes(),
            read_as(spec_decode_book_order(old(cursor).bytes(), old(cursor).position()), r, final(cursor).position()),
    {
        decode_book_order(cursor)
    }
}

impl OrderBookDelta {
    /// Appends the encoded delta, or fails when its identifier cannot be encoded (with the
    /// fixed part already written).
    pub fn encode_body(&self, buf: &mut Vec<u8>) -> (r: Result<(), SbeEncodeError>)
        ensures
            id_encodable(self@.instrument) ==> r is Ok && final(buf)@ == old(buf)@ + delta_bytes(self@),
            !id_encodable(self@.instrument) ==> r == Err::<(), SbeEncodeError>(
                id_encode_error(self@.instrument),
            ) && final(buf)@ == old(buf)@ + delta_fields_bytes(self@),
    {
        encode_order_book_delta_fields(buf, self);
        let r = encode_instrument_id(buf, &self.instrument_id);
        proof {
            assert(old(buf)@ + delta_fields_bytes(self@) + instrument_id_bytes(self@.instrument) =~= old(buf)@
                + delta_bytes(self@));
        }
        r
    }

    /// Decodes a delta.
    pub fn decode_body(cursor: &mut SbeCursor) -> (r: Result<OrderBookDelta, SbeDecodeError>)
        requires
            old(cursor).wf(),
        ensures
            final(cursor).wf(),
            final(cursor).bytes() == old(cursor).bytes(),
            match spec_decode_delta(old(cursor).bytes(), old(cursor).position()) {
                Ok((v, p)) => r matches Ok(d) && d@ == v && final(cursor).position() == p,
                Err(e) => r == Err::<OrderBookDelta, SbeDecodeError>(e),
            },
    {
        proof {
            reveal(spec_decode_delta);
        }
        let action = decode_book_action(cursor)?;
        let order = decode_book_order(cursor)?;
        let flags = cursor.read_u8()?;
        let sequence = cursor.read_u64_le()?;
        let ts_event = decode_unix_nanos(cursor)?;
        let ts_init = decode_unix_nanos(cursor)?;
        let instrument_id = decode_instrument_id(cursor)?;
        Ok(OrderBookDelta { instrument_id, action, order, flags, sequence, ts_event, ts_init })
    }

    /// Length of the encoded delta.
    pub fn encoded_body_size(&self) -> (n: usize)
        requires
            delta_bytes(self@).len() <= usize::MAX,
        ensures
            n == delta_bytes(self@).len(),
    {
        encoded_order_book_delta_size(self)
    }
}

impl OrderBookDeltas {
    /// Appends the encoded batch, or fails at the first part that cannot be encoded (with
    /// what comes before it already written).
    pub fn encode_body(&self, buf: &mut Vec<u8>) -> (r: Result<(), SbeEncodeError>)
        ensures
            deltas_encode_error(self@) is None ==> r is Ok && final(buf)@ == old(buf)@ + deltas_bytes(self@),
            deltas_encode_error(self@) matches Some(e) ==> r == Err::<(), SbeEncodeError>(e)
                && old(buf)@.is_prefix_of(final(buf)@),
    {
        let ghost start = buf@;
        let ghost v = self@;
        push_u8(buf, self.flags);
        push_u64_le(buf, self.sequence);
        encode_unix_nanos(buf, self.ts_event);
        encode_unix_nanos(buf, self.ts_init);
        let ghost fixed = buf@;
        let r = encode_instrument_id(buf, &self.instrument_id);
        if r.is_err() {
            proof {
                assert(start.is_prefix_of(buf@)) by {
                    assert(buf@.subrange(0, start.len() as int) =~= start);
                }
            }
            return r;
        }
        let count = self.deltas.len();
        let h = encode_group_header_16(buf, count, ORDER_BOOK_DELTA_GROUP_BLOCK_LENGTH);
        if h.is_err() {
            proof {
                assert(start.is_prefix_of(buf@)) by {
                    assert(buf@.subrange(0, start.len() as int) =~= start);
                }
            }
            return h;
        }
        let ghost header = buf@;
        let e = encode_delta_entries(buf, &self.deltas);
        proof {
            assert(self.deltas@.map_values(|d: OrderBookDelta| d@) == v.deltas);
            assert(header =~= start + (seq![v.flags] + (le_u64_bytes(v.sequence) + (le_u64_bytes(v.ts_event)
                + (le_u64_bytes(v.ts_init) + (instrument_id_bytes(v.instrument) + (le_u16_bytes(
                ORDER_BOOK_DELTA_GROUP_BLOCK_LENGTH,
            ) + le_u16_bytes(v.deltas.len() as u16))))))));
            if e is Ok {
                assert(buf@ =~= start + deltas_bytes(v));
            } else {
                assert(start.is_prefix_of(buf@)) by {
                    assert(buf@.subrange(0, start.len() as int) =~= start);
                }
            }
        }
        e
    }

    /// Decodes a batch.
    pub fn decode_body(cursor: &mut SbeCursor) -> (r: Result<OrderBookDeltas, SbeDecodeError>)
        requires
            old(cursor).wf(),
        ensures
            final(cursor).wf(),
            final(cursor).bytes() == old(cursor).bytes(),
            match spec_decode_deltas(old(cursor).bytes(), old(cursor).position()) {
                Ok((v, p)) => r matches Ok(b) && b@ == v && final(cursor).position() == p,
                Err(e) => r == Err::<OrderBookDeltas, SbeDecodeError>(e),
            },
    {
        proof {
            reveal(spec_decode_deltas);
        }
        let flags = cursor.read_u8()?;
        let sequence = cursor.read_u64_le()?;
        let ts_event = decode_unix_nanos(cursor)?;
        let ts_init = decode_unix_nanos(cursor)?;
        let instrument_id = decode_instrument_id(cursor)?;
        let block_length = cursor.read_u16_le()?;
        let count = cursor.read_u16_le()?;
        if block_length != ORDER_BOOK_DELTA_GROUP_BLOCK_LENGTH {
            return Err(
                SbeDecodeError::InvalidBlockLength {
                    expected: ORDER_BOOK_DELTA_GROUP_BLOCK_LENGTH,
                    actual: block_length,
                },
            );
        }
        let deltas = decode_delta_entries(cursor, count)?;
        proof {
            reveal(spec_decode_deltas);
        }
        Ok(OrderBookDeltas { instrument_id, deltas, flags, sequence, ts_event, ts_init })
    }

    /// Length of the encoded batch.
    pub fn encoded_body_size(&self) -> (n: usize)
        requires
            deltas_bytes(self@).len() <= usize::MAX,
        ensures
            n == deltas_bytes(self@).len(),
    {
        let ghost v = self@;
        let mut total: usize = ORDER_BOOK_DELTAS_BLOCK_LENGTH as usize + encoded_instrument_id_size(
            &self.instrument_id,
        ) + GROUP_HEADER_16_LENGTH;
        let mut i: usize = 0;
        proof {
            assert(v.deltas.take(0) =~= Seq::<DeltaFields>::empty());
        }
        while i < self.deltas.len()
            invariant
                i <= self.deltas.len(),
                v == self@,
                deltas_bytes(v).len() <= usize::MAX,
                total == 29 + instrument_id_bytes(v.instrument).len() + delta_entries_bytes(
                    v.deltas.take(i as int),
                ).len(),
            decreases self.deltas.len() - i,
        {
            proof {
                lemma_entries_step(v.deltas, i as int);
                lemma_entries_len_prefix(v.deltas, i + 1);
                assert(self.deltas@[i as int]@ == v.deltas[i as int]);
            }
            total = total + encoded_order_book_delta_size(&self.deltas[i]);
            i += 1;
        }
        proof {
            assert(v.deltas.take(self.deltas.len() as int) =~= v.deltas);
        }
        total
    }
}

/// A prefix of the deltas encodes to no more bytes than all of them.
proof fn lemma_entries_len_prefix(ds: Seq<DeltaFields>, k: int)
    requires
        0 <= k <= ds.len(),
    ensures
        delta_entries_bytes(ds.take(k)).len() <= delta_entries_bytes(ds).len(),
    decreases ds.len(),
{
    if k == ds.len() {
        assert(ds.take(k) =~= ds);
    } else {
        assert(ds.drop_last().take(k) =~= ds.take(k));
        lemma_entries_len_prefix(ds.drop_last(), k);
    }
}


/// Appends the encoded deltas one after another, or fails at the first whose identifier
/// cannot be encoded (with what comes before it already written).
fn encode_delta_entries(buf: &mut Vec<u8>, deltas: &Vec<OrderBookDelta>) -> (r: Result<(), SbeEncodeError>)
    ensures
        ({
            let ds = deltas@.map_values(|d: OrderBookDelta| d@);
            &&& entries_encode_error(ds) is None ==> r is Ok && final(buf)@ == old(buf)@ + delta_entries_bytes(ds)
            &&& entries_encode_error(ds) matches Some(e) ==> r == Err::<(), SbeEncodeError>(e)
                && old(buf)@.is_prefix_of(final(buf)@)
        }),
{
    let ghost ds = deltas@.map_values(|d: OrderBookDelta| d@);
    let ghost start = buf@;
    proof {
        assert(start + delta_entries_bytes(ds.take(0)) =~= start);
    }
    let mut i: usize = 0;
    while i < deltas.len()
        invariant
            i <= deltas.len(),
            ds == deltas@.map_values(|d: OrderBookDelta| d@),
            start == old(buf)@,
            buf@ == start + delta_entries_bytes(ds.take(i as int)),
            entries_encode_error(ds.take(i as int)) is None,
        decreases deltas.len() - i,
    {
        let delta = &deltas[i];
        proof {
            assert(delta@ == ds[i as int]);
            lemma_entries_step(ds, i as int);
        }
        encode_order_book_delta_fields(buf, delta);
        let e = encode_instrument_id(buf, &delta.instrument_id);
        if e.is_err() {
            proof {
                lemma_prefix_encode_error(ds, i + 1);
                assert(start.is_prefix_of(buf@)) by {
                    assert(buf@.subrange(0, start.len() as int) =~= start);
                }
            }
            return e;
        }
        proof {
            assert(buf@ =~= start + delta_entries_bytes(ds.take(i + 1)));
        }
        i += 1;
    }
    proof {
        assert(ds.take(deltas.len() as int) =~= ds);
    }
    Ok(())
}

/// Decodes `count` deltas, one after another.
fn decode_delta_entries(cursor: &mut SbeCursor, count: u16) -> (r: Result<Vec<OrderBookDelta>, SbeDecodeError>)
    requires
        old(cursor).wf(),
    ensures
        final(cursor).wf(),
        final(cursor).bytes() == old(cursor).bytes(),
        match spec_decode_delta_entries(old(cursor).bytes(), old(cursor).position(), count as nat) {
            Ok((ds, p)) => r matches Ok(v) && v@.map_values(|d: OrderBookDelta| d@) == ds
                && final(cursor).position() == p,
            Err(e) => r == Err::<Vec<OrderBookDelta>, SbeDecodeError>(e),
        },
{
    let ghost bytes = cursor.bytes();
    let ghost start = cursor.position();
    let mut deltas: Vec<OrderBookDelta> = Vec::new();
    proof {
        reveal(spec_decode_delta_entries);
        assert(deltas@.map_values(|d: OrderBookDelta| d@) =~= Seq::<DeltaFields>::empty());
    }
    let mut i: u16 = 0;
    while i < count
        invariant
            cursor.wf(),
            cursor.bytes() == bytes,
            bytes == old(cursor).bytes(),
            start == old(cursor).position(),
            i <= count,
            spec_decode_delta_entries(bytes, start, i as nat) == Ok::<(Seq<DeltaFields>, int), SbeDecodeError>(
                (deltas@.map_values(|d: OrderBookDelta| d@), cursor.position()),
            ),
        decreases count - i,
    {
        proof {
            reveal(spec_decode_delta_entries);
        }
        let delta = match OrderBookDelta::decode_body(cursor) {
            Ok(d) => d,
            Err(e) => {
                proof {
                    lemma_entries_err(bytes, start, (i + 1) as nat, count as nat);
                }
                return Err(e);
            },
        };
        let ghost before = deltas@;
        deltas.push(delta);
        proof {
            assert(deltas@.map_values(|d: OrderBookDelta| d@) =~= before.map_values(
                |d: OrderBookDelta| d@,
            ).push(delta@));
        }
        i += 1;
    }
    Ok(deltas)
}


/// An encoded depth level: price, then size.
pub open spec fn level_bytes(o: BookOrder) -> Seq<u8> {
    price_bytes(o.price) + quantity_bytes(o.size)
}

/// The encoded levels, one after another.
pub open spec fn levels_bytes(os: Seq<BookOrder>) -> Seq<u8>
    decreases os.len(),
{
    if os.len() == 0 {
        Seq::empty()
    } else {
        levels_bytes(os.drop_last()) + level_bytes(os.last())
    }
}

/// The encoded counts, one after another.
pub open spec fn counts_bytes(cs: Seq<u32>) -> Seq<u8>
    decreases cs.len(),
{
    if cs.len() == 0 {
        Seq::empty()
    } else {
        counts_bytes(cs.drop_last()) + le_u32_bytes(cs.last())
    }
}

/// The fixed part of an encoded depth snapshot: bid levels, ask levels, bid counts, ask
/// counts, flags, sequence, timestamps.
pub open spec fn depth10_fixed_bytes(d: Depth10Fields) -> Seq<u8> {
    levels_bytes(d.bids) + (levels_bytes(d.asks) + (counts_bytes(d.bid_counts) + (counts_bytes(
        d.ask_counts,
    ) + (seq![d.flags] + (le_u64_bytes(d.sequence) + (le_u64_bytes(d.ts_event) + le_u64_bytes(
        d.ts_init,
    )))))))
}

/// An encoded depth snapshot: its fixed part, then its instrument identifier.
pub open spec fn depth10_bytes(d: Depth10Fields) -> Seq<u8> {
    depth10_fixed_bytes(d) + instrument_id_bytes(d.instrument)
}

/// Decoding `n` levels of one side at `pos`; they carry no order identifier.
#[verifier::opaque]
pub open spec fn spec_decode_levels(bytes: Seq<u8>, pos: int, n: nat, side: OrderSide) -> Result<
    (Seq<BookOrder>, int),
    SbeDecodeError,
>
    decreases n,
{
    if n == 0 {
        Ok((Seq::empty(), pos))
    } else {
        match spec_decode_levels(bytes, pos, (n - 1) as nat, side) {
            Err(e) => Err(e),
            Ok((os, p1)) => match spec_decode_price(bytes, p1) {
                Err(e) => Err(e),
                Ok((price, p2)) => match spec_decode_quantity(bytes, p2) {
                    Err(e) => Err(e),
                    Ok((size, p3)) => Ok(
                        (os.push(BookOrder { side, price, size, order_id: 0 }), p3),
                    ),
                },
            },
        }
    }
}

/// Decoding `n` counts at `pos`.
#[verifier::opaque]
pub open spec fn spec_decode_counts(bytes: Seq<u8>, pos: int, n: nat) -> Result<(Seq<u32>, int), SbeDecodeError>
    decreases n,
{
    if n == 0 {
        Ok((Seq::empty(), pos))
    } else {
        match spec_decode_counts(bytes, pos, (n - 1) as nat) {
            Err(e) => Err(e),
            Ok((cs, p1)) => match spec_read_u32(bytes, p1) {
                Err(e) => Err(e),
                Ok((c, p2)) => Ok((cs.push(c), p2)),
            },
        }
    }
}

/// Decoding a depth snapshot at `pos`: bids are buys, asks are sells.
#[verifier::opaque]
pub open spec fn spec_decode_depth10(bytes: Seq<u8>, pos: int) -> Result<(Depth10Fields, int), SbeDecodeError> {
    match spec_decode_levels(bytes, pos, 10, OrderSide::Buy) {
        Err(e) => Err(e),
        Ok((bids, p1)) => match spec_decode_levels(bytes, p1, 10, OrderSide::Sell) {
            Err(e) => Err(e),
            Ok((asks, p2)) => match spec_decode_counts(bytes, p2, 10) {
                Err(e) => Err(e),
                Ok((bid_counts, p3)) => match spec_decode_counts(bytes, p3, 10) {
                    Err(e) => Err(e),
                    Ok((ask_counts, p4)) => match spec_read_u8(bytes, p4) {
                        Err(e) => Err(e),
                        Ok((flags, p5)) => match spec_read_u64(bytes, p5) {
                            Err(e) => Err(e),
                            Ok((sequence, p6)) => match spec_read_u64(bytes, p6) {
                                Err(e) => Err(e),
                                Ok((ts_event, p7)) => match spec_read_u64(bytes, p7) {
                                    Err(e) => Err(e),
                                    Ok((ts_init, p8)) => match spec_decode_instrument_id(bytes, p8) {
                                        Err(e) => Err(e),
                                        Ok((instrument, p9)) => Ok(
                                            (
                                                Depth10Fields {
                                                    instrument,
                                                    bids,
                                                    asks,
                                                    bid_counts,
                                                    ask_counts,
                                                    flags,
                                                    sequence,
                                                    ts_event,
                                                    ts_init,
                                                },
                                                p9,
                                            ),
                                        ),
                                    },
                                },
                            },
                        },
                    },
                },
            },
        },
    }
}

/// All orders are on `side` and carry no order identifier, as decoded levels are.
pub open spec fn plain_levels(os: Seq<BookOrder>, side: OrderSide) -> bool {
    forall|i: int| 0 <= i < os.len() ==> (#[trigger] os[i]).side == side && os[i].order_id == 0
}

/// Levels on one side, without order identifiers, read back.
pub proof fn lemma_decode_levels(bytes: Seq<u8>, pos: int, os: Seq<BookOrder>, side: OrderSide)
    requires
        plain_levels(os, side),
        bytes_at(bytes, pos, levels_bytes(os)),
    ensures
        spec_decode_levels(bytes, pos, os.len(), side) == Ok::<(Seq<BookOrder>, int), SbeDecodeError>(
            (os, pos + levels_bytes(os).len()),
        ),
    decreases os.len(),
{
    reveal(spec_decode_levels);
    if os.len() == 0 {
        assert(os =~= Seq::<BookOrder>::empty());
    } else {
        let init = os.drop_last();
        let last = os.last();
        assert(plain_levels(init, side)) by {
            assert forall|i: int| 0 <= i < init.len() implies (#[trigger] init[i]).side == side
                && init[i].order_id == 0 by {
                assert(init[i] == os[i]);
            }
        }
        assert(os[os.len() - 1] == last);
        lemma_split(bytes, pos, levels_bytes(init), level_bytes(last));
        lemma_decode_levels(bytes, pos, init, side);
        let p1 = pos + levels_bytes(init).len();
        lemma_split(bytes, p1, price_bytes(last.price), quantity_bytes(last.size));
        lemma_decode_price(bytes, p1, last.price);
        lemma_decode_quantity(bytes, p1 + 9, last.size);
        assert(init.push(BookOrder { side, price: last.price, size: last.size, order_id: 0 }) =~= os);
    }
}

/// Counts read back.
pub proof fn lemma_decode_counts(bytes: Seq<u8>, pos: int, cs: Seq<u32>)
    requires
        bytes_at(bytes, pos, counts_bytes(cs)),
    ensures
        spec_decode_counts(bytes, pos, cs.len()) == Ok::<(Seq<u32>, int), SbeDecodeError>(
            (cs, pos + counts_bytes(cs).len()),
        ),
    decreases cs.len(),
{
    reveal(spec_decode_counts);
    if cs.len() == 0 {
        assert(cs =~= Seq::<u32>::empty());
    } else {
        let init = cs.drop_last();
        lemma_split(bytes, pos, counts_bytes(init), le_u32_bytes(cs.last()));
        lemma_decode_counts(bytes, pos, init);
        lemma_read_u32(bytes, pos + counts_bytes(init).len(), cs.last());
        assert(init.push(cs.last()) =~= cs);
    }
}

/// A depth snapshot reads back when its bids are buys and its asks sells, none of them
/// with an order identifier, and its identifier can be encoded.
#[verifier::rlimit(50)]
pub proof fn lemma_decode_depth10(bytes: Seq<u8>, pos: int, x: Depth10Fields)
    requires
        x.bids.len() == 10,
        x.asks.len() == 10,
        x.bid_counts.len() == 10,
        x.ask_counts.len() == 10,
        plain_levels(x.bids, OrderSide::Buy),
        plain_levels(x.asks, OrderSide::Sell),
        id_encodable(x.instrument),
        bytes_at(bytes, pos, depth10_bytes(x)),
    ensures
        spec_decode_depth10(bytes, pos) == Ok::<(Depth10Fields, int), SbeDecodeError>(
            (x, pos + depth10_bytes(x).len()),
        ),
{
    reveal(spec_decode_depth10);
    let lb = levels_bytes(x.bids);
    let la = levels_bytes(x.asks);
    let cb = counts_bytes(x.bid_counts);
    let ca = counts_bytes(x.ask_counts);
    let f = seq![x.flags];
    let q = le_u64_bytes(x.sequence);
    let e = le_u64_bytes(x.ts_event);
    let t = le_u64_bytes(x.ts_init);
    lemma_split(bytes, pos, depth10_fixed_bytes(x), instrument_id_bytes(x.instrument));
    lemma_split(bytes, pos, lb, la + (cb + (ca + (f + (q + (e + t))))));
    lemma_decode_levels(bytes, pos, x.bids, OrderSide::Buy);
    let p1 = pos + lb.len();
    lemma_split(bytes, p1, la, cb + (ca + (f + (q + (e + t)))));
    lemma_decode_levels(bytes, p1, x.asks, OrderSide::Sell);
    let p2 = p1 + la.len();
    lemma_split(bytes, p2, cb, ca + (f + (q + (e + t))));
    lemma_decode_counts(bytes, p2, x.bid_counts);
    let p3 = p2 + cb.len();
    lemma_split(bytes, p3, ca, f + (q + (e + t)));
    lemma_decode_counts(bytes, p3, x.ask_counts);
    let p4 = p3 + ca.len();
    lemma_split(bytes, p4, f, q + (e + t));
    lemma_read_u8(bytes, p4, x.flags);
    lemma_split(bytes, p4 + 1, q, e + t);
    lemma_read_u64(bytes, p4 + 1, x.sequence);
    lemma_split(bytes, p4 + 9, e, t);
    lemma_read_u64(bytes, p4 + 9, x.ts_event);
    lemma_read_u64(bytes, p4 + 17, x.ts_init);
    lemma_decode_instrument_id(bytes, pos + depth10_fixed_bytes(x).len(), x.instrument);
}


/// Each encoded level takes 18 bytes.
proof fn lemma_levels_len(os: Seq<BookOrder>)
    ensures
        levels_bytes(os).len() == 18 * os.len(),
    decreases os.len(),
{
    if os.len() > 0 {
        lemma_levels_len(os.drop_last());
    }
}

/// Each encoded count takes 4 bytes.
proof fn lemma_counts_len(cs: Seq<u32>)
    ensures
        counts_bytes(cs).len() == 4 * cs.len(),
    decreases cs.len(),
{
    if cs.len() > 0 {
        lemma_counts_len(cs.drop_last());
    }
}

/// A failed read of the first `i` levels fails the read of `n >= i` levels the same way.
proof fn lemma_levels_err(bytes: Seq<u8>, pos: int, i: nat, n: nat, side: OrderSide)
    requires
        i <= n,
        spec_decode_levels(bytes, pos, i, side) is Err,
    ensures
        spec_decode_levels(bytes, pos, n, side) == spec_decode_levels(bytes, pos, i, side),
    decreases n,
{
    reveal(spec_decode_levels);
    if n > i {
        lemma_levels_err(bytes, pos, i, (n - 1) as nat, side);
    }
}

/// A failed read of the first `i` counts fails the read of `n >= i` counts the same way.
proof fn lemma_counts_err(bytes: Seq<u8>, pos: int, i: nat, n: nat)
    requires
        i <= n,
        spec_decode_counts(bytes, pos, i) is Err,
    ensures
        spec_decode_counts(bytes, pos, n) == spec_decode_counts(bytes, pos, i),
    decreases n,
{
    reveal(spec_decode_counts);
    if n > i {
        lemma_counts_err(bytes, pos, i, (n - 1) as nat);
    }
}

/// Appends the ten levels of one side.
fn encode_levels(buf: &mut Vec<u8>, levels: &[BookOrder; 10])
    ensures
        final(buf)@ == old(buf)@ + levels_bytes(levels@),
{
    let ghost start = buf@;
    proof {
        assert(start + levels_bytes(levels@.take(0)) =~= start);
    }
    let mut i: usize = 0;
    while i < DEPTH10_LEVEL_COUNT
        invariant
            i <= 10,
            levels@.len() == 10,
            buf@ == start + levels_bytes(levels@.take(i as int)),
        decreases 10 - i,
    {
        let level = levels[i];
        proof {
            assert(levels@.take(i + 1).drop_last() =~= levels@.take(i as int));
            assert(levels@.take(i + 1).last() == level);
        }
        encode_price(buf, &level.price);
        encode_quantity(buf, &level.size);
        proof {
            assert(buf@ =~= start + levels_bytes(levels@.take(i + 1)));
        }
        i += 1;
    }
    proof {
        assert(levels@.take(10) =~= levels@);
    }
}

/// Appends ten counts.
fn encode_counts(buf: &mut Vec<u8>, counts: &[u32; 10])
    ensures
        final(buf)@ == old(buf)@ + counts_bytes(counts@),
{
    let ghost start = buf@;
    proof {
        assert(start + counts_bytes(counts@.take(0)) =~= start);
    }
    let mut i: usize = 0;
    while i < DEPTH10_LEVEL_COUNT
        invariant
            i <= 10,
            counts@.len() == 10,
            buf@ == start + counts_bytes(counts@.take(i as int)),
        decreases 10 - i,
    {
        let count = counts[i];
        proof {
            assert(counts@.take(i + 1).drop_last() =~= counts@.take(i as int));
            assert(counts@.take(i + 1).last() == count);
        }
        push_u32_le(buf, count);
        proof {
            assert(buf@ =~= start + counts_bytes(counts@.take(i + 1)));
        }
        i += 1;
    }
    proof {
        assert(counts@.take(10) =~= counts@);
    }
}

/// Decodes the ten levels of one side.
fn decode_levels(cursor: &mut SbeCursor, side: OrderSide) -> (r: Result<[BookOrder; 10], SbeDecodeError>)
    requires
        old(cursor).wf(),
    ensures
        final(cursor).wf(),
        final(cursor).bytes() == old(cursor).bytes(),
        match spec_decode_levels(old(cursor).bytes(), old(cursor).position(), 10, side) {
            Ok((os, p)) => r matches Ok(a) && a@ == os && final(cursor).position() == p,
            Err(e) => r == Err::<[BookOrder; 10], SbeDecodeError>(e),
        },
{
    let ghost bytes = cursor.bytes();
    let ghost start = cursor.position();
    let empty = BookOrder::null();
    let mut levels = [empty; 10];
    proof {
        reveal(spec_decode_levels);
        assert(levels@.take(0) =~= Seq::<BookOrder>::empty());
    }
    let mut i: usize = 0;
    while i < DEPTH10_LEVEL_COUNT
        invariant
            cursor.wf(),
            cursor.bytes() == bytes,
            bytes == old(cursor).bytes(),
            start == old(cursor).position(),
            i <= 10,
            levels@.len() == 10,
            spec_decode_levels(bytes, start, i as nat, side) == Ok::<(Seq<BookOrder>, int), SbeDecodeError>(
                (levels@.take(i as int), cursor.position()),
            ),
        decreases 10 - i,
    {
        proof {
            reveal(spec_decode_levels);
        }
        let price = match decode_price(cursor) {
            Ok(p) => p,
            Err(e) => {
                proof {
                    lemma_levels_err(bytes, start, (i + 1) as nat, 10, side);
                }
                return Err(e);
            },
        };
        let size = match decode_quantity(cursor) {
            Ok(q) => q,
            Err(e) => {
                proof {
                    lemma_levels_err(bytes, start, (i + 1) as nat, 10, side);
                }
                return Err(e);
            },
        };
        let ghost before = levels@;
        levels[i] = BookOrder::new(side, price, size, 0);
        proof {
            assert(levels@.take(i + 1) =~= before.take(i as int).push(
                BookOrder { side, price, size, order_id: 0 },
            ));
        }
        i += 1;
    }
    proof {
        assert(levels@.take(10) =~= levels@);
    }
    Ok(levels)
}

/// Decodes ten counts.
fn decode_counts(cursor: &mut SbeCursor) -> (r: Result<[u32; 10], SbeDecodeError>)
    requires
        old(cursor).wf(),
    ensures
        final(cursor).wf(),
        final(cursor).bytes() == old(cursor).bytes(),
        match spec_decode_counts(old(cursor).bytes(), old(cursor).position(), 10) {
            Ok((cs, p)) => r matches Ok(a) && a@ == cs && final(cursor).position() == p,
            Err(e) => r == Err::<[u32; 10], SbeDecodeError>(e),
        },
{
    let ghost bytes = cursor.bytes();
    let ghost start = cursor.position();
    let mut counts = [0u32; 10];
    proof {
        reveal(spec_decode_counts);
        assert(counts@.take(0) =~= Seq::<u32>::empty());
    }
    let mut i: usize = 0;
    while i < DEPTH10_LEVEL_COUNT
        invariant
            cursor.wf(),
            cursor.bytes() == bytes,
            bytes == old(cursor).bytes(),
            start == old(cursor).position(),
            i <= 10,
            counts@.len() == 10,
            spec_decode_counts(bytes, start, i as nat) == Ok::<(Seq<u32>, int), SbeDecodeError>(
                (counts@.take(i as int), cursor.position()),
            ),
        decreases 10 - i,
    {
        proof {
            reveal(spec_decode_counts);
        }
        let count = match cursor.read_u32_le() {
            Ok(c) => c,
            Err(e) => {
                proof {
                    lemma_counts_err(bytes, start, (i + 1) as nat, 10);
                }
                return Err(e);
            },
        };
        let ghost before = counts@;
        counts[i] = count;
        proof {
            assert(counts@.take(i + 1) =~= before.take(i as int).push(count));
        }
        i += 1;
    }
    proof {
        assert(counts@.take(10) =~= counts@);
    }
    Ok(counts)
}

impl OrderBookDepth10 {
    /// Appends the encoded snapshot, or fails when its identifier cannot be encoded (with
    /// the fixed part already written).
    pub fn encode_body(&self, buf: &mut Vec<u8>) -> (r: Result<(), SbeEncodeError>)
        ensures
            id_encodable(self@.instrument) ==> r is Ok && final(buf)@ == old(buf)@ + depth10_bytes(self@),
            !id_encodable(self@.instrument) ==> r == Err::<(), SbeEncodeError>(
                id_encode_error(self@.instrument),
            ) && final(buf)@ == old(buf)@ + depth10_fixed_bytes(self@),
    {
        let ghost start = buf@;
        encode_levels(buf, &self.bids);
        encode_levels(buf, &self.asks);
        encode_counts(buf, &self.bid_counts);
        encode_counts(buf, &self.ask_counts);
        push_u8(buf, self.flags);
        push_u64_le(buf, self.sequence);
        encode_unix_nanos(buf, self.ts_event);
        encode_unix_nanos(buf, self.ts_init);
        proof {
            assert(buf@ =~= start + depth10_fixed_bytes(self@));
        }
        let r = encode_instrument_id(buf, &self.instrument_id);
        proof {
            assert(start + depth10_fixed_bytes(self@) + instrument_id_bytes(self@.instrument) =~= start
                + depth10_bytes(self@));
        }
        r
    }

    /// Decodes a snapshot.
    pub fn decode_body(cursor: &mut SbeCursor) -> (r: Result<OrderBookDepth10, SbeDecodeError>)
        requires
            old(cursor).wf(),
        ensures
            final(cursor).wf(),
            final(cursor).bytes() == old(cursor).bytes(),
            match spec_decode_depth10(old(cursor).bytes(), old(cursor).position()) {
                Ok((v, p)) => r matches Ok(d) && d@ == v && final(cursor).position() == p,
                Err(e) => r == Err::<OrderBookDepth10, SbeDecodeError>(e),
            },
    {
        proof {
            reveal(spec_decode_depth10);
        }
        let bids = decode_levels(cursor, OrderSide::Buy)?;
        let asks = decode_levels(cursor, OrderSide::Sell)?;
        let bid_counts = decode_counts(cursor)?;
        let ask_counts = decode_counts(cursor)?;
        let flags = cursor.read_u8()?;
        let sequence = cursor.read_u64_le()?;
        let ts_event = decode_unix_nanos(cursor)?;
        let ts_init = decode_unix_nanos(cursor)?;
        let instrument_id = decode_instrument_id(cursor)?;
        Ok(
            OrderBookDepth10 {
                instrument_id,
                bids,
                asks,
                bid_counts,
                ask_counts,
                flags,
                sequence,
                ts_event,
                ts_init,
            },
        )
    }

    /// Length of the encoded snapshot.
    pub fn encoded_body_size(&self) -> (n: usize)
        requires
            depth10_bytes(self@).len() <= usize::MAX,
        ensures
            n == depth10_bytes(self@).len(),
    {
        proof {
            lemma_levels_len(self.bids@);
            lemma_levels_len(self.asks@);
            lemma_counts_len(self.bid_counts@);
            lemma_counts_len(self.ask_counts@);
        }
        ORDER_BOOK_DEPTH10_BLOCK_LENGTH as usize + encoded_instrument_id_size(&self.instrument_id)
    }
}

/// An encoded delta opens with its action's code: 1 for an add, 2 for an update, 3 for a
/// delete, 4 for a clear; its fixed part (written even when the identifier cannot be) opens
/// the same way.
pub proof fn lemma_delta_action_byte(d: DeltaFields)
    ensures
        delta_fields_bytes(d).len() > 0,
        delta_bytes(d)[0] == delta_fields_bytes(d)[0],
        d.action is Add ==> delta_fields_bytes(d)[0] == 1,
        d.action is Update ==> delta_fields_bytes(d)[0] == 2,
        d.action is Delete ==> delta_fields_bytes(d)[0] == 3,
        d.action is Clear ==> delta_fields_bytes(d)[0] == 4,
{
}

/// Reading a book action at `pos`: byte 1 is an add, 2 an update, 3 a delete, 4 a clear,
/// each moving one byte on; any other byte is rejected as that value; past the end the
/// bytes are too short.
pub proof fn lemma_decode_action_table(bytes: Seq<u8>, pos: int)
    ensures
        !(0 <= pos < bytes.len()) ==> spec_decode_action(bytes, pos) == Err::<
            (BookAction, int),
            SbeDecodeError,
        >(SbeDecodeError::BufferTooShort),
        0 <= pos < bytes.len() && bytes[pos] == 1 ==> spec_decode_action(bytes, pos) == Ok::<
            (BookAction, int),
            SbeDecodeError,
        >((BookAction::Add, pos + 1)),
        0 <= pos < bytes.len() && bytes[pos] == 2 ==> spec_decode_action(bytes, pos) == Ok::<
            (BookAction, int),
            SbeDecodeError,
        >((BookAction::Update, pos + 1)),
        0 <= pos < bytes.len() && bytes[pos] == 3 ==> spec_decode_action(bytes, pos) == Ok::<
            (BookAction, int),
            SbeDecodeError,
        >((BookAction::Delete, pos + 1)),
        0 <= pos < bytes.len() && bytes[pos] == 4 ==> spec_decode_action(bytes, pos) == Ok::<
            (BookAction, int),
            SbeDecodeError,
        >((BookAction::Clear, pos + 1)),
        0 <= pos < bytes.len() && (bytes[pos] == 0 || bytes[pos] > 4) ==> spec_decode_action(
            bytes,
            pos,
        ) == Err::<(BookAction, int), SbeDecodeError>(
            SbeDecodeError::InvalidEnumValue { value: bytes[pos] },
        ),
{
    if 0 <= pos < bytes.len() {
        assert(bytes.subrange(pos, pos + 1)[0] == bytes[pos]);
    }
}

/// Decoding a delta takes its action from its first byte by the same table: 1 add,
/// 2 update, 3 delete, 4 clear.
pub proof fn lemma_decode_delta_action(bytes: Seq<u8>, pos: int)
    ensures
        spec_decode_delta(bytes, pos) matches Ok((d, _)) ==> 0 <= pos < bytes.len() && (
        bytes[pos] == 1 && d.action is Add || bytes[pos] == 2 && d.action is Update || bytes[pos]
            == 3 && d.action is Delete || bytes[pos] == 4 && d.action is Clear),
{
    reveal(spec_decode_delta);
    lemma_decode_action_table(bytes, pos);
}

/// An encoded book order holds 19 bytes before its order identifier (price, size, side),
/// the last of them its side: 0 for no side, 1 for a buy, 2 for a sell.
pub proof fn lemma_book_order_side_byte(o: BookOrder)
    ensures
        book_order_bytes(o).len() == 27,
        o.side is NoOrderSide ==> book_order_bytes(o)[18] == 0,
        o.side is Buy ==> book_order_bytes(o)[18] == 1,
        o.side is Sell ==> book_order_bytes(o)[18] == 2,
{
}

/// Reading an order side at `pos`: byte 0 is no side, 1 a buy, 2 a sell; any other byte
/// is rejected as that value.
pub proof fn lemma_decode_side_table(bytes: Seq<u8>, pos: int)
    ensures
        0 <= pos < bytes.len() && bytes[pos] == 0 ==> spec_decode_side(bytes, pos) == Ok::<
            (OrderSide, int),
            SbeDecodeError,
        >((OrderSide::NoOrderSide, pos + 1)),
        0 <= pos < bytes.len() && bytes[pos] == 1 ==> spec_decode_side(bytes, pos) == Ok::<
            (OrderSide, int),
            SbeDecodeError,
        >((OrderSide::Buy, pos + 1)),
        0 <= pos < bytes.len() && bytes[pos] == 2 ==> spec_decode_side(bytes, pos) == Ok::<
            (OrderSide, int),
            SbeDecodeError,
        >((OrderSide::Sell, pos + 1)),
        0 <= pos < bytes.len() && bytes[pos] > 2 ==> spec_decode_side(bytes, pos) == Err::<
            (OrderSide, int),
            SbeDecodeError,
        >(SbeDecodeError::InvalidEnumValue { value: bytes[pos] }),
{
    if 0 <= pos < bytes.len() {
        assert(bytes.subrange(pos, pos + 1)[0] == bytes[pos]);
    }
}

} // verus!
