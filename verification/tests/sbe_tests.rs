use nautilus_coinbase::model::{
    instrument_id_from_product, BookAction, BookOrder, InstrumentId, OrderBookDelta,
    OrderBookDeltas, OrderBookDepth10, OrderSide, Price, Quantity,
};
use nautilus_coinbase::sbe::book::{
    ORDER_BOOK_DELTA_GROUP_BLOCK_LENGTH, ORDER_BOOK_DEPTH10_BLOCK_LENGTH,
};
use nautilus_coinbase::sbe::{SbeCursor, SbeDecodeError, SbeEncodeError};

fn order(side: OrderSide, raw: i64, size: u64, id: u64) -> BookOrder {
    BookOrder::new(side, Price { raw, precision: 2 }, Quantity { raw: size, precision: 8 }, id)
}

fn delta(id: InstrumentId, action: BookAction, o: BookOrder, seq: u64) -> OrderBookDelta {
    OrderBookDelta {
        instrument_id: id,
        action,
        order: o,
        flags: 0,
        sequence: seq,
        ts_event: 1_000 + seq,
        ts_init: 2_000 + seq,
    }
}

#[test]
fn test_book_order_round_trip() {
    let o = order(OrderSide::Sell, -12_345, 678, 9);
    let mut buf = Vec::new();
    o.encode_body(&mut buf).unwrap();
    assert_eq!(buf.len(), 27);
    let mut cursor = SbeCursor::new(&buf);
    assert_eq!(BookOrder::decode_body(&mut cursor), Ok(o));
    assert_eq!(cursor.remaining(), 0);
}

#[test]
fn test_book_order_layout_is_little_endian() {
    let o = order(OrderSide::Buy, 0x0102, 3, 0x0a0b);
    let mut buf = Vec::new();
    o.encode_body(&mut buf).unwrap();
    assert_eq!(&buf[0..9], &[0x02, 0x01, 0, 0, 0, 0, 0, 0, 2]);
    assert_eq!(&buf[9..18], &[3, 0, 0, 0, 0, 0, 0, 0, 8]);
    assert_eq!(buf[18], 1);
    assert_eq!(&buf[19..27], &[0x0b, 0x0a, 0, 0, 0, 0, 0, 0]);
}

#[test]
fn test_delta_round_trip() {
    let d = delta(instrument_id_from_product("BTC-USD"), BookAction::Update, order(OrderSide::Buy, 100, 5, 1), 42);
    let mut buf = Vec::new();
    d.encode_body(&mut buf).unwrap();
    assert_eq!(buf.len(), d.encoded_body_size());
    assert_eq!(buf.len(), ORDER_BOOK_DELTA_GROUP_BLOCK_LENGTH as usize + 2 + 7 + 8);
    let mut cursor = SbeCursor::new(&buf);
    assert_eq!(OrderBookDelta::decode_body(&mut cursor), Ok(d));
}

#[test]
fn test_deltas_round_trip() {
    let id = instrument_id_from_product("ETH-USD");
    let deltas = vec![
        delta(id.clone(), BookAction::Clear, BookOrder::null(), 1),
        delta(id.clone(), BookAction::Add, order(OrderSide::Buy, 250_000, 10, 0), 2),
        delta(id.clone(), BookAction::Delete, order(OrderSide::Sell, 250_100, 0, 0), 3),
    ];
    let batch = OrderBookDeltas::new_checked(id, deltas).unwrap();
    let mut buf = Vec::new();
    batch.encode_body(&mut buf).unwrap();
    assert_eq!(buf.len(), batch.encoded_body_size());
    buf.extend_from_slice(&[0xff, 0xee]);
    let mut cursor = SbeCursor::new(&buf);
    assert_eq!(OrderBookDeltas::decode_body(&mut cursor), Ok(batch));
    assert_eq!(cursor.remaining(), 2);
}

#[test]
fn test_depth10_round_trip() {
    let mut bids = [BookOrder::null(); 10];
    let mut asks = [BookOrder::null(); 10];
    for i in 0..10 {
        bids[i] = order(OrderSide::Buy, 1_000 - i as i64, 1 + i as u64, 0);
        asks[i] = order(OrderSide::Sell, 1_001 + i as i64, 2 + i as u64, 0);
    }
    let depth = OrderBookDepth10 {
        instrument_id: instrument_id_from_product("BTC-USD"),
        bids,
        asks,
        bid_counts: [1; 10],
        ask_counts: [2; 10],
        flags: 128,
        sequence: 77,
        ts_event: 5,
        ts_init: 6,
    };
    let mut buf = Vec::new();
    depth.encode_body(&mut buf).unwrap();
    assert_eq!(buf.len(), depth.encoded_body_size());
    assert_eq!(buf.len(), ORDER_BOOK_DEPTH10_BLOCK_LENGTH as usize + 2 + 7 + 8);
    let mut cursor = SbeCursor::new(&buf);
    assert_eq!(OrderBookDepth10::decode_body(&mut cursor), Ok(depth));
}

#[test]
fn test_depth10_decode_drops_order_ids() {
    let mut bids = [BookOrder::null(); 10];
    bids[0] = order(OrderSide::Sell, 5, 5, 99);
    let depth = OrderBookDepth10 {
        instrument_id: instrument_id_from_product("BTC-USD"),
        bids,
        asks: [BookOrder::null(); 10],
        bid_counts: [0; 10],
        ask_counts: [0; 10],
        flags: 0,
        sequence: 0,
        ts_event: 0,
        ts_init: 0,
    };
    let mut buf = Vec::new();
    depth.encode_body(&mut buf).unwrap();
    let decoded = OrderBookDepth10::decode_body(&mut SbeCursor::new(&buf)).unwrap();
    assert_eq!(decoded.bids[0].side, OrderSide::Buy);
    assert_eq!(decoded.bids[0].order_id, 0);
    assert_eq!(decoded.bids[0].price, depth.bids[0].price);
    assert_eq!(decoded.asks[0].side, OrderSide::Sell);
}

#[test]
fn test_decode_errors() {
    let d = delta(instrument_id_from_product("BTC-USD"), BookAction::Add, order(OrderSide::Buy, 1, 1, 1), 1);
    let mut buf = Vec::new();
    d.encode_body(&mut buf).unwrap();
    let short = &buf[..buf.len() - 1];
    assert_eq!(OrderBookDelta::decode_body(&mut SbeCursor::new(short)), Err(SbeDecodeError::BufferTooShort));
    let mut bad_action = buf.clone();
    bad_action[0] = 9;
    assert_eq!(
        OrderBookDelta::decode_body(&mut SbeCursor::new(&bad_action)),
        Err(SbeDecodeError::InvalidEnumValue { value: 9 })
    );
    let mut bad_side = buf.clone();
    bad_side[1 + 18] = 7;
    assert_eq!(
        OrderBookDelta::decode_body(&mut SbeCursor::new(&bad_side)),
        Err(SbeDecodeError::InvalidEnumValue { value: 7 })
    );
    let mut bad_utf8 = buf.clone();
    bad_utf8[53 + 1] = 0xff;
    assert_eq!(OrderBookDelta::decode_body(&mut SbeCursor::new(&bad_utf8)), Err(SbeDecodeError::InvalidUtf8));
}

#[test]
fn test_deltas_block_length_checked() {
    let id = instrument_id_from_product("BTC-USD");
    let batch = OrderBookDeltas::new_checked(id.clone(), vec![delta(id, BookAction::Add, order(OrderSide::Buy, 1, 1, 1), 1)]).unwrap();
    let mut buf = Vec::new();
    batch.encode_body(&mut buf).unwrap();
    let header_at = 25 + 2 + 7 + 8;
    buf[header_at] = 52;
    assert_eq!(
        OrderBookDeltas::decode_body(&mut SbeCursor::new(&buf)),
        Err(SbeDecodeError::InvalidBlockLength { expected: 53, actual: 52 })
    );
}

#[test]
fn test_encode_rejects_long_symbol() {
    let id = InstrumentId { symbol: "X".repeat(256), venue: "COINBASE".to_string() };
    let d = delta(id, BookAction::Add, order(OrderSide::Buy, 1, 1, 1), 1);
    let mut buf = Vec::new();
    assert_eq!(d.encode_body(&mut buf), Err(SbeEncodeError::StringTooLong { len: 256 }));
    assert_eq!(buf.len(), 53);
}
