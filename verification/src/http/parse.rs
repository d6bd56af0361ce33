//! Parsing functions for converting Coinbase API responses to domain types.

use crate::common::enums::{CoinbaseContractExpiryType, CoinbaseOrderSide, CoinbaseProductType};
use crate::http::models::{BookLevel, Candle, PriceBook, Product, Trade};
use crate::model::{
    instrument_id_from_product, spec_parse_price, spec_parse_quantity, spec_quantity_from_str,
    spec_price_from_str, AggressorSide, Bar, BarType, BookAction, BookOrder, CryptoFuture,
    CryptoPerpetual, CurrencyPair, DataError, InstrumentAny, InstrumentId, OrderBookDelta,
    OrderBookDeltas, OrderSide, Price, Quantity, TradeTick, UnixNanos, COINBASE, F_LAST, F_MBP,
    F_SNAPSHOT,
};
use crate::decimal::parse_decimal;
use crate::string::{
    chars_of, first_whitespace_word, string_from_chars, first_word, parse_u64, seq_contains, spec_parse_u64,
    str_contains,
};
use chrono::DateTime;
use vstd::prelude::*;
use vstd::utf8::encode_utf8;

verus! {

/// What `chrono::DateTime::parse_from_rfc3339` yields for a string, taken as nanoseconds
/// since the UNIX epoch: `None` when the string is not an RFC 3339 date-time, `Some(None)`
/// when its nanosecond count does not fit in an `i64`.
pub uninterp spec fn rfc3339_nanos(s: Seq<char>) -> Option<Option<i64>>;

/// Calls `chrono::DateTime::parse_from_rfc3339` and converts the parsed date-time to its
/// nanosecond count with `timestamp_nanos_opt`.
#[verifier::external_body]
fn rfc3339_to_nanos(s: &str) -> (r: Option<Option<i64>>)
    ensures
        r == rfc3339_nanos(s@),
{
    match DateTime::parse_from_rfc3339(s) {
        Ok(dt) => Some(dt.timestamp_nanos_opt()),
        Err(_) => None,
    }
}

/// What parsing an RFC 3339 timestamp gives.
pub open spec fn spec_parse_rfc3339(s: Seq<char>) -> Result<UnixNanos, DataError> {
    match rfc3339_nanos(s) {
        None => Err(DataError::InvalidTimestamp),
        Some(None) => Err(DataError::TimestampOutOfRange),
        Some(Some(n)) => if n < 0 {
            Err(DataError::NegativeTimestamp)
        } else {
            Ok(n as u64)
        },
    }
}

/// Parses an RFC 3339 timestamp string to nanoseconds since the UNIX epoch.
pub fn parse_rfc3339_timestamp(timestamp: &str) -> (r: Result<UnixNanos, DataError>)
    ensures
        r == spec_parse_rfc3339(timestamp@),
{
    match rfc3339_to_nanos(timestamp) {
        None => Err(DataError::InvalidTimestamp),
        Some(None) => Err(DataError::TimestampOutOfRange),
        Some(Some(n)) => {
            if n < 0 {
                Err(DataError::NegativeTimestamp)
            } else {
                Ok(n as u64)
            }
        },
    }
}

/// The number of epoch seconds in `s`, if any, can be expressed in `u64` nanoseconds.
pub open spec fn epoch_secs_fit(s: Seq<char>) -> bool {
    spec_parse_u64(s) matches Some(v) ==> v * 1_000_000_000 <= u64::MAX
}

/// Whether the epoch seconds in `s`, if any, can be expressed in `u64` nanoseconds.
pub fn epoch_secs_in_range(s: &str) -> (b: bool)
    ensures
        b == epoch_secs_fit(s@),
{
    match parse_u64(s) {
        None => true,
        Some(v) => v <= u64::MAX / 1_000_000_000,
    }
}

/// What parsing epoch seconds gives.
pub open spec fn spec_parse_epoch_secs(s: Seq<char>) -> Result<UnixNanos, DataError> {
    match spec_parse_u64(s) {
        None => Err(DataError::InvalidInteger),
        Some(v) => Ok((v * 1_000_000_000) as u64),
    }
}

/// Parses a Unix epoch seconds string to nanoseconds.
pub fn parse_epoch_secs_timestamp(epoch_secs: &str) -> (r: Result<UnixNanos, DataError>)
    requires
        epoch_secs_fit(epoch_secs@),
    ensures
        r == spec_parse_epoch_secs(epoch_secs@),
{
    match parse_u64(epoch_secs) {
        None => Err(DataError::InvalidInteger),
        Some(secs) => Ok(secs * 1_000_000_000),
    }
}

/// Parses a price string with the given precision.
pub fn parse_price(value: &str, precision: u8) -> (r: Result<Price, DataError>)
    ensures
        r == spec_parse_price(value@, precision as nat),
{
    match parse_decimal(value) {
        None => Err(DataError::InvalidDecimal),
        Some((m, sc)) => Price::from_decimal_dp(m, sc, precision),
    }
}

/// Parses a quantity string with the given precision.
pub fn parse_quantity(value: &str, precision: u8) -> (r: Result<Quantity, DataError>)
    ensures
        r == spec_parse_quantity(value@, precision as nat),
{
    match parse_decimal(value) {
        None => Err(DataError::InvalidDecimal),
        Some((m, sc)) => Quantity::from_decimal_dp(m, sc, precision),
    }
}

/// Index of the first `'.'` in `s`, if any.
pub open spec fn find_dot(s: Seq<char>) -> Option<int>
    decreases s.len(),
{
    if s.len() == 0 {
        None
    } else if s[0] == '.' {
        Some(0)
    } else {
        match find_dot(s.drop_first()) {
            Some(k) => Some(k + 1),
            None => None,
        }
    }
}

/// Length of `s` once trailing `'0'`s are dropped.
pub open spec fn trimmed_zeros_len(s: Seq<char>) -> nat
    decreases s.len(),
{
    if s.len() == 0 {
        0
    } else if s.last() == '0' {
        trimmed_zeros_len(s.drop_last())
    } else {
        s.len()
    }
}

/// The precision of an increment: the UTF-8 byte length of what follows the first `'.'`
/// once trailing zeros are dropped (reduced modulo 256), or zero without a `'.'`.
pub open spec fn spec_precision_from_increment(s: Seq<char>) -> u8 {
    match find_dot(s) {
        None => 0,
        Some(pos) => {
            let decimals = s.skip(pos + 1);
            (encode_utf8(decimals.take(trimmed_zeros_len(decimals) as int)).len() % 256) as u8
        },
    }
}

proof fn lemma_find_dot(s: Seq<char>, k: int)
    requires
        0 <= k <= s.len(),
        forall|j: int| 0 <= j < k ==> s[j] != '.',
    ensures
        k < s.len() && s[k] == '.' ==> find_dot(s) == Some(k),
        k == s.len() ==> find_dot(s) is None,
    decreases k,
{
    if k > 0 {
        lemma_find_dot(s.drop_first(), k - 1);
    }
}

proof fn lemma_find_dot_push(s: Seq<char>, c: char)
    ensures
        find_dot(s) matches Some(k) ==> find_dot(s.push(c)) == Some(k) && 0 <= k < s.len(),
        find_dot(s) is None ==> forall|i: int| 0 <= i < s.len() ==> s[i] != '.',
    decreases s.len(),
{
    if s.len() > 0 {
        lemma_find_dot_push(s.drop_first(), c);
        assert(s.push(c).drop_first() =~= s.drop_first().push(c));
        if find_dot(s) is None {
            assert forall|i: int| 0 <= i < s.len() implies s[i] != '.' by {
                if i > 0 {
                    assert(s[i] == s.drop_first()[i - 1]);
                }
            }
        }
    }
}

proof fn lemma_trimmed_zeros_len_bound(s: Seq<char>)
    ensures
        trimmed_zeros_len(s) <= s.len(),
    decreases s.len(),
{
    if s.len() > 0 {
        lemma_trimmed_zeros_len_bound(s.drop_last());
    }
}

/// Appending a `'0'` to an increment that holds a `'.'` leaves its precision unchanged.
pub proof fn lemma_precision_ignores_trailing_zero(s: Seq<char>)
    requires
        s.contains('.'),
    ensures
        spec_precision_from_increment(s.push('0')) == spec_precision_from_increment(s),
{
    lemma_find_dot_push(s, '0');
    let k = choose|k: int| 0 <= k < s.len() && s[k] == '.';
    assert(s[k] == '.');
    assert(find_dot(s) is Some);
    let pos = find_dot(s)->0;
    assert(find_dot(s.push('0')) == Some(pos));
    let d = s.skip(pos + 1);
    let d2 = s.push('0').skip(pos + 1);
    assert(d2 =~= d.push('0'));
    assert(d2.drop_last() =~= d);
    assert(trimmed_zeros_len(d2) == trimmed_zeros_len(d));
    lemma_trimmed_zeros_len_bound(d);
    assert(d2.take(trimmed_zeros_len(d2) as int) =~= d.take(trimmed_zeros_len(d) as int));
}

/// Derives precision (number of decimal places) from an increment string.
///
/// For example, `"0.01"` returns 2, `"0.00000001"` returns 8, `"1"` returns 0.
pub fn precision_from_increment(increment: &str) -> (p: u8)
    ensures
        p == spec_precision_from_increment(increment@),
{
    let chars = chars_of(increment);
    let mut pos: usize = 0;
    while pos < chars.len() && chars[pos] != '.'
        invariant
            chars@ == increment@,
            pos <= chars.len(),
            forall|j: int| 0 <= j < pos ==> chars@[j] != '.',
        decreases chars.len() - pos,
    {
        pos += 1;
    }
    proof {
        lemma_find_dot(increment@, pos as int);
    }
    if pos == chars.len() {
        return 0;
    }
    // Decimals are `chars[pos + 1..]`; drop trailing zeros.
    let mut end = chars.len();
    while end > pos + 1 && chars[end - 1] == '0'
        invariant
            chars@ == increment@,
            pos + 1 <= end <= chars.len(),
            trimmed_zeros_len(chars@.skip(pos + 1)) == trimmed_zeros_len(
                chars@.subrange(pos + 1, end as int),
            ),
        decreases end,
    {
        proof {
            let t = chars@.subrange(pos + 1, end as int);
            assert(t.drop_last() =~= chars@.subrange(pos + 1, end - 1));
        }
        end -= 1;
    }
    proof {
        assert(chars@.skip(pos + 1) =~= chars@.subrange(pos + 1, chars.len() as int));
        let t = chars@.subrange(pos + 1, end as int);
        if t.len() > 0 {
            assert(t.last() != '0');
        }
    }
    let mut trimmed: Vec<char> = Vec::new();
    let mut k: usize = pos + 1;
    while k < end
        invariant
            chars@ == increment@,
            pos + 1 <= k <= end <= chars.len(),
            trimmed@ == chars@.subrange(pos + 1, k as int),
        decreases end - k,
    {
        trimmed.push(chars[k]);
        proof {
            assert(chars@.subrange(pos + 1, k + 1) =~= chars@.subrange(pos + 1, k as int).push(
                chars@[k as int],
            ));
        }
        k += 1;
    }
    let text = string_from_chars(&trimmed);
    let trimmed_len: usize = text.as_str().as_bytes().len();
    proof {
        let decimals = increment@.skip(pos + 1);
        assert(decimals.take(trimmed_zeros_len(decimals) as int) =~= trimmed@);
    }
    (trimmed_len % 256) as u8
}

/// The aggressor side of a Coinbase order side.
pub open spec fn spec_side_to_aggressor(side: CoinbaseOrderSide) -> AggressorSide {
    match side {
        CoinbaseOrderSide::Buy => AggressorSide::Buyer,
        CoinbaseOrderSide::Sell => AggressorSide::Seller,
        CoinbaseOrderSide::Unknown => AggressorSide::NoAggressor,
    }
}

/// Converts a Coinbase order side to an aggressor side.
pub fn coinbase_side_to_aggressor(side: &CoinbaseOrderSide) -> (a: AggressorSide)
    ensures
        a == spec_side_to_aggressor(*side),
{
    match side {
        CoinbaseOrderSide::Buy => AggressorSide::Buyer,
        CoinbaseOrderSide::Sell => AggressorSide::Seller,
        CoinbaseOrderSide::Unknown => AggressorSide::NoAggressor,
    }
}

/// An optional quantity: none for an empty string or `"0"`, else the quantity with the
/// string's own number of decimals.
pub open spec fn spec_optional_quantity(s: Seq<char>) -> Result<Option<Quantity>, DataError> {
    if s.len() == 0 || s == seq!['0'] {
        Ok(None)
    } else {
        match spec_quantity_from_str(s) {
            Ok(q) => Ok(Some(q)),
            Err(e) => Err(e),
        }
    }
}

fn is_zero_string(value: &str) -> (b: bool)
    ensures
        b == (value@ == seq!['0']),
{
    let chars = chars_of(value);
    if chars.len() == 1 && chars[0] == '0' {
        proof {
            assert(value@ =~= seq!['0']);
        }
        true
    } else {
        proof {
            if value@ == seq!['0'] {
                assert(value@.len() == 1 && value@[0] == '0');
            }
        }
        false
    }
}

/// Parses an optional quantity from a string, returning `None` for empty or zero.
fn parse_optional_quantity(value: &str) -> (r: Result<Option<Quantity>, DataError>)
    ensures
        r == spec_optional_quantity(value@),
{
    if value.is_empty() || is_zero_string(value) {
        Ok(None)
    } else {
        match Quantity::from_decimal_str(value) {
            Ok(q) => Ok(Some(q)),
            Err(e) => Err(e),
        }
    }
}

/// The base currency code: `base_currency_id`, or when it is empty (Coinbase futures) the
/// first word of `display_name`, or `"UNKNOWN"`.
pub open spec fn spec_base_currency(product: Product) -> Seq<char> {
    if product.base_currency_id@.len() == 0 {
        match first_word(product.display_name@) {
            Some(w) => w,
            None => "UNKNOWN"@,
        }
    } else {
        product.base_currency_id@
    }
}

/// Derives the base currency from the product, falling back to the first word in
/// `display_name` when `base_currency_id` is empty (Coinbase futures).
fn derive_base_currency(product: &Product) -> (c: String)
    ensures
        c@ == spec_base_currency(*product),
{
    if product.base_currency_id.as_str().is_empty() {
        match first_whitespace_word(product.display_name.as_str()) {
            Some(w) => w,
            None => "UNKNOWN".to_owned(),
        }
    } else {
        product.base_currency_id.clone()
    }
}

/// The contract size of a futures product as a multiplier: none without details or for an
/// empty or `"0"` contract size.
pub open spec fn spec_contract_size_multiplier(product: Product) -> Result<
    Option<Quantity>,
    DataError,
> {
    match product.future_product_details {
        None => Ok(None),
        Some(d) => spec_optional_quantity(d.contract_size@),
    }
}

/// Extracts the contract size as a multiplier from future product details.
fn contract_size_multiplier(product: &Product) -> (r: Result<Option<Quantity>, DataError>)
    ensures
        r == spec_contract_size_multiplier(*product),
{
    match &product.future_product_details {
        None => Ok(None),
        Some(d) => parse_optional_quantity(d.contract_size.as_str()),
    }
}

/// Increments and size limits shared by all instrument kinds, or the first error in the
/// order price increment, size increment, minimum, maximum.
pub struct ProductLimits {
    pub price_increment: Price,
    pub size_increment: Quantity,
    pub min_quantity: Option<Quantity>,
    pub max_quantity: Option<Quantity>,
}

pub open spec fn spec_product_limits(product: Product) -> Result<ProductLimits, DataError> {
    match spec_price_from_str(product.price_increment@) {
        Err(e) => Err(e),
        Ok(price_increment) => match spec_quantity_from_str(product.base_increment@) {
            Err(e) => Err(e),
            Ok(size_increment) => match spec_optional_quantity(product.base_min_size@) {
                Err(e) => Err(e),
                Ok(min_quantity) => match spec_optional_quantity(product.base_max_size@) {
                    Err(e) => Err(e),
                    Ok(max_quantity) => Ok(
                        ProductLimits { price_increment, size_increment, min_quantity, max_quantity },
                    ),
                },
            },
        },
    }
}

fn product_limits(product: &Product) -> (r: Result<ProductLimits, DataError>)
    ensures
        r == spec_product_limits(*product),
{
    let price_increment = Price::from_decimal_str(product.price_increment.as_str())?;
    let size_increment = Quantity::from_decimal_str(product.base_increment.as_str())?;
    let min_quantity = parse_optional_quantity(product.base_min_size.as_str())?;
    let max_quantity = parse_optional_quantity(product.base_max_size.as_str())?;
    Ok(ProductLimits { price_increment, size_increment, min_quantity, max_quantity })
}

/// `id` is the identifier of the product `product_id` at the Coinbase venue.
pub open spec fn is_coinbase_id(id: InstrumentId, product_id: Seq<char>) -> bool {
    id.symbol@ == product_id && id.venue@ == COINBASE@
}

/// The fields that every instrument parsed from `product` shares.
pub open spec fn common_fields(
    product: Product,
    limits: ProductLimits,
    id: InstrumentId,
    raw_symbol: String,
    quote_currency: String,
    price_precision: u8,
    size_precision: u8,
    price_increment: Price,
    size_increment: Quantity,
    min_quantity: Option<Quantity>,
    max_quantity: Option<Quantity>,
) -> bool {
    &&& is_coinbase_id(id, product.product_id@)
    &&& raw_symbol@ == product.product_id@
    &&& quote_currency@ == product.quote_currency_id@
    &&& price_precision == spec_precision_from_increment(product.price_increment@)
    &&& size_precision == spec_precision_from_increment(product.base_increment@)
    &&& price_increment == limits.price_increment
    &&& size_increment == limits.size_increment
    &&& min_quantity == limits.min_quantity
    &&& max_quantity == limits.max_quantity
}

/// `p` is the currency pair that a spot `product` describes.
pub open spec fn is_spot_pair(product: Product, limits: ProductLimits, ts_init: UnixNanos, p: CurrencyPair) -> bool {
    &&& common_fields(
        product,
        limits,
        p.id,
        p.raw_symbol,
        p.quote_currency,
        p.price_precision,
        p.size_precision,
        p.price_increment,
        p.size_increment,
        p.min_quantity,
        p.max_quantity,
    )
    &&& p.base_currency@ == product.base_currency_id@
    &&& p.ts_event == ts_init
    &&& p.ts_init == ts_init
}

/// `p` is the perpetual that a futures `product` describes.
pub open spec fn is_perpetual(
    product: Product,
    limits: ProductLimits,
    multiplier: Option<Quantity>,
    ts_init: UnixNanos,
    p: CryptoPerpetual,
) -> bool {
    &&& common_fields(
        product,
        limits,
        p.id,
        p.raw_symbol,
        p.quote_currency,
        p.price_precision,
        p.size_precision,
        p.price_increment,
        p.size_increment,
        p.min_quantity,
        p.max_quantity,
    )
    &&& p.base_currency@ == spec_base_currency(product)
    &&& p.settlement_currency@ == product.quote_currency_id@
    &&& !p.is_inverse
    &&& p.multiplier == multiplier
    &&& p.ts_event == ts_init
    &&& p.ts_init == ts_init
}

/// `f` is the dated future that a futures `product` describes.
pub open spec fn is_dated_future(
    product: Product,
    limits: ProductLimits,
    multiplier: Option<Quantity>,
    expiration_ns: UnixNanos,
    ts_init: UnixNanos,
    f: CryptoFuture,
) -> bool {
    &&& common_fields(
        product,
        limits,
        f.id,
        f.raw_symbol,
        f.quote_currency,
        f.price_precision,
        f.size_precision,
        f.price_increment,
        f.size_increment,
        f.min_quantity,
        f.max_quantity,
    )
    &&& f.underlying@ == spec_base_currency(product)
    &&& f.settlement_currency@ == product.quote_currency_id@
    &&& !f.is_inverse
    &&& f.activation_ns == ts_init
    &&& f.expiration_ns == expiration_ns
    &&& f.multiplier == multiplier
    &&& f.ts_event == ts_init
    &&& f.ts_init == ts_init
}

/// The contract expiry text of a product: empty without futures details.
pub open spec fn contract_expiry_of(product: Product) -> Seq<char> {
    match product.future_product_details {
        Some(d) => d.contract_expiry@,
        None => Seq::empty(),
    }
}

/// The expiry of a dated future, or why there is none.
pub open spec fn spec_future_expiry(product: Product) -> Result<UnixNanos, DataError> {
    if contract_expiry_of(product).len() == 0 {
        Err(DataError::MissingContractExpiry)
    } else {
        spec_parse_rfc3339(contract_expiry_of(product))
    }
}

/// Parses a Coinbase spot product into a currency pair.
pub fn parse_spot_instrument(product: &Product, ts_init: UnixNanos) -> (r: Result<
    InstrumentAny,
    DataError,
>)
    ensures
        spec_product_limits(*product) matches Err(e) ==> r == Err::<InstrumentAny, DataError>(e),
        spec_product_limits(*product) matches Ok(limits) ==> (r matches Ok(
            InstrumentAny::CurrencyPair(p),
        ) && is_spot_pair(*product, limits, ts_init, p)),
{
    let limits = product_limits(product)?;
    let instrument_id = instrument_id_from_product(product.product_id.as_str());
    let price_precision = precision_from_increment(product.price_increment.as_str());
    let size_precision = precision_from_increment(product.base_increment.as_str());
    let pair = CurrencyPair {
        id: instrument_id,
        raw_symbol: product.product_id.clone(),
        base_currency: product.base_currency_id.clone(),
        quote_currency: product.quote_currency_id.clone(),
        price_precision,
        size_precision,
        price_increment: limits.price_increment,
        size_increment: limits.size_increment,
        max_quantity: limits.max_quantity,
        min_quantity: limits.min_quantity,
        ts_event: ts_init,
        ts_init,
    };
    Ok(InstrumentAny::CurrencyPair(pair))
}

/// Parses a Coinbase perpetual futures product into a perpetual.
pub fn parse_perpetual_instrument(product: &Product, ts_init: UnixNanos) -> (r: Result<
    InstrumentAny,
    DataError,
>)
    ensures
        spec_product_limits(*product) matches Err(e) ==> r == Err::<InstrumentAny, DataError>(e),
        spec_product_limits(*product) is Ok ==> (spec_contract_size_multiplier(*product) matches Err(
            e,
        ) ==> r == Err::<InstrumentAny, DataError>(e)),
        spec_product_limits(*product) matches Ok(limits) ==> (spec_contract_size_multiplier(
            *product,
        ) matches Ok(m) ==> (r matches Ok(InstrumentAny::CryptoPerpetual(p)) && is_perpetual(
            *product,
            limits,
            m,
            ts_init,
            p,
        ))),
{
    let limits = product_limits(product)?;
    let instrument_id = instrument_id_from_product(product.product_id.as_str());
    let base_currency = derive_base_currency(product);
    let price_precision = precision_from_increment(product.price_increment.as_str());
    let size_precision = precision_from_increment(product.base_increment.as_str());
    let multiplier = contract_size_multiplier(product)?;
    let perp = CryptoPerpetual {
        id: instrument_id,
        raw_symbol: product.product_id.clone(),
        base_currency,
        quote_currency: product.quote_currency_id.clone(),
        settlement_currency: product.quote_currency_id.clone(),
        is_inverse: false,
        price_precision,
        size_precision,
        price_increment: limits.price_increment,
        size_increment: limits.size_increment,
        multiplier,
        max_quantity: limits.max_quantity,
        min_quantity: limits.min_quantity,
        ts_event: ts_init,
        ts_init,
    };
    Ok(InstrumentAny::CryptoPerpetual(perp))
}

/// Parses a Coinbase dated future into a dated future.
pub fn parse_future_instrument(product: &Product, ts_init: UnixNanos) -> (r: Result<
    InstrumentAny,
    DataError,
>)
    ensures
        spec_product_limits(*product) matches Err(e) ==> r == Err::<InstrumentAny, DataError>(e),
        spec_product_limits(*product) is Ok ==> (spec_future_expiry(*product) matches Err(e) ==> r
            == Err::<InstrumentAny, DataError>(e)),
        spec_product_limits(*product) is Ok && spec_future_expiry(*product) is Ok ==> (
        spec_contract_size_multiplier(*product) matches Err(e) ==> r == Err::<
            InstrumentAny,
            DataError,
        >(e)),
        spec_product_limits(*product) matches Ok(limits) ==> (spec_future_expiry(*product) matches Ok(
            exp,
        ) ==> (spec_contract_size_multiplier(*product) matches Ok(m) ==> (r matches Ok(
            InstrumentAny::CryptoFuture(f),
        ) && is_dated_future(*product, limits, m, exp, ts_init, f)))),
{
    let limits = product_limits(product)?;
    let instrument_id = instrument_id_from_product(product.product_id.as_str());
    let underlying = derive_base_currency(product);
    let price_precision = precision_from_increment(product.price_increment.as_str());
    let size_precision = precision_from_increment(product.base_increment.as_str());
    let expiry_str: &str = match &product.future_product_details {
        Some(d) => d.contract_expiry.as_str(),
        None => "",
    };
    proof {
        if product.future_product_details is None {
            assert(expiry_str@.len() == 0) by {
                reveal_strlit("");
            }
        }
    }
    if expiry_str.is_empty() {
        return Err(DataError::MissingContractExpiry);
    }
    let expiration_ns = parse_rfc3339_timestamp(expiry_str)?;
    let multiplier = contract_size_multiplier(product)?;
    let future = CryptoFuture {
        id: instrument_id,
        raw_symbol: product.product_id.clone(),
        underlying,
        quote_currency: product.quote_currency_id.clone(),
        settlement_currency: product.quote_currency_id.clone(),
        is_inverse: false,
        activation_ns: ts_init,
        expiration_ns,
        price_precision,
        size_precision,
        price_increment: limits.price_increment,
        size_increment: limits.size_increment,
        multiplier,
        max_quantity: limits.max_quantity,
        min_quantity: limits.min_quantity,
        ts_event: ts_init,
        ts_init,
    };
    Ok(InstrumentAny::CryptoFuture(future))
}

/// Whether a futures product is a perpetual: its expiry type says so, it has a funding
/// rate, or its display name mentions `"PERP"` or `"Perpetual"`.
pub open spec fn spec_is_perpetual(product: Product) -> bool {
    ||| (product.future_product_details matches Some(d) && (d.contract_expiry_type
        == CoinbaseContractExpiryType::Perpetual || d.funding_rate@.len() > 0))
    ||| seq_contains(product.display_name@, "PERP"@)
    ||| seq_contains(product.display_name@, "Perpetual"@)
}

/// Determines whether a futures product is a perpetual contract.
///
/// Coinbase returns `contract_expiry_type: "EXPIRING"` for both perpetuals
/// and dated futures, so the `CoinbaseContractExpiryType::Perpetual` variant
/// alone is not sufficient. We check three signals in order:
///
/// 1. `contract_expiry_type == Perpetual` (forward compat if Coinbase fixes the API)
/// 2. Non-empty `funding_rate` in `future_product_details` (structural signal:
///    only perpetuals have ongoing funding)
/// 3. `display_name` contains "PERP" or "Perpetual" (heuristic fallback)
pub fn is_perpetual_product(product: &Product) -> (b: bool)
    ensures
        b == spec_is_perpetual(*product),
{
    if let Some(details) = &product.future_product_details {
        if details.contract_expiry_type == CoinbaseContractExpiryType::Perpetual {
            return true;
        }
        if !details.funding_rate.as_str().is_empty() {
            return true;
        }
    }
    str_contains(product.display_name.as_str(), "PERP") || str_contains(
        product.display_name.as_str(),
        "Perpetual",
    )
}

/// Parses a Coinbase product into the matching instrument kind: spot products into
/// currency pairs, futures into perpetuals or dated futures.
pub fn parse_instrument(product: &Product, ts_init: UnixNanos) -> (r: Result<
    InstrumentAny,
    DataError,
>)
    ensures
        product.product_type == CoinbaseProductType::Unknown ==> r == Err::<
            InstrumentAny,
            DataError,
        >(DataError::UnknownProductType),
        product.product_type == CoinbaseProductType::Spot ==> (r is Ok ==> r->Ok_0
            is CurrencyPair),
        product.product_type == CoinbaseProductType::Spot ==> (spec_product_limits(*product) is Ok
            <==> r is Ok),
        product.product_type == CoinbaseProductType::Future && spec_is_perpetual(*product) ==> (r
            is Ok ==> r->Ok_0 is CryptoPerpetual),
        product.product_type == CoinbaseProductType::Future && !spec_is_perpetual(*product) ==> (r
            is Ok ==> r->Ok_0 is CryptoFuture),
        r matches Ok(InstrumentAny::CurrencyPair(p)) ==> (spec_product_limits(*product) matches Ok(
            limits,
        ) && is_spot_pair(*product, limits, ts_init, p)),
        r matches Ok(InstrumentAny::CryptoPerpetual(p)) ==> (spec_product_limits(*product) matches Ok(
            limits,
        ) && spec_contract_size_multiplier(*product) matches Ok(m) && is_perpetual(
            *product,
            limits,
            m,
            ts_init,
            p,
        )),
        r matches Ok(InstrumentAny::CryptoFuture(f)) ==> (spec_product_limits(*product) matches Ok(
            limits,
        ) && spec_future_expiry(*product) matches Ok(exp) && spec_contract_size_multiplier(
            *product,
        ) matches Ok(m) && is_dated_future(*product, limits, m, exp, ts_init, f)),
        r is Err && product.product_type != CoinbaseProductType::Unknown ==> (spec_product_limits(
            *product,
        ) is Err || spec_contract_size_multiplier(*product) is Err || (
        product.product_type == CoinbaseProductType::Future && !spec_is_perpetual(*product)
            && spec_future_expiry(*product) is Err)),
{
    match product.product_type {
        CoinbaseProductType::Spot => parse_spot_instrument(product, ts_init),
        CoinbaseProductType::Future => {
            if is_perpetual_product(product) {
                parse_perpetual_instrument(product, ts_init)
            } else {
                parse_future_instrument(product, ts_init)
            }
        },
        CoinbaseProductType::Unknown => Err(DataError::UnknownProductType),
    }
}

/// Price, size and event time of a trade, or the first error among them.
pub open spec fn spec_trade_parts(
    price: Seq<char>,
    size: Seq<char>,
    time: Seq<char>,
    price_precision: u8,
    size_precision: u8,
) -> Result<(Price, Quantity, UnixNanos), DataError> {
    match spec_parse_price(price, price_precision as nat) {
        Err(e) => Err(e),
        Ok(p) => match spec_parse_quantity(size, size_precision as nat) {
            Err(e) => Err(e),
            Ok(q) => match spec_parse_rfc3339(time) {
                Err(e) => Err(e),
                Ok(ts) => Ok((p, q, ts)),
            },
        },
    }
}

/// Parses a Coinbase trade into a trade tick.
pub fn parse_trade_tick(
    trade: &Trade,
    instrument_id: InstrumentId,
    price_precision: u8,
    size_precision: u8,
    ts_init: UnixNanos,
) -> (r: Result<TradeTick, DataError>)
    ensures
        spec_trade_parts(trade.price@, trade.size@, trade.time@, price_precision, size_precision) matches Err(e) ==> r == Err::<
            TradeTick,
            DataError,
        >(e),
        spec_trade_parts(trade.price@, trade.size@, trade.time@, price_precision, size_precision) matches Ok((p, q, ts)) ==> (if q.raw
            == 0 {
            r == Err::<TradeTick, DataError>(DataError::NonPositiveSize)
        } else {
            r == Ok::<TradeTick, DataError>(
                TradeTick {
                    instrument_id,
                    price: p,
                    size: q,
                    aggressor_side: spec_side_to_aggressor(trade.side),
                    trade_id: trade.trade_id,
                    ts_event: ts,
                    ts_init,
                },
            )
        }),
{
    let price = parse_price(trade.price.as_str(), price_precision)?;
    let size = parse_quantity(trade.size.as_str(), size_precision)?;
    let aggressor_side = coinbase_side_to_aggressor(&trade.side);
    let trade_id = trade.trade_id.clone();
    let ts_event = parse_rfc3339_timestamp(trade.time.as_str())?;
    TradeTick::new_checked(instrument_id, price, size, aggressor_side, trade_id, ts_event, ts_init)
}

/// Open, high, low, close, volume and open time of a candle, or the first error among them.
pub open spec fn spec_candle_parts(
    open: Seq<char>,
    high: Seq<char>,
    low: Seq<char>,
    close: Seq<char>,
    volume: Seq<char>,
    start: Seq<char>,
    price_precision: u8,
    size_precision: u8,
) -> Result<(Price, Price, Price, Price, Quantity, UnixNanos), DataError> {
    match spec_parse_price(open, price_precision as nat) {
        Err(e) => Err(e),
        Ok(o) => match spec_parse_price(high, price_precision as nat) {
            Err(e) => Err(e),
            Ok(h) => match spec_parse_price(low, price_precision as nat) {
                Err(e) => Err(e),
                Ok(l) => match spec_parse_price(close, price_precision as nat) {
                    Err(e) => Err(e),
                    Ok(c) => match spec_parse_quantity(volume, size_precision as nat) {
                        Err(e) => Err(e),
                        Ok(v) => match spec_parse_epoch_secs(start) {
                            Err(e) => Err(e),
                            Ok(ts) => Ok((o, h, l, c, v, ts)),
                        },
                    },
                },
            },
        },
    }
}

/// The bar that candle parts give, or why they do not form one.
pub open spec fn spec_bar_from_parts(
    parts: Result<(Price, Price, Price, Price, Quantity, UnixNanos), DataError>,
    bar_type: BarType,
    ts_init: UnixNanos,
) -> Result<Bar, DataError> {
    match parts {
        Err(e) => Err(e),
        Ok((o, h, l, c, v, ts)) => if crate::model::bar_valid(o, h, l, c) {
            Ok(
                Bar {
                    bar_type,
                    open: o,
                    high: h,
                    low: l,
                    close: c,
                    volume: v,
                    ts_event: ts,
                    ts_init,
                },
            )
        } else {
            Err(DataError::InvalidBar)
        },
    }
}

/// Parses a Coinbase candle into a bar.
pub fn parse_bar(
    candle: &Candle,
    bar_type: BarType,
    price_precision: u8,
    size_precision: u8,
    ts_init: UnixNanos,
) -> (r: Result<Bar, DataError>)
    requires
        epoch_secs_fit(candle.start@),
    ensures
        r == spec_bar_from_parts(
            spec_candle_parts(
                candle.open@,
                candle.high@,
                candle.low@,
                candle.close@,
                candle.volume@,
                candle.start@,
                price_precision,
                size_precision,
            ),
            bar_type,
            ts_init,
        ),
{
    let open = parse_price(candle.open.as_str(), price_precision)?;
    let high = parse_price(candle.high.as_str(), price_precision)?;
    let low = parse_price(candle.low.as_str(), price_precision)?;
    let close = parse_price(candle.close.as_str(), price_precision)?;
    let volume = parse_quantity(candle.volume.as_str(), size_precision)?;
    // Coinbase candle "start" is epoch seconds for the candle open time
    let ts_event = parse_epoch_secs_timestamp(candle.start.as_str())?;
    Bar::new_checked(bar_type, open, high, low, close, volume, ts_event, ts_init)
}

/// Flags of a book level delta: market-by-price, and last when it ends the batch.
pub open spec fn level_flags(is_last: bool) -> u8 {
    if is_last {
        F_MBP | F_LAST
    } else {
        F_MBP
    }
}

/// The `Add` delta for one price level, or the first error from parsing it.
pub open spec fn spec_level_delta(
    price: Seq<char>,
    size: Seq<char>,
    side: OrderSide,
    instrument_id: InstrumentId,
    price_precision: u8,
    size_precision: u8,
    is_last: bool,
    ts_event: UnixNanos,
    ts_init: UnixNanos,
) -> Result<OrderBookDelta, DataError> {
    match spec_parse_price(price, price_precision as nat) {
        Err(e) => Err(e),
        Ok(p) => match spec_parse_quantity(size, size_precision as nat) {
            Err(e) => Err(e),
            Ok(q) => if q.raw == 0 {
                Err(DataError::NonPositiveSize)
            } else {
                Ok(
                    OrderBookDelta {
                        instrument_id,
                        action: BookAction::Add,
                        order: BookOrder { side, price: p, size: q, order_id: 0 },
                        flags: level_flags(is_last),
                        sequence: 0,
                        ts_event,
                        ts_init,
                    },
                )
            },
        },
    }
}

#[allow(clippy::too_many_arguments)]
fn parse_book_delta(
    level: &BookLevel,
    side: OrderSide,
    instrument_id: InstrumentId,
    price_precision: u8,
    size_precision: u8,
    is_last: bool,
    ts_event: UnixNanos,
    ts_init: UnixNanos,
) -> (r: Result<OrderBookDelta, DataError>)
    ensures
        r == spec_level_delta(
            level.price@,
            level.size@,
            side,
            instrument_id,
            price_precision,
            size_precision,
            is_last,
            ts_event,
            ts_init,
        ),
{
    let price = parse_price(level.price.as_str(), price_precision)?;
    let size = parse_quantity(level.size.as_str(), size_precision)?;
    let flags: u8 = if is_last {
        F_MBP | F_LAST
    } else {
        F_MBP
    };
    let order = BookOrder::new(side, price, size, 0);
    OrderBookDelta::new_checked(instrument_id, BookAction::Add, order, flags, 0, ts_event, ts_init)
}

/// The deltas for the first `n` of `levels`, which sit at positions `offset + 1 ..` of a
/// snapshot with `total` levels, or the first error.
pub open spec fn spec_level_deltas(
    levels: Seq<BookLevel>,
    side: OrderSide,
    instrument_id: InstrumentId,
    price_precision: u8,
    size_precision: u8,
    offset: int,
    total: int,
    ts_event: UnixNanos,
    ts_init: UnixNanos,
    n: int,
) -> Result<Seq<OrderBookDelta>, DataError>
    decreases n,
{
    if n <= 0 {
        Ok(Seq::empty())
    } else {
        match spec_level_deltas(
            levels,
            side,
            instrument_id,
            price_precision,
            size_precision,
            offset,
            total,
            ts_event,
            ts_init,
            n - 1,
        ) {
            Err(e) => Err(e),
            Ok(prev) => match spec_level_delta(
                levels[n - 1].price@,
                levels[n - 1].size@,
                side,
                instrument_id,
                price_precision,
                size_precision,
                offset + n == total,
                ts_event,
                ts_init,
            ) {
                Err(e) => Err(e),
                Ok(d) => Ok(prev.push(d)),
            },
        }
    }
}

/// The clear delta that opens a snapshot; it is also the last one when the snapshot has
/// no levels.
pub open spec fn snapshot_clear(
    instrument_id: InstrumentId,
    total: int,
    ts_event: UnixNanos,
    ts_init: UnixNanos,
) -> OrderBookDelta {
    let c = OrderBookDelta::spec_clear(instrument_id, 0, ts_event, ts_init);
    if total == 0 {
        OrderBookDelta { flags: (c.flags | F_LAST) as u8, ..c }
    } else {
        c
    }
}

/// The deltas of a snapshot: a clear, then every bid, then every ask, each as an `Add`.
pub open spec fn spec_snapshot_deltas(
    bids: Seq<BookLevel>,
    asks: Seq<BookLevel>,
    instrument_id: InstrumentId,
    price_precision: u8,
    size_precision: u8,
    ts_event: UnixNanos,
    ts_init: UnixNanos,
) -> Result<Seq<OrderBookDelta>, DataError> {
    let total = (bids.len() + asks.len()) as int;
    match spec_level_deltas(
        bids,
        OrderSide::Buy,
        instrument_id,
        price_precision,
        size_precision,
        0,
        total,
        ts_event,
        ts_init,
        bids.len() as int,
    ) {
        Err(e) => Err(e),
        Ok(bd) => match spec_level_deltas(
            asks,
            OrderSide::Sell,
            instrument_id,
            price_precision,
            size_precision,
            bids.len() as int,
            total,
            ts_event,
            ts_init,
            asks.len() as int,
        ) {
            Err(e) => Err(e),
            Ok(ad) => Ok(seq![snapshot_clear(instrument_id, total, ts_event, ts_init)] + bd + ad),
        },
    }
}

/// What parsing a book snapshot gives: its deltas, or the first error.
pub open spec fn spec_product_book(
    book: PriceBook,
    instrument_id: InstrumentId,
    price_precision: u8,
    size_precision: u8,
    ts_init: UnixNanos,
) -> Result<Seq<OrderBookDelta>, DataError> {
    match spec_parse_rfc3339(book.time@) {
        Err(e) => Err(e),
        Ok(ts_event) => spec_snapshot_deltas(
            book.bids@,
            book.asks@,
            instrument_id,
            price_precision,
            size_precision,
            ts_event,
            ts_init,
        ),
    }
}

/// `b` is the batch holding exactly `deltas` for `instrument_id`.
pub open spec fn is_batch_of(b: OrderBookDeltas, instrument_id: InstrumentId, deltas: Seq<OrderBookDelta>) -> bool {
    &&& b.instrument_id == instrument_id
    &&& b.deltas@ == deltas
    &&& deltas.len() > 0
    &&& b.flags == deltas.last().flags
    &&& b.sequence == deltas.last().sequence
    &&& b.ts_event == deltas.last().ts_event
    &&& b.ts_init == deltas.last().ts_init
}

/// Appends the deltas of `levels`, stopping at the first error.
#[allow(clippy::too_many_arguments)]
fn push_level_deltas(
    deltas: &mut Vec<OrderBookDelta>,
    levels: &Vec<BookLevel>,
    side: OrderSide,
    instrument_id: &InstrumentId,
    price_precision: u8,
    size_precision: u8,
    offset: usize,
    total: usize,
    ts_event: UnixNanos,
    ts_init: UnixNanos,
) -> (r: Result<(), DataError>)
    requires
        offset + levels.len() <= total,
    ensures
        spec_level_deltas(
            levels@,
            side,
            *instrument_id,
            price_precision,
            size_precision,
            offset as int,
            total as int,
            ts_event,
            ts_init,
            levels.len() as int,
        ) matches Err(e) ==> r == Err::<(), DataError>(e),
        spec_level_deltas(
            levels@,
            side,
            *instrument_id,
            price_precision,
            size_precision,
            offset as int,
            total as int,
            ts_event,
            ts_init,
            levels.len() as int,
        ) matches Ok(ds) ==> r is Ok && final(deltas)@ == old(deltas)@ + ds,
{
    let ghost start = deltas@;
    let mut i: usize = 0;
    while i < levels.len()
        invariant
            offset + levels.len() <= total,
            i <= levels.len(),
            spec_level_deltas(
                levels@,
                side,
                *instrument_id,
                price_precision,
                size_precision,
                offset as int,
                total as int,
                ts_event,
                ts_init,
                i as int,
            ) matches Ok(ds) && deltas@ == start + ds,
        decreases levels.len() - i,
    {
        let is_last = offset + i + 1 == total;
        let d = parse_book_delta(
            &levels[i],
            side,
            instrument_id.clone(),
            price_precision,
            size_precision,
            is_last,
            ts_event,
            ts_init,
        );
        match d {
            Err(e) => {
                proof {
                    lemma_level_deltas_err(
                        levels@,
                        side,
                        *instrument_id,
                        price_precision,
                        size_precision,
                        offset as int,
                        total as int,
                        ts_event,
                        ts_init,
                        i + 1,
                        levels.len() as int,
                    );
                }
                return Err(e);
            },
            Ok(d) => {
                deltas.push(d);
                proof {
                    let ds = spec_level_deltas(
                        levels@,
                        side,
                        *instrument_id,
                        price_precision,
                        size_precision,
                        offset as int,
                        total as int,
                        ts_event,
                        ts_init,
                        i as int,
                    )->Ok_0;
                    assert(deltas@ =~= start + ds.push(d));
                }
            },
        }
        i += 1;
    }
    Ok(())
}

/// Once a prefix of the levels fails, every longer prefix fails the same way.
proof fn lemma_level_deltas_err(
    levels: Seq<BookLevel>,
    side: OrderSide,
    instrument_id: InstrumentId,
    price_precision: u8,
    size_precision: u8,
    offset: int,
    total: int,
    ts_event: UnixNanos,
    ts_init: UnixNanos,
    n: int,
    m: int,
)
    requires
        1 <= n <= m,
        spec_level_deltas(
            levels,
            side,
            instrument_id,
            price_precision,
            size_precision,
            offset,
            total,
            ts_event,
            ts_init,
            n,
        ) is Err,
    ensures
        spec_level_deltas(
            levels,
            side,
            instrument_id,
            price_precision,
            size_precision,
            offset,
            total,
            ts_event,
            ts_init,
            m,
        ) == spec_level_deltas(
            levels,
            side,
            instrument_id,
            price_precision,
            size_precision,
            offset,
            total,
            ts_event,
            ts_init,
            n,
        ),
    decreases m - n,
{
    if m > n {
        lemma_level_deltas_err(
            levels,
            side,
            instrument_id,
            price_precision,
            size_precision,
            offset,
            total,
            ts_event,
            ts_init,
            n,
            m - 1,
        );
    }
}

/// Parses a Coinbase order book snapshot into order book deltas: a clear, then an add per
/// bid, then an add per ask; the last delta carries the last-message flag.
pub fn parse_product_book_snapshot(
    book: &PriceBook,
    instrument_id: InstrumentId,
    price_precision: u8,
    size_precision: u8,
    ts_init: UnixNanos,
) -> (r: Result<OrderBookDeltas, DataError>)
    requires
        book.bids.len() + book.asks.len() < usize::MAX,
    ensures
        spec_product_book(*book, instrument_id, price_precision, size_precision, ts_init) matches Err(
            e,
        ) ==> r == Err::<OrderBookDeltas, DataError>(e),
        spec_product_book(*book, instrument_id, price_precision, size_precision, ts_init) matches Ok(
            ds,
        ) ==> (r matches Ok(b) && is_batch_of(b, instrument_id, ds)),
{
    let ts_event = parse_rfc3339_timestamp(book.time.as_str())?;
    let total_levels = book.bids.len() + book.asks.len();
    let mut deltas: Vec<OrderBookDelta> = Vec::new();
    let mut clear = OrderBookDelta::clear(instrument_id.clone(), 0, ts_event, ts_init);
    if total_levels == 0 {
        clear.flags = clear.flags | F_LAST;
    }
    deltas.push(clear);
    let ghost first = deltas@;
    push_level_deltas(
        &mut deltas,
        &book.bids,
        OrderSide::Buy,
        &instrument_id,
        price_precision,
        size_precision,
        0,
        total_levels,
        ts_event,
        ts_init,
    )?;
    let ghost mid = deltas@;
    push_level_deltas(
        &mut deltas,
        &book.asks,
        OrderSide::Sell,
        &instrument_id,
        price_precision,
        size_precision,
        book.bids.len(),
        total_levels,
        ts_event,
        ts_init,
    )?;
    proof {
        let ds = spec_product_book(*book, instrument_id, price_precision, size_precision, ts_init)->Ok_0;
        assert(deltas@ =~= ds);
    }
    OrderBookDeltas::new_checked(instrument_id, deltas)
}

proof fn lemma_level_deltas_shape(
    levels: Seq<BookLevel>,
    side: OrderSide,
    instrument_id: InstrumentId,
    price_precision: u8,
    size_precision: u8,
    offset: int,
    total: int,
    ts_event: UnixNanos,
    ts_init: UnixNanos,
    n: int,
)
    requires
        0 <= n <= levels.len(),
        spec_level_deltas(
            levels,
            side,
            instrument_id,
            price_precision,
            size_precision,
            offset,
            total,
            ts_event,
            ts_init,
            n,
        ) is Ok,
    ensures
        ({
            let ds = spec_level_deltas(
                levels,
                side,
                instrument_id,
                price_precision,
                size_precision,
                offset,
                total,
                ts_event,
                ts_init,
                n,
            )->Ok_0;
            &&& ds.len() == n
            &&& forall|j: int|
                0 <= j < n ==> {
                    &&& (#[trigger] ds[j]).action == BookAction::Add
                    &&& ds[j].order.side == side
                    &&& ds[j].flags == level_flags(offset + j + 1 == total)
                }
        }),
    decreases n,
{
    if n > 0 {
        lemma_level_deltas_shape(
            levels,
            side,
            instrument_id,
            price_precision,
            size_precision,
            offset,
            total,
            ts_event,
            ts_init,
            n - 1,
        );
    }
}

/// A parsed snapshot holds one delta more than it has levels: first a clear, then an `Add`
/// on the buy side for each bid, then an `Add` on the sell side for each ask; exactly the
/// last delta carries the last-message flag.
pub proof fn lemma_snapshot_shape(
    bids: Seq<BookLevel>,
    asks: Seq<BookLevel>,
    instrument_id: InstrumentId,
    price_precision: u8,
    size_precision: u8,
    ts_event: UnixNanos,
    ts_init: UnixNanos,
)
    requires
        spec_snapshot_deltas(
            bids,
            asks,
            instrument_id,
            price_precision,
            size_precision,
            ts_event,
            ts_init,
        ) is Ok,
    ensures
        ({
            let ds = spec_snapshot_deltas(
                bids,
                asks,
                instrument_id,
                price_precision,
                size_precision,
                ts_event,
                ts_init,
            )->Ok_0;
            &&& ds.len() == bids.len() + asks.len() + 1
            &&& ds[0].action == BookAction::Clear
            &&& forall|k: int|
                1 <= k <= bids.len() ==> (#[trigger] ds[k]).action == BookAction::Add
                    && ds[k].order.side == OrderSide::Buy
            &&& forall|k: int|
                bids.len() < k < ds.len() ==> (#[trigger] ds[k]).action == BookAction::Add
                    && ds[k].order.side == OrderSide::Sell
            &&& ds.last().flags & F_LAST != 0
            &&& forall|k: int| 0 <= k < ds.len() - 1 ==> (#[trigger] ds[k]).flags & F_LAST == 0
        }),
{
    let total = (bids.len() + asks.len()) as int;
    lemma_level_deltas_shape(
        bids,
        OrderSide::Buy,
        instrument_id,
        price_precision,
        size_precision,
        0,
        total,
        ts_event,
        ts_init,
        bids.len() as int,
    );
    let bd = spec_level_deltas(
        bids,
        OrderSide::Buy,
        instrument_id,
        price_precision,
        size_precision,
        0,
        total,
        ts_event,
        ts_init,
        bids.len() as int,
    )->Ok_0;
    lemma_level_deltas_shape(
        asks,
        OrderSide::Sell,
        instrument_id,
        price_precision,
        size_precision,
        bids.len() as int,
        total,
        ts_event,
        ts_init,
        asks.len() as int,
    );
    let ad = spec_level_deltas(
        asks,
        OrderSide::Sell,
        instrument_id,
        price_precision,
        size_precision,
        bids.len() as int,
        total,
        ts_event,
        ts_init,
        asks.len() as int,
    )->Ok_0;
    let c = snapshot_clear(instrument_id, total, ts_event, ts_init);
    let ds = seq![c] + bd + ad;
    assert((F_MBP | F_LAST) & F_LAST != 0) by (bit_vector);
    assert(F_MBP & F_LAST == 0) by (bit_vector);
    assert((F_SNAPSHOT | F_LAST) & F_LAST != 0) by (bit_vector);
    assert(F_SNAPSHOT & F_LAST == 0) by (bit_vector);
    assert forall|k: int| 1 <= k <= bids.len() implies (#[trigger] ds[k]).action == BookAction::Add
        && ds[k].order.side == OrderSide::Buy by {
        assert(ds[k] == bd[k - 1]);
    }
    assert forall|k: int| bids.len() < k < ds.len() implies (#[trigger] ds[k]).action
        == BookAction::Add && ds[k].order.side == OrderSide::Sell by {
        assert(ds[k] == ad[k - 1 - bids.len()]);
    }
    assert forall|k: int| 0 <= k < ds.len() - 1 implies (#[trigger] ds[k]).flags & F_LAST == 0 by {
        if k == 0 {
            assert(total > 0);
        } else if k <= bids.len() {
            assert(ds[k] == bd[k - 1]);
        } else {
            assert(ds[k] == ad[k - 1 - bids.len()]);
        }
    }
    if total == 0 {
        assert(ds.last() == c);
    } else if asks.len() > 0 {
        assert(ds.last() == ad[asks.len() - 1]);
    } else {
        assert(ds.last() == bd[bids.len() - 1]);
    }
}

/// `d` adds the price level `level` on `side` for `instrument_id`: its price is the level's
/// price parsed at `price_precision`, its size the level's size parsed at `size_precision`
/// and positive, its order identifier and sequence zero, its times `ts_event` and
/// `ts_init`, and its flags `F_MBP`, with `F_LAST` as well exactly when `last`.
pub open spec fn adds_level(
    d: OrderBookDelta,
    level: BookLevel,
    side: OrderSide,
    instrument_id: InstrumentId,
    price_precision: u8,
    size_precision: u8,
    last: bool,
    ts_event: UnixNanos,
    ts_init: UnixNanos,
) -> bool {
    &&& d.instrument_id == instrument_id
    &&& d.action is Add
    &&& spec_parse_price(level.price@, price_precision as nat) == Ok::<Price, DataError>(d.order.price)
    &&& spec_parse_quantity(level.size@, size_precision as nat) == Ok::<Quantity, DataError>(d.order.size)
    &&& d.order.size.raw > 0
    &&& d.order.side == side
    &&& d.order.order_id == 0
    &&& d.sequence == 0
    &&& d.ts_event == ts_event
    &&& d.ts_init == ts_init
    &&& d.flags == (if last {
        F_MBP | F_LAST
    } else {
        F_MBP
    })
}

proof fn lemma_level_deltas_add(
    levels: Seq<BookLevel>,
    side: OrderSide,
    instrument_id: InstrumentId,
    price_precision: u8,
    size_precision: u8,
    offset: int,
    total: int,
    ts_event: UnixNanos,
    ts_init: UnixNanos,
    n: int,
)
    requires
        0 <= n <= levels.len(),
    ensures
        spec_level_deltas(
            levels,
            side,
            instrument_id,
            price_precision,
            size_precision,
            offset,
            total,
            ts_event,
            ts_init,
            n,
        ) matches Ok(ds) ==> ds.len() == n && forall|j: int|
            0 <= j < n ==> adds_level(
                #[trigger] ds[j],
                levels[j],
                side,
                instrument_id,
                price_precision,
                size_precision,
                offset + j + 1 == total,
                ts_event,
                ts_init,
            ),
    decreases n,
{
    if n > 0 {
        lemma_level_deltas_add(
            levels,
            side,
            instrument_id,
            price_precision,
            size_precision,
            offset,
            total,
            ts_event,
            ts_init,
            n - 1,
        );
    }
}

/// A parsed REST book snapshot is a clear, then one `Add` per bid (buy side) in order, then
/// one per ask (sell side) in order; each level's delta carries the level's price parsed at
/// `price_precision` and its size parsed at `size_precision` (so a size of zero at that
/// precision is never accepted), and only the very last delta carries `F_LAST`.
pub proof fn lemma_product_book_deltas(
    book: PriceBook,
    instrument_id: InstrumentId,
    price_precision: u8,
    size_precision: u8,
    ts_init: UnixNanos,
)
    ensures
        spec_product_book(book, instrument_id, price_precision, size_precision, ts_init) matches Ok(
            ds,
        ) ==> ({
            let nb = book.bids@.len() as int;
            let na = book.asks@.len() as int;
            let ts_event = spec_parse_rfc3339(book.time@)->Ok_0;
            &&& spec_parse_rfc3339(book.time@) is Ok
            &&& ds.len() == 1 + nb + na
            &&& ds[0].action is Clear
            &&& ds[0].instrument_id == instrument_id
            &&& forall|j: int|
                0 <= j < nb ==> adds_level(
                    #[trigger] ds[1 + j],
                    book.bids@[j],
                    OrderSide::Buy,
                    instrument_id,
                    price_precision,
                    size_precision,
                    j + 1 == nb + na,
                    ts_event,
                    ts_init,
                )
            &&& forall|j: int|
                0 <= j < na ==> adds_level(
                    #[trigger] ds[1 + nb + j],
                    book.asks@[j],
                    OrderSide::Sell,
                    instrument_id,
                    price_precision,
                    size_precision,
                    nb + j + 1 == nb + na,
                    ts_event,
                    ts_init,
                )
        }),
{
    if spec_parse_rfc3339(book.time@) is Ok {
        let ts_event = spec_parse_rfc3339(book.time@)->Ok_0;
        let nb = book.bids@.len() as int;
        let na = book.asks@.len() as int;
        let total = nb + na;
        lemma_level_deltas_add(
            book.bids@,
            OrderSide::Buy,
            instrument_id,
            price_precision,
            size_precision,
            0,
            total,
            ts_event,
            ts_init,
            nb,
        );
        lemma_level_deltas_add(
            book.asks@,
            OrderSide::Sell,
            instrument_id,
            price_precision,
            size_precision,
            nb,
            total,
            ts_event,
            ts_init,
            na,
        );
        if spec_product_book(book, instrument_id, price_precision, size_precision, ts_init) is Ok {
            let ds = spec_product_book(book, instrument_id, price_precision, size_precision, ts_init)->Ok_0;
            let bd = spec_level_deltas(
                book.bids@,
                OrderSide::Buy,
                instrument_id,
                price_precision,
                size_precision,
                0,
                total,
                ts_event,
                ts_init,
                nb,
            )->Ok_0;
            let ad = spec_level_deltas(
                book.asks@,
                OrderSide::Sell,
                instrument_id,
                price_precision,
                size_precision,
                nb,
                total,
                ts_event,
                ts_init,
                na,
            )->Ok_0;
            assert(ds == seq![snapshot_clear(instrument_id, total, ts_event, ts_init)] + bd + ad);
            assert forall|j: int| 0 <= j < nb implies adds_level(
                #[trigger] ds[1 + j],
                book.bids@[j],
                OrderSide::Buy,
                instrument_id,
                price_precision,
                size_precision,
                j + 1 == nb + na,
                ts_event,
                ts_init,
            ) by {
                assert(ds[1 + j] == bd[j]);
            }
            assert forall|j: int| 0 <= j < na implies adds_level(
                #[trigger] ds[1 + nb + j],
                book.asks@[j],
                OrderSide::Sell,
                instrument_id,
                price_precision,
                size_precision,
                nb + j + 1 == nb + na,
                ts_event,
                ts_init,
            ) by {
                assert(ds[1 + nb + j] == ad[j]);
            }
        }
    }
}

/// A Coinbase buy is a buyer aggressor, a sell a seller aggressor, and an unknown side no
/// aggressor.
pub proof fn lemma_aggressor_table(side: CoinbaseOrderSide)
    ensures
        side is Buy ==> spec_side_to_aggressor(side) is Buyer,
        side is Sell ==> spec_side_to_aggressor(side) is Seller,
        side is Unknown ==> spec_side_to_aggressor(side) is NoAggressor,
{
}

/// The parts of a trade are its price parsed at `price_precision`, its size parsed at
/// `size_precision`, and its RFC 3339 time.
pub proof fn lemma_trade_parts(
    price: Seq<char>,
    size: Seq<char>,
    time: Seq<char>,
    price_precision: u8,
    size_precision: u8,
)
    ensures
        spec_trade_parts(price, size, time, price_precision, size_precision) matches Ok((p, q, ts)) ==> (
        spec_parse_price(price, price_precision as nat) == Ok::<Price, DataError>(p)
            && spec_parse_quantity(size, size_precision as nat) == Ok::<Quantity, DataError>(q)
            && spec_parse_rfc3339(time) == Ok::<UnixNanos, DataError>(ts)),
        spec_trade_parts(price, size, time, price_precision, size_precision) is Ok <==> (spec_parse_price(
            price,
            price_precision as nat,
        ) is Ok && spec_parse_quantity(size, size_precision as nat) is Ok && spec_parse_rfc3339(time) is Ok),
{
}

/// The parts of a candle are its open, high, low and close parsed at `price_precision`, its
/// volume parsed at `size_precision`, and its start in epoch seconds; a bar made of them
/// keeps them in place, and its high bounds open, low and close from above and its low
/// bounds open and close from below.
pub proof fn lemma_candle_bar(
    open: Seq<char>,
    high: Seq<char>,
    low: Seq<char>,
    close: Seq<char>,
    volume: Seq<char>,
    start: Seq<char>,
    price_precision: u8,
    size_precision: u8,
    bar_type: BarType,
    ts_init: UnixNanos,
)
    ensures
        spec_bar_from_parts(
            spec_candle_parts(open, high, low, close, volume, start, price_precision, size_precision),
            bar_type,
            ts_init,
        ) matches Ok(b) ==> {
            &&& spec_parse_price(open, price_precision as nat) == Ok::<Price, DataError>(b.open)
            &&& spec_parse_price(high, price_precision as nat) == Ok::<Price, DataError>(b.high)
            &&& spec_parse_price(low, price_precision as nat) == Ok::<Price, DataError>(b.low)
            &&& spec_parse_price(close, price_precision as nat) == Ok::<Price, DataError>(b.close)
            &&& spec_parse_quantity(volume, size_precision as nat) == Ok::<Quantity, DataError>(b.volume)
            &&& spec_parse_epoch_secs(start) == Ok::<UnixNanos, DataError>(b.ts_event)
            &&& b.bar_type == bar_type
            &&& b.ts_init == ts_init
            &&& b.high.raw >= b.open.raw && b.high.raw >= b.low.raw && b.high.raw >= b.close.raw
            &&& b.low.raw <= b.open.raw && b.low.raw <= b.close.raw
        },
{
}

} // verus!
