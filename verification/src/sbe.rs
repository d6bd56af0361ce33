//! Simple Binary Encoding of market data records: the errors, the read cursor, and the
//! little-endian primitives that the record layouts are built from.

pub mod book;

use vstd::prelude::*;
use vstd::utf8::{decode_utf8, encode_utf8, valid_utf8};

verus! {

/// Why a record could not be encoded.
#[derive(Debug, Clone, Copy, PartialEq, Eq, Structural)]
pub enum SbeEncodeError {
    /// A string is longer than its one-byte length prefix can say.
    StringTooLong { len: usize },
    /// A repeating group has more entries than its two-byte count can say.
    GroupTooLarge { count: usize },
}

/// Why bytes could not be decoded.
#[derive(Debug, Clone, Copy, PartialEq, Eq, Structural)]
pub enum SbeDecodeError {
    /// The bytes end before the record does.
    BufferTooShort,
    /// A byte does not name a variant of the enum it encodes.
    InvalidEnumValue { value: u8 },
    /// A string's bytes are not UTF-8.
    InvalidUtf8,
    /// A repeating group declares another entry length than the layout's.
    InvalidBlockLength { expected: u16, actual: u16 },
}

/// The two bytes of `v`, least significant first.
pub open spec fn le_u16_bytes(v: u16) -> Seq<u8> {
    seq![(v & 0xff) as u8, ((v >> 8u16) & 0xff) as u16 as u8]
}

/// The four bytes of `v`, least significant first.
pub open spec fn le_u32_bytes(v: u32) -> Seq<u8> {
    seq![
        (v & 0xff) as u8,
        ((v >> 8u32) & 0xff) as u8,
        ((v >> 16u32) & 0xff) as u8,
        ((v >> 24u32) & 0xff) as u8,
    ]
}

/// The eight bytes of `v`, least significant first.
pub open spec fn le_u64_bytes(v: u64) -> Seq<u8> {
    seq![
        (v & 0xff) as u8,
        ((v >> 8u64) & 0xff) as u8,
        ((v >> 16u64) & 0xff) as u8,
        ((v >> 24u64) & 0xff) as u8,
        ((v >> 32u64) & 0xff) as u8,
        ((v >> 40u64) & 0xff) as u8,
        ((v >> 48u64) & 0xff) as u8,
        ((v >> 56u64) & 0xff) as u8,
    ]
}

/// The eight bytes of `v` in two's complement, least significant first.
pub open spec fn le_i64_bytes(v: i64) -> Seq<u8> {
    le_u64_bytes(v as u64)
}

/// The value of two bytes, least significant first.
pub open spec fn le_u16_value(b: Seq<u8>) -> u16 {
    (b[0] as u16) | ((b[1] as u16) << 8u16)
}

/// The value of four bytes, least significant first.
pub open spec fn le_u32_value(b: Seq<u8>) -> u32 {
    (b[0] as u32) | ((b[1] as u32) << 8u32) | ((b[2] as u32) << 16u32) | ((b[3] as u32) << 24u32)
}

/// The value of eight bytes, least significant first.
pub open spec fn le_u64_value(b: Seq<u8>) -> u64 {
    (b[0] as u64) | ((b[1] as u64) << 8u64) | ((b[2] as u64) << 16u64) | ((b[3] as u64) << 24u64)
        | ((b[4] as u64) << 32u64) | ((b[5] as u64) << 40u64) | ((b[6] as u64) << 48u64) | ((
    b[7] as u64) << 56u64)
}

/// A string field: its byte length in one byte, then its UTF-8 bytes.
pub open spec fn string_bytes(s: Seq<char>) -> Seq<u8> {
    seq![encode_utf8(s).len() as u8] + encode_utf8(s)
}

/// Reading `n` bytes at `pos`: the bytes and the position after them.
pub open spec fn spec_take(bytes: Seq<u8>, pos: int, n: int) -> Result<(Seq<u8>, int), SbeDecodeError> {
    if 0 <= pos && 0 <= n && pos + n <= bytes.len() {
        Ok((bytes.subrange(pos, pos + n), pos + n))
    } else {
        Err(SbeDecodeError::BufferTooShort)
    }
}

/// Reading a byte at `pos`.
pub open spec fn spec_read_u8(bytes: Seq<u8>, pos: int) -> Result<(u8, int), SbeDecodeError> {
    match spec_take(bytes, pos, 1) {
        Ok((b, p)) => Ok((b[0], p)),
        Err(e) => Err(e),
    }
}

/// Reading a little-endian `u16` at `pos`.
pub open spec fn spec_read_u16(bytes: Seq<u8>, pos: int) -> Result<(u16, int), SbeDecodeError> {
    match spec_take(bytes, pos, 2) {
        Ok((b, p)) => Ok((le_u16_value(b), p)),
        Err(e) => Err(e),
    }
}

/// Reading a little-endian `u32` at `pos`.
pub open spec fn spec_read_u32(bytes: Seq<u8>, pos: int) -> Result<(u32, int), SbeDecodeError> {
    match spec_take(bytes, pos, 4) {
        Ok((b, p)) => Ok((le_u32_value(b), p)),
        Err(e) => Err(e),
    }
}

/// Reading a little-endian `u64` at `pos`.
pub open spec fn spec_read_u64(bytes: Seq<u8>, pos: int) -> Result<(u64, int), SbeDecodeError> {
    match spec_take(bytes, pos, 8) {
        Ok((b, p)) => Ok((le_u64_value(b), p)),
        Err(e) => Err(e),
    }
}

/// Reading a little-endian two's complement `i64` at `pos`.
pub open spec fn spec_read_i64(bytes: Seq<u8>, pos: int) -> Result<(i64, int), SbeDecodeError> {
    match spec_read_u64(bytes, pos) {
        Ok((v, p)) => Ok((v as i64, p)),
        Err(e) => Err(e),
    }
}

/// Reading a string field at `pos`.
pub open spec fn spec_read_string(bytes: Seq<u8>, pos: int) -> Result<(Seq<char>, int), SbeDecodeError> {
    match spec_read_u8(bytes, pos) {
        Err(e) => Err(e),
        Ok((n, p)) => match spec_take(bytes, p, n as int) {
            Err(e) => Err(e),
            Ok((b, q)) => if valid_utf8(b) {
                Ok((decode_utf8(b), q))
            } else {
                Err(SbeDecodeError::InvalidUtf8)
            },
        },
    }
}

/// A read of a `T` from `bytes` at `pos`, as `spec` says it goes, gave `r` and left the
/// cursor at `new_pos`; a failed read says only its error.
pub open spec fn read_as<T>(spec: Result<(T, int), SbeDecodeError>, r: Result<T, SbeDecodeError>, new_pos: int) -> bool {
    match spec {
        Ok((v, p)) => r == Ok::<T, SbeDecodeError>(v) && new_pos == p,
        Err(e) => r == Err::<T, SbeDecodeError>(e),
    }
}

/// A read position in a byte buffer.
pub struct SbeCursor<'a> {
    buf: &'a [u8],
    pos: usize,
}

impl<'a> SbeCursor<'a> {
    /// The bytes being read.
    pub closed spec fn bytes(&self) -> Seq<u8> {
        self.buf@
    }

    /// The position of the next byte to read.
    pub closed spec fn position(&self) -> int {
        self.pos as int
    }

    /// The position lies within the bytes.
    pub closed spec fn wf(&self) -> bool {
        self.pos <= self.buf@.len()
    }

    /// A cursor at the start of `buf`.
    pub fn new(buf: &'a [u8]) -> (c: SbeCursor<'a>)
        ensures
            c.wf(),
            c.bytes() == buf@,
            c.position() == 0,
    {
        SbeCursor { buf, pos: 0 }
    }

    /// The position of the next byte to read.
    pub fn pos(&self) -> (p: usize)
        ensures
            p == self.position(),
    {
        self.pos
    }

    /// Number of bytes left to read.
    pub fn remaining(&self) -> (n: usize)
        requires
            self.wf(),
        ensures
            n == self.bytes().len() - self.position(),
    {
        self.buf.len() - self.pos
    }

    /// Reads `n` bytes.
    pub fn read_bytes(&mut self, n: usize) -> (r: Result<&'a [u8], SbeDecodeError>)
        requires
            old(self).wf(),
        ensures
            final(self).wf(),
            final(self).bytes() == old(self).bytes(),
            match spec_take(old(self).bytes(), old(self).position(), n as int) {
                Ok((b, p)) => r matches Ok(s) && s@ == b && final(self).position() == p,
                Err(e) => r == Err::<&'a [u8], SbeDecodeError>(e),
            },
    {
        if n > self.buf.len() - self.pos {
            return Err(SbeDecodeError::BufferTooShort);
        }
        let start = self.pos;
        let end = self.pos + n;
        self.pos = end;
        Ok(slice_range(self.buf, start, end))
    }

    /// Reads a byte.
    pub fn read_u8(&mut self) -> (r: Result<u8, SbeDecodeError>)
        requires
            old(self).wf(),
        ensures
            final(self).wf(),
            final(self).bytes() == old(self).bytes(),
            read_as(spec_read_u8(old(self).bytes(), old(self).position()), r, final(self).position()),
    {
        if self.pos >= self.buf.len() {
            return Err(SbeDecodeError::BufferTooShort);
        }
        let b = self.buf[self.pos];
        self.pos = self.pos + 1;
        Ok(b)
    }

    /// Reads a little-endian `u16`.
    pub fn read_u16_le(&mut self) -> (r: Result<u16, SbeDecodeError>)
        requires
            old(self).wf(),
        ensures
            final(self).wf(),
            final(self).bytes() == old(self).bytes(),
            read_as(spec_read_u16(old(self).bytes(), old(self).position()), r, final(self).position()),
    {
        if 2 > self.buf.len() - self.pos {
            return Err(SbeDecodeError::BufferTooShort);
        }
        let p = self.pos;
        let v = (self.buf[p] as u16) | ((self.buf[p + 1] as u16) << 8u16);
        self.pos = p + 2;
        proof {
            let b = self.buf@.subrange(p as int, p + 2);
            assert(b[0] == self.buf@[p as int] && b[1] == self.buf@[p + 1]);
        }
        Ok(v)
    }

    /// Reads a little-endian `u32`.
    pub fn read_u32_le(&mut self) -> (r: Result<u32, SbeDecodeError>)
        requires
            old(self).wf(),
        ensures
            final(self).wf(),
            final(self).bytes() == old(self).bytes(),
            read_as(spec_read_u32(old(self).bytes(), old(self).position()), r, final(self).position()),
    {
        if 4 > self.buf.len() - self.pos {
            return Err(SbeDecodeError::BufferTooShort);
        }
        let p = self.pos;
        let v = (self.buf[p] as u32) | ((self.buf[p + 1] as u32) << 8u32) | ((self.buf[p + 2] as u32)
            << 16u32) | ((self.buf[p + 3] as u32) << 24u32);
        self.pos = p + 4;
        proof {
            let b = self.buf@.subrange(p as int, p + 4);
            assert(b[0] == self.buf@[p as int] && b[1] == self.buf@[p + 1]);
            assert(b[2] == self.buf@[p + 2] && b[3] == self.buf@[p + 3]);
        }
        Ok(v)
    }

    /// Reads a little-endian `u64`.
    pub fn read_u64_le(&mut self) -> (r: Result<u64, SbeDecodeError>)
        requires
            old(self).wf(),
        ensures
            final(self).wf(),
            final(self).bytes() == old(self).bytes(),
            read_as(spec_read_u64(old(self).bytes(), old(self).position()), r, final(self).position()),
    {
        if 8 > self.buf.len() - self.pos {
            return Err(SbeDecodeError::BufferTooShort);
        }
        let p = self.pos;
        let v = (self.buf[p] as u64) | ((self.buf[p + 1] as u64) << 8u64) | ((self.buf[p + 2] as u64)
            << 16u64) | ((self.buf[p + 3] as u64) << 24u64) | ((self.buf[p + 4] as u64) << 32u64)
            | ((self.buf[p + 5] as u64) << 40u64) | ((self.buf[p + 6] as u64) << 48u64) | ((self.buf[p
            + 7] as u64) << 56u64);
        self.pos = p + 8;
        proof {
            let b = self.buf@.subrange(p as int, p + 8);
            assert(b[0] == self.buf@[p as int] && b[1] == self.buf@[p + 1]);
            assert(b[2] == self.buf@[p + 2] && b[3] == self.buf@[p + 3]);
            assert(b[4] == self.buf@[p + 4] && b[5] == self.buf@[p + 5]);
            assert(b[6] == self.buf@[p + 6] && b[7] == self.buf@[p + 7]);
        }
        Ok(v)
    }

    /// Reads a little-endian two's complement `i64`.
    pub fn read_i64_le(&mut self) -> (r: Result<i64, SbeDecodeError>)
        requires
            old(self).wf(),
        ensures
            final(self).wf(),
            final(self).bytes() == old(self).bytes(),
            read_as(spec_read_i64(old(self).bytes(), old(self).position()), r, final(self).position()),
    {
        let v = self.read_u64_le()?;
        Ok(v as i64)
    }

    /// Reads a string field: a one-byte length, then that many UTF-8 bytes.
    pub fn read_string(&mut self) -> (r: Result<String, SbeDecodeError>)
        requires
            old(self).wf(),
        ensures
            final(self).wf(),
            final(self).bytes() == old(self).bytes(),
            match spec_read_string(old(self).bytes(), old(self).position()) {
                Ok((s, p)) => r matches Ok(t) && t@ == s && final(self).position() == p,
                Err(e) => r == Err::<String, SbeDecodeError>(e),
            },
    {
        let n = self.read_u8()?;
        let b = self.read_bytes(n as usize)?;
        match utf8_text(b) {
            Some(s) => Ok(s.to_owned()),
            None => Err(SbeDecodeError::InvalidUtf8),
        }
    }
}

/// The bytes of `s` from `start` up to `end`.
fn slice_range<'a>(s: &'a [u8], start: usize, end: usize) -> (r: &'a [u8])
    requires
        start <= end <= s@.len(),
    ensures
        r@ == s@.subrange(start as int, end as int),
{
    vstd::slice::slice_subrange(s, start, end)
}

/// Calls `std::str::from_utf8`: it succeeds exactly on valid UTF-8, and the text is then
/// what the bytes encode.
#[verifier::external_body]
fn utf8_text<'a>(bytes: &'a [u8]) -> (r: Option<&'a str>)
    ensures
        r is Some <==> valid_utf8(bytes@),
        r matches Some(s) ==> s@ == decode_utf8(bytes@),
{
    match std::str::from_utf8(bytes) {
        Ok(s) => Some(s),
        Err(_) => None,
    }
}

/// Appends a byte.
pub fn push_u8(buf: &mut Vec<u8>, v: u8)
    ensures
        final(buf)@ == old(buf)@ + seq![v],
{
    buf.push(v);
    proof {
        assert(final(buf)@ =~= old(buf)@ + seq![v]);
    }
}

/// Appends `v` as two bytes, least significant first.
pub fn push_u16_le(buf: &mut Vec<u8>, v: u16)
    ensures
        final(buf)@ == old(buf)@ + le_u16_bytes(v),
{
    buf.push((v & 0xff) as u8);
    buf.push(((v >> 8u16) & 0xff) as u16 as u8);
    proof {
        assert(final(buf)@ =~= old(buf)@ + le_u16_bytes(v));
    }
}

/// Appends `v` as four bytes, least significant first.
pub fn push_u32_le(buf: &mut Vec<u8>, v: u32)
    ensures
        final(buf)@ == old(buf)@ + le_u32_bytes(v),
{
    buf.push((v & 0xff) as u8);
    buf.push(((v >> 8u32) & 0xff) as u8);
    buf.push(((v >> 16u32) & 0xff) as u8);
    buf.push(((v >> 24u32) & 0xff) as u8);
    proof {
        assert(final(buf)@ =~= old(buf)@ + le_u32_bytes(v));
    }
}

/// Appends `v` as eight bytes, least significant first.
pub fn push_u64_le(buf: &mut Vec<u8>, v: u64)
    ensures
        final(buf)@ == old(buf)@ + le_u64_bytes(v),
{
    buf.push((v & 0xff) as u8);
    buf.push(((v >> 8u64) & 0xff) as u8);
    buf.push(((v >> 16u64) & 0xff) as u8);
    buf.push(((v >> 24u64) & 0xff) as u8);
    buf.push(((v >> 32u64) & 0xff) as u8);
    buf.push(((v >> 40u64) & 0xff) as u8);
    buf.push(((v >> 48u64) & 0xff) as u8);
    buf.push(((v >> 56u64) & 0xff) as u8);
    proof {
        assert(final(buf)@ =~= old(buf)@ + le_u64_bytes(v));
    }
}

/// Appends `v` as eight bytes in two's complement, least significant first.
pub fn push_i64_le(buf: &mut Vec<u8>, v: i64)
    ensures
        final(buf)@ == old(buf)@ + le_i64_bytes(v),
{
    push_u64_le(buf, v as u64);
}


/// Two bytes read back give the `u16` they were written from.
pub proof fn lemma_u16_round_trip(v: u16)
    ensures
        le_u16_value(le_u16_bytes(v)) == v,
{
    let b = le_u16_bytes(v);
    assert(b[0] == (v & 0xff) as u8 && b[1] == ((v >> 8u16) & 0xff) as u16 as u8);
    assert(((((v & 0xff) as u8) as u16) | (((((v >> 8u16) & 0xff) as u16 as u8) as u16) << 8u16))
        == v) by (bit_vector);
}

/// Four bytes read back give the `u32` they were written from.
pub proof fn lemma_u32_round_trip(v: u32)
    ensures
        le_u32_value(le_u32_bytes(v)) == v,
{
    let b = le_u32_bytes(v);
    assert(b[0] == (v & 0xff) as u8 && b[1] == ((v >> 8u32) & 0xff) as u8);
    assert(b[2] == ((v >> 16u32) & 0xff) as u8 && b[3] == ((v >> 24u32) & 0xff) as u8);
    assert(((((v & 0xff) as u8) as u32) | ((((v >> 8u32) & 0xff) as u8 as u32) << 8u32) | ((((v
        >> 16u32) & 0xff) as u8 as u32) << 16u32) | ((((v >> 24u32) & 0xff) as u8 as u32)
        << 24u32)) == v) by (bit_vector);
}

/// Eight bytes read back give the `u64` they were written from.
pub proof fn lemma_u64_round_trip(v: u64)
    ensures
        le_u64_value(le_u64_bytes(v)) == v,
{
    let b = le_u64_bytes(v);
    assert(b[0] == (v & 0xff) as u8 && b[1] == ((v >> 8u64) & 0xff) as u8);
    assert(b[2] == ((v >> 16u64) & 0xff) as u8 && b[3] == ((v >> 24u64) & 0xff) as u8);
    assert(b[4] == ((v >> 32u64) & 0xff) as u8 && b[5] == ((v >> 40u64) & 0xff) as u8);
    assert(b[6] == ((v >> 48u64) & 0xff) as u8 && b[7] == ((v >> 56u64) & 0xff) as u8);
    assert(((((v & 0xff) as u8) as u64) | ((((v >> 8u64) & 0xff) as u8 as u64) << 8u64) | ((((v
        >> 16u64) & 0xff) as u8 as u64) << 16u64) | ((((v >> 24u64) & 0xff) as u8 as u64)
        << 24u64) | ((((v >> 32u64) & 0xff) as u8 as u64) << 32u64) | ((((v >> 40u64) & 0xff)
        as u8 as u64) << 40u64) | ((((v >> 48u64) & 0xff) as u8 as u64) << 48u64) | ((((v
        >> 56u64) & 0xff) as u8 as u64) << 56u64)) == v) by (bit_vector);
}

/// `bytes` holds `b` at `pos`.
pub open spec fn bytes_at(bytes: Seq<u8>, pos: int, b: Seq<u8>) -> bool {
    0 <= pos && pos + b.len() <= bytes.len() && bytes.subrange(pos, pos + b.len()) == b
}

/// Where `bytes` holds `a + r`, it holds `a`, and `r` right after it.
pub proof fn lemma_split(bytes: Seq<u8>, pos: int, a: Seq<u8>, r: Seq<u8>)
    requires
        bytes_at(bytes, pos, a + r),
    ensures
        bytes_at(bytes, pos, a),
        bytes_at(bytes, pos + a.len(), r),
{
    let whole = bytes.subrange(pos, pos + a.len() + r.len());
    assert(whole == a + r);
    assert forall|i: int| 0 <= i < a.len() implies #[trigger] bytes.subrange(pos, pos + a.len())[i]
        == a[i] by {
        assert(whole[i] == (a + r)[i]);
    }
    assert(bytes.subrange(pos, pos + a.len()) =~= a);
    assert forall|i: int| 0 <= i < r.len() implies #[trigger] bytes.subrange(
        pos + a.len(),
        pos + a.len() + r.len(),
    )[i] == r[i] by {
        assert(whole[a.len() + i] == (a + r)[a.len() + i]);
    }
    assert(bytes.subrange(pos + a.len(), pos + a.len() + r.len()) =~= r);
}

/// Where `bytes` holds `b`, reading `b.len()` bytes gives `b`.
pub proof fn lemma_take_at(bytes: Seq<u8>, pos: int, b: Seq<u8>)
    requires
        bytes_at(bytes, pos, b),
    ensures
        spec_take(bytes, pos, b.len() as int) == Ok::<(Seq<u8>, int), SbeDecodeError>((b, pos + b.len())),
{
}

/// A byte reads back.
pub proof fn lemma_read_u8(bytes: Seq<u8>, pos: int, v: u8)
    requires
        bytes_at(bytes, pos, seq![v]),
    ensures
        spec_read_u8(bytes, pos) == Ok::<(u8, int), SbeDecodeError>((v, pos + 1)),
{
    lemma_take_at(bytes, pos, seq![v]);
}

/// A `u16` reads back.
pub proof fn lemma_read_u16(bytes: Seq<u8>, pos: int, v: u16)
    requires
        bytes_at(bytes, pos, le_u16_bytes(v)),
    ensures
        spec_read_u16(bytes, pos) == Ok::<(u16, int), SbeDecodeError>((v, pos + 2)),
{
    lemma_take_at(bytes, pos, le_u16_bytes(v));
    lemma_u16_round_trip(v);
}

/// A `u32` reads back.
pub proof fn lemma_read_u32(bytes: Seq<u8>, pos: int, v: u32)
    requires
        bytes_at(bytes, pos, le_u32_bytes(v)),
    ensures
        spec_read_u32(bytes, pos) == Ok::<(u32, int), SbeDecodeError>((v, pos + 4)),
{
    lemma_take_at(bytes, pos, le_u32_bytes(v));
    lemma_u32_round_trip(v);
}

/// A `u64` reads back.
pub proof fn lemma_read_u64(bytes: Seq<u8>, pos: int, v: u64)
    requires
        bytes_at(bytes, pos, le_u64_bytes(v)),
    ensures
        spec_read_u64(bytes, pos) == Ok::<(u64, int), SbeDecodeError>((v, pos + 8)),
{
    lemma_take_at(bytes, pos, le_u64_bytes(v));
    lemma_u64_round_trip(v);
}

/// An `i64` reads back.
pub proof fn lemma_read_i64(bytes: Seq<u8>, pos: int, v: i64)
    requires
        bytes_at(bytes, pos, le_i64_bytes(v)),
    ensures
        spec_read_i64(bytes, pos) == Ok::<(i64, int), SbeDecodeError>((v, pos + 8)),
{
    lemma_read_u64(bytes, pos, v as u64);
    assert((v as u64) as i64 == v) by (bit_vector);
}

/// A string of at most 255 bytes reads back.
pub proof fn lemma_read_string(bytes: Seq<u8>, pos: int, x: Seq<char>)
    requires
        encode_utf8(x).len() <= 255,
        bytes_at(bytes, pos, string_bytes(x)),
    ensures
        spec_read_string(bytes, pos) == Ok::<(Seq<char>, int), SbeDecodeError>(
            (x, pos + string_bytes(x).len()),
        ),
{
    let n = encode_utf8(x).len() as u8;
    lemma_split(bytes, pos, seq![n], encode_utf8(x));
    lemma_read_u8(bytes, pos, n);
    lemma_take_at(bytes, pos + 1, encode_utf8(x));
    vstd::utf8::encode_utf8_valid_utf8(x);
    vstd::utf8::encode_utf8_decode_utf8(x);
}

} // verus!
