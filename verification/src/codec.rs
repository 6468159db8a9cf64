//! Wire codec for quote frames.
//!
//! A frame is a versioned, extensible binary record:
//!
//! ```text
//! offset        size  field
//! 0             1     version tag (must equal WIRE_VERSION)
//! 1             2     symbol length L, little endian, 1..=65535
//! 3             L     symbol bytes
//! 3+L           8     price in milli-units, little endian
//! 11+L          1     currency code
//! 12+L          8     timestamp, little endian
//! 20+L          ..    extension fields: (tag: 1, length: 2, payload)
//! ```
//!
//! Decoding is strict about required fields and never panics; unknown
//! extension fields are skipped so that feed-side schema additions do
//! not require a lockstep change here.

use vstd::prelude::*;

use crate::quote::Currency;
use crate::quote::Quote;
use crate::quote::QuoteModel;
use crate::quote::Symbol;

verus! {

/// Version tag every well-formed frame starts with.
pub const WIRE_VERSION: u8 = 1;

/// Largest price a frame may carry, in milli-units.
pub const MAX_PRICE_MILLI: u64 = 1_000_000_000_000;

/// A malformed or truncated frame; one such frame is skipped, it never
/// terminates the feed.
#[derive(Clone, Copy, PartialEq, Eq, Structural, Debug)]
pub enum DecodeError {
    Malformed,
}

/// Little-endian bytes of a 16-bit value.
pub open spec fn u16_le(n: u16) -> Seq<u8> {
    seq![(n as int % 0x100) as u8, ((n as int / 0x100) % 0x100) as u8]
}

/// 16-bit value read from two little-endian bytes.
pub open spec fn u16_from_le(b0: u8, b1: u8) -> u16 {
    ((b0 as int) + 0x100 * (b1 as int)) as u16
}

/// Little-endian bytes of a 64-bit value.
pub open spec fn u64_le(n: u64) -> Seq<u8> {
    seq![
        (n as int % 0x100) as u8,
        ((n as int / 0x100) % 0x100) as u8,
        ((n as int / 0x10000) % 0x100) as u8,
        ((n as int / 0x1000000) % 0x100) as u8,
        ((n as int / 0x100000000) % 0x100) as u8,
        ((n as int / 0x10000000000) % 0x100) as u8,
        ((n as int / 0x1000000000000) % 0x100) as u8,
        ((n as int / 0x100000000000000) % 0x100) as u8,
    ]
}

/// 64-bit value read from eight little-endian bytes.
pub open spec fn u64_from_le(s: Seq<u8>) -> u64
    recommends
        s.len() == 8,
{
    ((s[0] as int) + 0x100 * (s[1] as int) + 0x10000 * (s[2] as int) + 0x1000000 * (s[3] as int)
        + 0x100000000 * (s[4] as int) + 0x10000000000 * (s[5] as int) + 0x1000000000000 * (
    s[6] as int) + 0x100000000000000 * (s[7] as int)) as u64
}

/// Reading back the little-endian bytes of a 16-bit value yields it.
pub proof fn lemma_u16_le_round_trip(n: u16)
    ensures
        u16_from_le(u16_le(n)[0], u16_le(n)[1]) == n,
{
    assert((n as int % 0x100) + 0x100 * ((n as int / 0x100) % 0x100) == n as int) by (bit_vector);
}

/// Reading back the little-endian bytes of a 64-bit value yields it.
pub proof fn lemma_u64_le_round_trip(n: u64)
    ensures
        u64_from_le(u64_le(n)) == n,
{
    assert((n as int % 0x100) + 0x100 * ((n as int / 0x100) % 0x100) + 0x10000 * ((n as int
        / 0x10000) % 0x100) + 0x1000000 * ((n as int / 0x1000000) % 0x100) + 0x100000000 * ((
    n as int / 0x100000000) % 0x100) + 0x10000000000 * ((n as int / 0x10000000000) % 0x100)
        + 0x1000000000000 * ((n as int / 0x1000000000000) % 0x100) + 0x100000000000000 * ((n as int
        / 0x100000000000000) % 0x100) == n as int) by (bit_vector);
}

/// Code a currency is written as on the wire.
pub open spec fn currency_code(c: Currency) -> u8 {
    match c {
        Currency::Eur => 1,
        Currency::Usd => 2,
        Currency::Gbp => 3,
        Currency::Chf => 4,
    }
}

/// Currency a wire code stands for, if any.
pub open spec fn currency_of_code(b: u8) -> Option<Currency> {
    if b == 1 {
        Some(Currency::Eur)
    } else if b == 2 {
        Some(Currency::Usd)
    } else if b == 3 {
        Some(Currency::Gbp)
    } else if b == 4 {
        Some(Currency::Chf)
    } else {
        None
    }
}

/// The extension region of a frame is a well-formed list of
/// (tag, length, payload) records from `pos` to the end.
pub open spec fn exts_ok_from(b: Seq<u8>, pos: int) -> bool
    recommends
        0 <= pos <= b.len(),
    decreases b.len() - pos,
    when 0 <= pos
{
    if pos >= b.len() {
        pos == b.len()
    } else if pos + 3 > b.len() {
        false
    } else {
        let l = u16_from_le(b[pos + 1], b[pos + 2]) as int;
        if pos + 3 + l > b.len() {
            false
        } else {
            exts_ok_from(b, pos + 3 + l)
        }
    }
}

/// Quotes the codec can carry: a non-empty symbol that fits the length
/// prefix and a price within the wire bound.
pub open spec fn representable(q: QuoteModel) -> bool {
    &&& 1 <= q.symbol.len() <= 0xFFFF
    &&& q.price_milli <= MAX_PRICE_MILLI
}

/// The frame a quote is written as.
pub open spec fn spec_encode(q: QuoteModel) -> Seq<u8> {
    seq![WIRE_VERSION] + u16_le(q.symbol.len() as u16) + q.symbol + u64_le(q.price_milli) + seq![
        currency_code(q.currency),
    ] + u64_le(q.timestamp)
}

/// The quote a frame decodes to, or `None` for a malformed frame.
pub open spec fn spec_decode(b: Seq<u8>) -> Option<QuoteModel> {
    if b.len() < 3 {
        None
    } else if b[0] != WIRE_VERSION {
        None
    } else {
        let len = u16_from_le(b[1], b[2]) as int;
        if len == 0 {
            None
        } else if b.len() < 20 + len {
            None
        } else {
            let price = u64_from_le(b.subrange(3 + len, 11 + len));
            let ts = u64_from_le(b.subrange(12 + len, 20 + len));
            if price > MAX_PRICE_MILLI {
                None
            } else {
                match currency_of_code(b[11 + len]) {
                    Option::None => None,
                    Option::Some(c) => {
                        if exts_ok_from(b, 20 + len) {
                            Some(
                                QuoteModel {
                                    symbol: b.subrange(3, 3 + len),
                                    price_milli: price,
                                    currency: c,
                                    timestamp: ts,
                                },
                            )
                        } else {
                            None
                        }
                    },
                }
            }
        }
    }
}

/// Encoding a representable quote and decoding the frame gives the
/// quote back.
pub proof fn lemma_encode_decode(q: QuoteModel)
    requires
        representable(q),
    ensures
        spec_decode(spec_encode(q)) == Some(q),
{
    let e = spec_encode(q);
    let len = q.symbol.len() as int;
    assert(e.len() == 20 + len);
    assert(e[0] == WIRE_VERSION);
    lemma_u16_le_round_trip(q.symbol.len() as u16);
    assert(u16_from_le(e[1], e[2]) == q.symbol.len() as u16);
    assert(e.subrange(3, 3 + len) =~= q.symbol);
    assert(e.subrange(3 + len, 11 + len) =~= u64_le(q.price_milli));
    lemma_u64_le_round_trip(q.price_milli);
    assert(e[11 + len] == currency_code(q.currency));
    assert(e.subrange(12 + len, 20 + len) =~= u64_le(q.timestamp));
    lemma_u64_le_round_trip(q.timestamp);
    assert(currency_of_code(currency_code(q.currency)) == Some(q.currency));
    assert(exts_ok_from(e, 20 + len));
    assert(spec_decode(e) == Some(q));
}

/// Read a 64-bit little-endian value at `off`.
fn read_u64_le(bytes: &Vec<u8>, off: usize) -> (n: u64)
    requires
        off + 8 <= bytes@.len(),
    ensures
        n == u64_from_le(bytes@.subrange(off as int, off as int + 8)),
{
    let total = bytes.len();
    assert(off + 8 <= total);
    let n = (bytes[off] as u64) + 0x100 * (bytes[off + 1] as u64) + 0x10000 * (bytes[off
        + 2] as u64) + 0x1000000 * (bytes[off + 3] as u64) + 0x100000000 * (bytes[off + 4] as u64)
        + 0x10000000000 * (bytes[off + 5] as u64) + 0x1000000000000 * (bytes[off + 6] as u64)
        + 0x100000000000000 * (bytes[off + 7] as u64);
    n
}

/// Append a 64-bit value in little-endian order.
fn write_u64_le(out: &mut Vec<u8>, v: u64)
    ensures
        final(out)@ == old(out)@ + u64_le(v),
{
    out.push((v % 0x100) as u8);
    out.push(((v / 0x100) % 0x100) as u8);
    out.push(((v / 0x10000) % 0x100) as u8);
    out.push(((v / 0x1000000) % 0x100) as u8);
    out.push(((v / 0x100000000) % 0x100) as u8);
    out.push(((v / 0x10000000000) % 0x100) as u8);
    out.push(((v / 0x1000000000000) % 0x100) as u8);
    out.push(((v / 0x100000000000000) % 0x100) as u8);
    assert(out@ =~= old(out)@ + u64_le(v));
}

/// Wire code of a currency.
fn currency_to_code(c: Currency) -> (b: u8)
    ensures
        b == currency_code(c),
{
    match c {
        Currency::Eur => 1,
        Currency::Usd => 2,
        Currency::Gbp => 3,
        Currency::Chf => 4,
    }
}

/// Currency a wire code stands for, if any.
fn currency_from_code(b: u8) -> (c: Option<Currency>)
    ensures
        c == currency_of_code(b),
{
    if b == 1 {
        Some(Currency::Eur)
    } else if b == 2 {
        Some(Currency::Usd)
    } else if b == 3 {
        Some(Currency::Gbp)
    } else if b == 4 {
        Some(Currency::Chf)
    } else {
        None
    }
}

/// Write one quote as a wire frame.
pub fn encode(q: &Quote) -> (r: Vec<u8>)
    requires
        representable(q@),
    ensures
        r@ == spec_encode(q@),
{
    let mut out: Vec<u8> = Vec::new();
    out.push(WIRE_VERSION);
    let len = q.symbol.len();
    out.push((len % 0x100) as u8);
    out.push(((len / 0x100) % 0x100) as u8);
    assert(out@ =~= seq![WIRE_VERSION] + u16_le(q@.symbol.len() as u16));
    let mut i: usize = 0;
    let ghost prefix = out@;
    assert(out@ =~= prefix + q@.symbol.subrange(0, 0));
    while i < len
        invariant
            len == q@.symbol.len(),
            i <= len,
            out@ == prefix + q@.symbol.subrange(0, i as int),
        decreases len - i,
    {
        out.push(q.symbol.byte_at(i));
        assert(out@ =~= prefix + q@.symbol.subrange(0, i as int + 1));
        i += 1;
    }
    assert(out@ =~= seq![WIRE_VERSION] + u16_le(q@.symbol.len() as u16) + q@.symbol);
    write_u64_le(&mut out, q.price_milli);
    out.push(currency_to_code(q.currency));
    write_u64_le(&mut out, q.timestamp);
    assert(out@ =~= spec_encode(q@));
    out
}

/// Decode one wire frame, strictly: any malformed or truncated
/// required field yields `DecodeError::Malformed`; well-formed unknown
/// extension fields are ignored.
#[verifier::loop_isolation(false)]
pub fn decode(bytes: &Vec<u8>) -> (r: Result<Quote, DecodeError>)
    ensures
        match r {
            Result::Ok(q) => spec_decode(bytes@) == Some(q@),
            Result::Err(e) => spec_decode(bytes@) == None::<QuoteModel> && e
                == DecodeError::Malformed,
        },
{
    if bytes.len() < 3 {
        return Err(DecodeError::Malformed);
    }
    if bytes[0] != WIRE_VERSION {
        return Err(DecodeError::Malformed);
    }
    let len = (bytes[1] as usize) + 0x100 * (bytes[2] as usize);
    assert(len == u16_from_le(bytes@[1], bytes@[2]) as int);
    if len == 0 {
        return Err(DecodeError::Malformed);
    }
    if bytes.len() < 20 + len {
        return Err(DecodeError::Malformed);
    }
    let mut sym: Vec<u8> = Vec::new();
    let mut i: usize = 0;
    while i < len
        invariant
            len + 20 <= bytes@.len(),
            i <= len,
            sym@ == bytes@.subrange(3, 3 + i as int),
        decreases len - i,
    {
        sym.push(bytes[3 + i]);
        assert(sym@ =~= bytes@.subrange(3, 3 + i as int + 1));
        i += 1;
    }
    let price = read_u64_le(bytes, 3 + len);
    if price > MAX_PRICE_MILLI {
        return Err(DecodeError::Malformed);
    }
    let currency = match currency_from_code(bytes[11 + len]) {
        Some(c) => c,
        None => {
            return Err(DecodeError::Malformed);
        },
    };
    let ts = read_u64_le(bytes, 12 + len);
    // Validate the extension region without interpreting it.
    let start = 20 + len;
    let mut pos: usize = start;
    while pos < bytes.len()
        invariant
            start <= pos <= bytes@.len(),
            exts_ok_from(bytes@, pos as int) == exts_ok_from(bytes@, start as int),
        decreases bytes@.len() - pos,
    {
        if bytes.len() - pos < 3 {
            assert(!exts_ok_from(bytes@, pos as int));
            return Err(DecodeError::Malformed);
        }
        let l = (bytes[pos + 1] as usize) + 0x100 * (bytes[pos + 2] as usize);
        assert(l == u16_from_le(bytes@[pos as int + 1], bytes@[pos as int + 2]) as int);
        if bytes.len() - (pos + 3) < l {
            assert(!exts_ok_from(bytes@, pos as int));
            return Err(DecodeError::Malformed);
        }
        pos = pos + 3 + l;
    }
    assert(exts_ok_from(bytes@, start as int));
    let q = Quote::new(Symbol::new(sym), price, currency, ts);
    assert(q@.symbol =~= bytes@.subrange(3, 3 + len as int));
    assert(spec_decode(bytes@) == Some(q@));
    Ok(q)
}

} // verus!
