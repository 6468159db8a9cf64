use quotefeed::codec::{decode, encode, DecodeError, MAX_PRICE_MILLI, WIRE_VERSION};
use quotefeed::quote::{Currency, Quote, Symbol};

fn sym(s: &str) -> Symbol {
    Symbol::new(s.as_bytes().to_vec())
}

fn quote(s: &str, price_milli: u64, currency: Currency, timestamp: u64) -> Quote {
    Quote::new(sym(s), price_milli, currency, timestamp)
}

fn assert_same_quote(a: &Quote, b: &Quote) {
    assert!(a.symbol.same_as(&b.symbol));
    assert_eq!(a.price_milli, b.price_milli);
    assert_eq!(a.currency, b.currency);
    assert_eq!(a.timestamp, b.timestamp);
}

#[test]
fn round_trip_simple_quote() {
    let q = quote("MSFT", 300_000, Currency::Usd, 17);
    let frame = encode(&q);
    let back = decode(&frame).expect("well-formed frame");
    assert_same_quote(&back, &q);
}

#[test]
fn round_trip_extreme_fields() {
    let q = quote("DE000A27Z304.SG", MAX_PRICE_MILLI, Currency::Chf, u64::MAX);
    let back = decode(&encode(&q)).expect("well-formed frame");
    assert_same_quote(&back, &q);
}

#[test]
fn round_trip_every_currency() {
    for c in [Currency::Eur, Currency::Usd, Currency::Gbp, Currency::Chf] {
        let q = quote("BTC-USD", 93_421_557, c, 1_700_000_000_123);
        let back = decode(&encode(&q)).expect("well-formed frame");
        assert_same_quote(&back, &q);
    }
}

#[test]
fn decode_rejects_empty_and_tiny_frames() {
    assert!(matches!(decode(&vec![]), Err(DecodeError::Malformed)));
    assert!(matches!(decode(&vec![WIRE_VERSION]), Err(DecodeError::Malformed)));
    assert!(matches!(decode(&vec![WIRE_VERSION, 1]), Err(DecodeError::Malformed)));
}

#[test]
fn decode_rejects_wrong_version() {
    let mut frame = encode(&quote("MSFT", 1_000, Currency::Eur, 1));
    frame[0] = WIRE_VERSION + 1;
    assert!(matches!(decode(&frame), Err(DecodeError::Malformed)));
}

#[test]
fn decode_rejects_truncated_frame() {
    let frame = encode(&quote("MSFT", 300_000, Currency::Usd, 17));
    for cut in 0..frame.len() {
        let short = frame[..cut].to_vec();
        assert!(matches!(decode(&short), Err(DecodeError::Malformed)));
    }
}

#[test]
fn decode_rejects_empty_symbol() {
    // Symbol length zero, rest of the frame otherwise well-formed.
    let mut frame = vec![WIRE_VERSION, 0, 0];
    frame.extend_from_slice(&[0u8; 17]);
    assert!(matches!(decode(&frame), Err(DecodeError::Malformed)));
}

#[test]
fn decode_rejects_unknown_currency_code() {
    let q = quote("MSFT", 300_000, Currency::Usd, 17);
    let mut frame = encode(&q);
    let code_at = 3 + 4 + 8;
    frame[code_at] = 200;
    assert!(matches!(decode(&frame), Err(DecodeError::Malformed)));
}

#[test]
fn decode_rejects_price_over_bound() {
    let q = quote("MSFT", MAX_PRICE_MILLI, Currency::Usd, 17);
    let mut frame = encode(&q);
    for b in &mut frame[3 + 4..3 + 4 + 8] {
        *b = 0xFF;
    }
    assert!(matches!(decode(&frame), Err(DecodeError::Malformed)));
}

#[test]
fn decode_ignores_wellformed_extensions() {
    let q = quote("TSM", 114_500, Currency::Usd, 99);
    let mut frame = encode(&q);
    // Two unknown extension records: (tag 7, 3 bytes), (tag 9, empty).
    frame.extend_from_slice(&[7, 3, 0, 0xAA, 0xBB, 0xCC]);
    frame.extend_from_slice(&[9, 0, 0]);
    let back = decode(&frame).expect("extensions are skipped");
    assert_same_quote(&back, &q);
}

#[test]
fn decode_rejects_truncated_extension() {
    let q = quote("TSM", 114_500, Currency::Usd, 99);
    let mut with_partial_header = encode(&q);
    with_partial_header.extend_from_slice(&[7, 3]);
    assert!(matches!(decode(&with_partial_header), Err(DecodeError::Malformed)));

    let mut with_short_payload = encode(&q);
    with_short_payload.extend_from_slice(&[7, 3, 0, 0xAA]);
    assert!(matches!(decode(&with_short_payload), Err(DecodeError::Malformed)));
}

#[test]
fn decode_reads_little_endian_fields() {
    // Hand-built frame: symbol "A", price 0x0201, currency EUR,
    // timestamp 0x0403.
    let frame = vec![
        WIRE_VERSION,
        1,
        0,
        b'A',
        0x01,
        0x02,
        0,
        0,
        0,
        0,
        0,
        0,
        1,
        0x03,
        0x04,
        0,
        0,
        0,
        0,
        0,
        0,
    ];
    let q = decode(&frame).expect("well-formed frame");
    assert!(q.symbol.same_as(&sym("A")));
    assert_eq!(q.price_milli, 0x0201);
    assert_eq!(q.currency, Currency::Eur);
    assert_eq!(q.timestamp, 0x0403);
}
