use quotefeed::channel::{BoundedChannel, SendOutcome};
use quotefeed::codec::encode;
use quotefeed::feed::{
    backoff_delay, step, subscribe, FeedAction, FeedError, FeedEvent, FeedState, BASE_BACKOFF_MS,
    MAX_BACKOFF_MS,
};
use quotefeed::portfolio::{value, Portfolio, Position, QuoteMeta, Rates};
use quotefeed::prices::PriceTable;
use quotefeed::quote::{Currency, Quote, Symbol};
use quotefeed::quote_producer::Batcher;
use quotefeed::quote_receiver::{handle_batch, recv_step, RecvAction, RecvEvent, RecvState, SinkPolicy};

fn sym(s: &str) -> Symbol {
    Symbol::new(s.as_bytes().to_vec())
}

fn quote(s: &str, price_milli: u64, currency: Currency, timestamp: u64) -> Quote {
    Quote::new(sym(s), price_milli, currency, timestamp)
}

#[test]
fn price_table_keeps_latest_quote_per_symbol() {
    let mut table = PriceTable::new();
    table.apply(&quote("MSFT", 300_000, Currency::Usd, 10));
    table.apply(&quote("TSM", 114_000, Currency::Usd, 11));
    table.apply(&quote("MSFT", 305_000, Currency::Usd, 12));
    let (price, _, ts) = table.lookup(&sym("MSFT")).expect("priced");
    assert_eq!((price, ts), (305_000, 12));
    let (price, _, ts) = table.lookup(&sym("TSM")).expect("priced");
    assert_eq!((price, ts), (114_000, 11));
}

#[test]
fn price_table_discards_older_and_equal_timestamps() {
    let mut table = PriceTable::new();
    table.apply(&quote("MSFT", 305_000, Currency::Usd, 12));
    // Older quote: discarded.
    table.apply(&quote("MSFT", 300_000, Currency::Usd, 10));
    // Same timestamp: discarded as well.
    table.apply(&quote("MSFT", 999_000, Currency::Usd, 12));
    let (price, _, ts) = table.lookup(&sym("MSFT")).expect("priced");
    assert_eq!((price, ts), (305_000, 12));
}

#[test]
fn price_table_is_order_insensitive() {
    let quotes = [
        quote("MSFT", 300_000, Currency::Usd, 10),
        quote("MSFT", 305_000, Currency::Usd, 12),
        quote("TSM", 114_000, Currency::Usd, 11),
    ];
    let mut forward = PriceTable::new();
    for q in &quotes {
        forward.apply(q);
    }
    let mut backward = PriceTable::new();
    for q in quotes.iter().rev() {
        backward.apply(q);
    }
    for s in ["MSFT", "TSM"] {
        let a = forward.lookup(&sym(s)).expect("priced");
        let b = backward.lookup(&sym(s)).expect("priced");
        assert_eq!(a, b);
    }
}

#[test]
fn replaying_a_quote_changes_nothing() {
    let metas = vec![QuoteMeta::new(sym("MSFT"), b"MSFT".to_vec(), Currency::Usd)];
    let portfolio = Portfolio::new(
        Currency::Eur,
        vec![Position::new(sym("MSFT"), 25_000)],
        &metas,
    )
    .expect("valid configuration");
    let rates = Rates::new(900, 1000, 1000).expect("rates in range");
    let mut table = PriceTable::new();
    let q = quote("MSFT", 300_000, Currency::Usd, 10);
    table.apply(&q);
    let before = value(&portfolio, &table, &rates, 0);
    table.apply(&q.duplicate());
    let after = value(&portfolio, &table, &rates, 0);
    assert_eq!(before.total_milli, after.total_milli);
    assert_eq!(before.positions[0].last, after.positions[0].last);
    let (price, _, ts) = table.lookup(&sym("MSFT")).expect("priced");
    assert_eq!((price, ts), (300_000, 10));
}

#[test]
fn channel_blocks_at_capacity_without_dropping() {
    let mut ch = BoundedChannel::new(2);
    assert!(matches!(ch.try_send(vec![quote("MSFT", 1, Currency::Usd, 1)]), SendOutcome::Sent));
    assert!(matches!(ch.try_send(vec![quote("MSFT", 2, Currency::Usd, 2)]), SendOutcome::Sent));
    // At capacity: the batch comes back untouched instead of being
    // dropped; the producer holds it until the receiver drains.
    let refused = ch.try_send(vec![quote("MSFT", 3, Currency::Usd, 3)]);
    let kept = match refused {
        SendOutcome::Full(b) => b,
        SendOutcome::Sent => panic!("third batch must not be enqueued"),
    };
    assert_eq!(kept.len(), 1);
    assert_eq!(kept[0].price_milli, 3);
    assert_eq!(ch.len(), 2);
    // Receiver drains one; the held batch now goes through.
    let first = ch.recv().expect("queued batch");
    assert_eq!(first[0].price_milli, 1);
    assert!(matches!(ch.try_send(kept), SendOutcome::Sent));
    // FIFO order end to end.
    assert_eq!(ch.recv().expect("queued")[0].price_milli, 2);
    assert_eq!(ch.recv().expect("queued")[0].price_milli, 3);
    assert!(ch.recv().is_none());
}

#[test]
fn batcher_emits_full_batches_in_arrival_order() {
    let mut batcher = Batcher::new(2);
    assert!(batcher.add(quote("MSFT", 1, Currency::Usd, 1)).is_none());
    let full = batcher.add(quote("TSM", 2, Currency::Usd, 2)).expect("batch is full");
    assert_eq!(full.len(), 2);
    assert!(full[0].symbol.same_as(&sym("MSFT")));
    assert!(full[1].symbol.same_as(&sym("TSM")));
    // Nothing pending afterwards.
    assert!(batcher.flush().is_empty());
    // A partial batch comes out through flush.
    assert!(batcher.add(quote("AMZN", 3, Currency::Usd, 3)).is_none());
    let rest = batcher.flush();
    assert_eq!(rest.len(), 1);
    assert!(rest[0].symbol.same_as(&sym("AMZN")));
}

#[test]
fn subscription_needs_at_least_one_symbol() {
    assert!(matches!(subscribe(&vec![]), Err(FeedError::EmptySymbols)));
    assert!(matches!(
        subscribe(&vec![sym("MSFT")]),
        Ok(FeedState::AwaitingConnect { attempt: 0 })
    ));
}

#[test]
fn backoff_doubles_and_stays_bounded() {
    assert_eq!(backoff_delay(0), 500);
    assert_eq!(backoff_delay(1), 1000);
    assert_eq!(backoff_delay(2), 2000);
    assert_eq!(backoff_delay(5), 16_000);
    assert_eq!(backoff_delay(6), 30_000);
    for attempt in 0..64 {
        let d = backoff_delay(attempt);
        assert!(d >= BASE_BACKOFF_MS && d <= MAX_BACKOFF_MS);
    }
}

#[test]
fn malformed_frame_is_skipped_not_fatal() {
    let state = FeedState::Subscribed;
    let (next, action) = step(state, FeedEvent::Frame(vec![0xFF, 0x00]));
    assert!(matches!(next, FeedState::Subscribed));
    assert!(matches!(action, FeedAction::Skip));
}

#[test]
fn reconnect_resumes_delivery_without_duplicate_application() {
    // Subscribe and connect.
    let mut state = subscribe(&vec![sym("MSFT")]).expect("one symbol");
    let (s, a) = step(state, FeedEvent::Connected);
    assert!(matches!(a, FeedAction::SendSubscribe));
    state = s;

    let mut table = PriceTable::new();
    let q1 = quote("MSFT", 300_000, Currency::Usd, 10);

    // A quote arrives and is applied.
    let (s, a) = step(state, FeedEvent::Frame(encode(&q1)));
    state = s;
    match a {
        FeedAction::Emit(q) => table.apply(&q),
        _ => panic!("a well-formed frame emits its quote"),
    }

    // The connection drops: back off, then reconnect and resubscribe.
    let (s, a) = step(state, FeedEvent::ConnectionLost);
    state = s;
    assert!(matches!(state, FeedState::AwaitingConnect { attempt: 0 }));
    match a {
        FeedAction::Reconnect { delay_ms } => assert_eq!(delay_ms, 500),
        _ => panic!("a lost connection asks for a reconnect"),
    }
    let (s, a) = step(state, FeedEvent::Connected);
    state = s;
    assert!(matches!(state, FeedState::Subscribed));
    assert!(matches!(a, FeedAction::SendSubscribe));

    // The feed replays the same quote across the reconnect; applying
    // it again leaves the table as it was.
    let (s, a) = step(state, FeedEvent::Frame(encode(&q1)));
    state = s;
    match a {
        FeedAction::Emit(q) => table.apply(&q),
        _ => panic!("a well-formed frame emits its quote"),
    }
    let (price, _, ts) = table.lookup(&sym("MSFT")).expect("priced");
    assert_eq!((price, ts), (300_000, 10));

    // Delivery then resumes with fresh quotes.
    let q2 = quote("MSFT", 305_000, Currency::Usd, 12);
    let (_, a) = step(state, FeedEvent::Frame(encode(&q2)));
    match a {
        FeedAction::Emit(q) => table.apply(&q),
        _ => panic!("a well-formed frame emits its quote"),
    }
    let (price, _, ts) = table.lookup(&sym("MSFT")).expect("priced");
    assert_eq!((price, ts), (305_000, 12));
}

#[test]
fn end_to_end_snapshot_reflects_newest_price() {
    // Feed emits {MSFT, 300 USD, t1}, disconnects, reconnects, emits
    // {MSFT, 305 USD, t2}: the final snapshot prices MSFT at 305.
    let metas = vec![QuoteMeta::new(sym("MSFT"), b"MSFT".to_vec(), Currency::Usd)];
    let portfolio = Portfolio::new(
        Currency::Eur,
        vec![Position::new(sym("MSFT"), 25_000)],
        &metas,
    )
    .expect("valid configuration");
    let rates = Rates::new(900, 1000, 1000).expect("rates in range");

    let mut feed_state = subscribe(&vec![sym("MSFT")]).expect("one symbol");
    let mut batcher = Batcher::new(8);
    let mut channel = BoundedChannel::new(4);
    let mut table = PriceTable::new();
    let mut recv_state = RecvState::Idle;
    let mut snapshot = None;

    let events = vec![
        FeedEvent::Connected,
        FeedEvent::Frame(encode(&quote("MSFT", 300_000, Currency::Usd, 1))),
        FeedEvent::ConnectionLost,
        FeedEvent::Connected,
        FeedEvent::Frame(encode(&quote("MSFT", 305_000, Currency::Usd, 2))),
    ];
    for event in events {
        let (s, action) = step(feed_state, event);
        feed_state = s;
        if let FeedAction::Emit(q) = action {
            if let Some(batch) = batcher.add(q) {
                assert!(matches!(channel.try_send(batch), SendOutcome::Sent));
            }
        }
        // The coalescing window closes after each event burst.
        let pending = batcher.flush();
        if !pending.is_empty() {
            assert!(matches!(channel.try_send(pending), SendOutcome::Sent));
        }
        while let Some(batch) = channel.recv() {
            let (s, action) = recv_step(recv_state, RecvEvent::Batch(batch));
            recv_state = s;
            match action {
                RecvAction::Process(b) => {
                    snapshot = Some(handle_batch(&mut table, &portfolio, &rates, &b, 2));
                },
                RecvAction::Stop => panic!("receiver must keep running"),
            }
        }
    }

    let snap = snapshot.expect("at least one snapshot dispatched");
    assert_eq!(snap.positions[0].last, Some((305_000, Currency::Usd)));
    // 25 * 305 USD * 0.9 EUR/USD.
    assert_eq!(snap.total_milli, 6_862_500);

    // The producer closing the channel stops the receiver.
    let (s, action) = recv_step(recv_state, RecvEvent::Closed);
    assert!(matches!(s, RecvState::Stopped));
    assert!(matches!(action, RecvAction::Stop));
}

#[test]
fn sink_policy_retries_then_skips_then_turns_fatal() {
    let mut policy = SinkPolicy::new(3, Some(2));
    assert!(policy.should_retry(0));
    assert!(policy.should_retry(2));
    assert!(!policy.should_retry(3));
    // One snapshot where every sink failed: not yet fatal.
    assert!(!policy.record_dispatch(true));
    // A second in a row reaches the configured threshold.
    assert!(policy.record_dispatch(true));
    // A success resets the run.
    assert!(!policy.record_dispatch(false));
    assert!(!policy.record_dispatch(true));
}

#[test]
fn sink_policy_without_threshold_never_turns_fatal() {
    let mut policy = SinkPolicy::new(1, None);
    for _ in 0..100 {
        assert!(!policy.record_dispatch(true));
    }
}
