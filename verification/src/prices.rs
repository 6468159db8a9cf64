//! Last-known-price table.
//!
//! The table maps each symbol to the most recent quote seen for it.
//! It only moves forward in time per symbol: a quote whose timestamp is
//! the same as or older than the stored one is discarded, never
//! applied. Because of this supersession rule the table is insensitive
//! to delivery order, so feed-level reordering or duplicate delivery
//! across a reconnect cannot corrupt it.

use vstd::prelude::*;

use crate::quote::Quote;
use crate::quote::QuoteModel;
use crate::quote::Symbol;

verus! {

/// What the table stores for one symbol.
pub ghost struct PriceVal {
    pub price_milli: u64,
    pub currency: crate::quote::Currency,
    pub timestamp: u64,
}

/// The stored value a quote carries.
pub open spec fn val_of(q: QuoteModel) -> PriceVal {
    PriceVal { price_milli: q.price_milli, currency: q.currency, timestamp: q.timestamp }
}

/// Some entry in `models` carries symbol `s`.
pub open spec fn has_symbol(models: Seq<QuoteModel>, s: Seq<u8>) -> bool {
    exists|i: int| 0 <= i < models.len() && (#[trigger] models[i]).symbol == s
}

/// The index of the entry carrying symbol `s`.
pub open spec fn index_of_symbol(models: Seq<QuoteModel>, s: Seq<u8>) -> int {
    choose|i: int| 0 <= i < models.len() && (#[trigger] models[i]).symbol == s
}

/// Entries carry pairwise distinct symbols.
pub open spec fn unique_symbols(models: Seq<QuoteModel>) -> bool {
    forall|i: int, j: int|
        0 <= i < j < models.len() ==> (#[trigger] models[i]).symbol != (#[trigger] models[j]).symbol
}

/// The map a sequence of entries with unique symbols stands for.
pub open spec fn tbl_map(models: Seq<QuoteModel>) -> Map<Seq<u8>, PriceVal> {
    Map::new(
        |s: Seq<u8>| has_symbol(models, s),
        |s: Seq<u8>| val_of(models[index_of_symbol(models, s)]),
    )
}

/// Applying one quote: overwrite the stored value unless the stored
/// one is at least as recent.
pub open spec fn spec_apply(m: Map<Seq<u8>, PriceVal>, q: QuoteModel) -> Map<Seq<u8>, PriceVal> {
    if m.dom().contains(q.symbol) && m[q.symbol].timestamp >= q.timestamp {
        m
    } else {
        m.insert(q.symbol, val_of(q))
    }
}

/// Applying a sequence of quotes in order.
pub open spec fn apply_all(m: Map<Seq<u8>, PriceVal>, qs: Seq<QuoteModel>) -> Map<
    Seq<u8>,
    PriceVal,
>
    decreases qs.len(),
{
    if qs.len() == 0 {
        m
    } else {
        spec_apply(apply_all(m, qs.drop_last()), qs.last())
    }
}

/// `v` is the value of a quote for `s` in `qs` whose timestamp no
/// other quote for `s` in `qs` exceeds.
pub open spec fn is_latest_for(qs: Seq<QuoteModel>, s: Seq<u8>, v: PriceVal) -> bool {
    exists|i: int|
        0 <= i < qs.len() && (#[trigger] qs[i]).symbol == s && val_of(qs[i]) == v && forall|j: int|
            0 <= j < qs.len() && (#[trigger] qs[j]).symbol == s ==> qs[j].timestamp <= v.timestamp
}

/// Quotes for the same symbol with the same timestamp agree: the
/// feed's duplicate deliveries repeat a quote, they never contradict
/// it.
pub open spec fn coherent(qs: Seq<QuoteModel>) -> bool {
    forall|i: int, j: int|
        0 <= i < qs.len() && 0 <= j < qs.len() && (#[trigger] qs[i]).symbol == (
        #[trigger] qs[j]).symbol && qs[i].timestamp == qs[j].timestamp ==> qs[i] == qs[j]
}

/// Supersession invariant: starting from an empty table, after any
/// sequence of quotes the table holds an entry for a symbol exactly
/// when some quote for it was seen, and that entry is a seen quote for
/// the symbol of maximal timestamp.
pub proof fn lemma_apply_all_latest(qs: Seq<QuoteModel>, s: Seq<u8>)
    ensures
        apply_all(Map::empty(), qs).dom().contains(s) <==> has_symbol(qs, s),
        apply_all(Map::empty(), qs).dom().contains(s) ==> is_latest_for(
            qs,
            s,
            apply_all(Map::empty(), qs)[s],
        ),
    decreases qs.len(),
{
    if qs.len() == 0 {
        assert(!has_symbol(qs, s));
    } else {
        let prefix = qs.drop_last();
        let last = qs.last();
        lemma_apply_all_latest(prefix, s);
        let m0 = apply_all(Map::empty(), prefix);
        let m = apply_all(Map::empty(), qs);
        assert(m == spec_apply(m0, last));
        assert(forall|i: int| 0 <= i < prefix.len() ==> prefix[i] == #[trigger] qs[i]);
        if last.symbol == s {
            if m0.dom().contains(s) && m0[s].timestamp >= last.timestamp {
                assert(m == m0);
                let i = choose|i: int|
                    0 <= i < prefix.len() && (#[trigger] prefix[i]).symbol == s && val_of(prefix[i])
                        == m0[s] && forall|j: int|
                        0 <= j < prefix.len() && (#[trigger] prefix[j]).symbol == s
                            ==> prefix[j].timestamp <= m0[s].timestamp;
                assert(qs[i].symbol == s && val_of(qs[i]) == m[s]);
                assert(forall|j: int|
                    0 <= j < qs.len() && (#[trigger] qs[j]).symbol == s ==> qs[j].timestamp
                        <= m[s].timestamp);
                assert(is_latest_for(qs, s, m[s]));
                assert(has_symbol(qs, s));
            } else {
                assert(m == m0.insert(s, val_of(last)));
                assert(m.dom().contains(s));
                let iw = qs.len() - 1;
                assert(qs[iw].symbol == s && val_of(qs[iw]) == m[s]);
                assert(forall|j: int|
                    0 <= j < qs.len() && (#[trigger] qs[j]).symbol == s ==> qs[j].timestamp
                        <= m[s].timestamp) by {
                    assert forall|j: int|
                        0 <= j < qs.len() && (#[trigger] qs[j]).symbol == s implies qs[j].timestamp
                        <= m[s].timestamp by {
                        if j < qs.len() - 1 {
                            assert(prefix[j].symbol == s);
                            assert(m0.dom().contains(s));
                            assert(prefix[j].timestamp <= m0[s].timestamp);
                            assert(m0[s].timestamp <= last.timestamp);
                        }
                    }
                }
                assert(is_latest_for(qs, s, m[s]));
                assert(has_symbol(qs, s));
            }
        } else {
            assert(m.dom().contains(s) <==> m0.dom().contains(s));
            if has_symbol(qs, s) {
                let i = choose|i: int| 0 <= i < qs.len() && (#[trigger] qs[i]).symbol == s;
                assert(i < qs.len() - 1);
                assert(prefix[i].symbol == s);
                assert(has_symbol(prefix, s));
            }
            if m.dom().contains(s) {
                assert(m[s] == m0[s]);
                let i = choose|i: int|
                    0 <= i < prefix.len() && (#[trigger] prefix[i]).symbol == s && val_of(prefix[i])
                        == m0[s] && forall|j: int|
                        0 <= j < prefix.len() && (#[trigger] prefix[j]).symbol == s
                            ==> prefix[j].timestamp <= m0[s].timestamp;
                assert(qs[i].symbol == s && val_of(qs[i]) == m[s]);
                assert(forall|j: int|
                    0 <= j < qs.len() && (#[trigger] qs[j]).symbol == s ==> qs[j].timestamp
                        <= m[s].timestamp);
                assert(is_latest_for(qs, s, m[s]));
            }
        }
    }
}

/// Delivery order does not matter: two delivery orders of the same
/// quotes yield tables that agree on every symbol.
pub proof fn lemma_apply_all_order_independent(
    qs1: Seq<QuoteModel>,
    qs2: Seq<QuoteModel>,
    s: Seq<u8>,
)
    requires
        coherent(qs1),
        forall|q: QuoteModel| qs1.contains(q) <==> qs2.contains(q),
    ensures
        apply_all(Map::empty(), qs1).dom().contains(s) <==> apply_all(
            Map::empty(),
            qs2,
        ).dom().contains(s),
        apply_all(Map::empty(), qs1).dom().contains(s) ==> apply_all(Map::empty(), qs1)[s]
            == apply_all(Map::empty(), qs2)[s],
{
    lemma_apply_all_latest(qs1, s);
    lemma_apply_all_latest(qs2, s);
    let m1 = apply_all(Map::empty(), qs1);
    let m2 = apply_all(Map::empty(), qs2);
    assert(has_symbol(qs1, s) <==> has_symbol(qs2, s)) by {
        if has_symbol(qs1, s) {
            let i = choose|i: int| 0 <= i < qs1.len() && (#[trigger] qs1[i]).symbol == s;
            assert(qs1.contains(qs1[i]));
            assert(qs2.contains(qs1[i]));
            let j = choose|j: int| 0 <= j < qs2.len() && qs2[j] == qs1[i];
            assert(qs2[j].symbol == s);
            assert(has_symbol(qs2, s));
        }
        if has_symbol(qs2, s) {
            let i = choose|i: int| 0 <= i < qs2.len() && (#[trigger] qs2[i]).symbol == s;
            assert(qs2.contains(qs2[i]));
            assert(qs1.contains(qs2[i]));
            let j = choose|j: int| 0 <= j < qs1.len() && qs1[j] == qs2[i];
            assert(qs1[j].symbol == s);
            assert(has_symbol(qs1, s));
        }
    }
    if m1.dom().contains(s) {
        let v1 = m1[s];
        let v2 = m2[s];
        let i1 = choose|i: int|
            0 <= i < qs1.len() && (#[trigger] qs1[i]).symbol == s && val_of(qs1[i]) == v1 && forall|
                j: int,
            | 0 <= j < qs1.len() && (#[trigger] qs1[j]).symbol == s ==> qs1[j].timestamp
                <= v1.timestamp;
        let i2 = choose|i: int|
            0 <= i < qs2.len() && (#[trigger] qs2[i]).symbol == s && val_of(qs2[i]) == v2 && forall|
                j: int,
            | 0 <= j < qs2.len() && (#[trigger] qs2[j]).symbol == s ==> qs2[j].timestamp
                <= v2.timestamp;
        let q1 = qs1[i1];
        let q2 = qs2[i2];
        // Each maximal witness is delivered in the other order too, so
        // the two maxima agree.
        assert(qs1.contains(q1));
        assert(qs2.contains(q1));
        let k1 = choose|k: int| 0 <= k < qs2.len() && qs2[k] == q1;
        assert(qs2[k1].symbol == s);
        assert(q1.timestamp <= v2.timestamp);
        assert(qs2.contains(q2));
        assert(qs1.contains(q2));
        let k2 = choose|k: int| 0 <= k < qs1.len() && qs1[k] == q2;
        assert(qs1[k2].symbol == s);
        assert(q2.timestamp <= v1.timestamp);
        assert(v1.timestamp == v2.timestamp);
        // Coherence: same symbol, same timestamp, so the same quote.
        assert(qs1[i1].symbol == qs1[k2].symbol && qs1[i1].timestamp == qs1[k2].timestamp);
        assert(q1 == q2);
        assert(v1 == v2);
    }
}

/// Replay is idempotent: a quote that is already superseded (same
/// symbol, same or older timestamp) leaves the table unchanged, and
/// with it every valuation computed from the table.
pub proof fn lemma_replay_idempotent(m: Map<Seq<u8>, PriceVal>, q: QuoteModel, r: QuoteModel)
    requires
        r.symbol == q.symbol,
        r.timestamp <= q.timestamp,
    ensures
        spec_apply(spec_apply(m, q), r) == spec_apply(m, q),
{
    let m1 = spec_apply(m, q);
    if m.dom().contains(q.symbol) && m[q.symbol].timestamp >= q.timestamp {
        assert(m1 == m);
        assert(m1[r.symbol].timestamp >= r.timestamp);
    } else {
        assert(m1 == m.insert(q.symbol, val_of(q)));
        assert(m1[r.symbol].timestamp == q.timestamp >= r.timestamp);
    }
}

/// Every stored price is within the wire bound. Quotes enter the
/// table only through the codec, which enforces the bound, so the
/// receiver keeps this invariant alive batch after batch.
pub open spec fn price_bounded(m: Map<Seq<u8>, PriceVal>) -> bool {
    forall|s: Seq<u8>|
        m.dom().contains(s) ==> (#[trigger] m[s]).price_milli
            <= crate::codec::MAX_PRICE_MILLI
}

/// Applying a quote within the wire bound keeps every stored price
/// within it.
pub proof fn lemma_apply_preserves_bound(m: Map<Seq<u8>, PriceVal>, q: QuoteModel)
    requires
        price_bounded(m),
        q.price_milli <= crate::codec::MAX_PRICE_MILLI,
    ensures
        price_bounded(spec_apply(m, q)),
{
}

/// Applying a batch of quotes within the wire bound keeps every stored
/// price within it.
pub proof fn lemma_apply_all_preserves_bound(m: Map<Seq<u8>, PriceVal>, qs: Seq<QuoteModel>)
    requires
        price_bounded(m),
        forall|i: int|
            0 <= i < qs.len() ==> (#[trigger] qs[i]).price_milli
                <= crate::codec::MAX_PRICE_MILLI,
    ensures
        price_bounded(apply_all(m, qs)),
    decreases qs.len(),
{
    if qs.len() > 0 {
        lemma_apply_all_preserves_bound(m, qs.drop_last());
        lemma_apply_preserves_bound(apply_all(m, qs.drop_last()), qs.last());
    }
}

/// The last-known-price table.
pub struct PriceTable {
    entries: Vec<Quote>,
}

impl View for PriceTable {
    type V = Map<Seq<u8>, PriceVal>;

    closed spec fn view(&self) -> Map<Seq<u8>, PriceVal> {
        tbl_map(self.models())
    }
}

impl PriceTable {
    /// The entries as quote models.
    pub closed spec fn models(&self) -> Seq<QuoteModel> {
        self.entries@.map_values(|q: Quote| q@)
    }

    /// Well-formed: one entry per symbol.
    pub closed spec fn wf(&self) -> bool {
        unique_symbols(self.models())
    }

    /// An empty table.
    pub fn new() -> (t: PriceTable)
        ensures
            t.wf(),
            t@ == Map::<Seq<u8>, PriceVal>::empty(),
    {
        let t = PriceTable { entries: Vec::new() };
        proof {
            assert(t.models() =~= Seq::<QuoteModel>::empty());
            assert(t@ =~= Map::<Seq<u8>, PriceVal>::empty());
        }
        t
    }

    /// Index of the entry for `sym`, if the table holds one.
    fn find_index(&self, sym: &Symbol) -> (r: Option<usize>)
        ensures
            match r {
                Option::Some(i) => i < self.models().len() && self.models()[i as int].symbol
                    == sym@,
                Option::None => !has_symbol(self.models(), sym@),
            },
    {
        let n = self.entries.len();
        assert(self.models().len() == n);
        let mut i: usize = 0;
        while i < n
            invariant
                i <= n,
                n == self.models().len(),
                forall|j: int| 0 <= j < i ==> (#[trigger] self.models()[j]).symbol != sym@,
            decreases n - i,
        {
            let e = &self.entries[i];
            if e.symbol.same_as(sym) {
                assert(self.models()[i as int].symbol == sym@);
                return Some(i);
            }
            assert(self.models()[i as int].symbol != sym@);
            i += 1;
        }
        None
    }

    /// Last stored (price, currency, timestamp) for a symbol.
    pub fn lookup(&self, sym: &Symbol) -> (r: Option<(u64, crate::quote::Currency, u64)>)
        requires
            self.wf(),
        ensures
            match r {
                Option::Some(v) => self@.dom().contains(sym@) && self@[sym@] == (PriceVal {
                    price_milli: v.0,
                    currency: v.1,
                    timestamp: v.2,
                }),
                Option::None => !self@.dom().contains(sym@),
            },
    {
        match self.find_index(sym) {
            Some(i) => {
                proof {
                    lemma_tbl_map_at(self.models(), i as int);
                }
                let e = &self.entries[i];
                Some((e.price_milli, e.currency, e.timestamp))
            },
            None => None,
        }
    }

    /// Apply one quote under the supersession rule: overwrite the
    /// stored price only if the quote is strictly newer; a same-or-
    /// older quote is discarded.
    pub fn apply(&mut self, q: &Quote)
        requires
            old(self).wf(),
        ensures
            final(self).wf(),
            final(self)@ == spec_apply(old(self)@, q@),
    {
        let ghost old_models = self.models();
        match self.find_index(&q.symbol) {
            Some(i) => {
                proof {
                    lemma_tbl_map_at(old_models, i as int);
                }
                if self.entries[i].timestamp >= q.timestamp {
                    assert(self@ == spec_apply(self@, q@));
                } else {
                    let nq = q.duplicate();
                    self.entries.set(i, nq);
                    proof {
                        assert(self.models() =~= old_models.update(i as int, q@));
                        lemma_update_same_symbol(old_models, i as int, q@);
                        assert(self@ =~= tbl_map(old_models).insert(q@.symbol, val_of(q@)));
                    }
                }
            },
            None => {
                let nq = q.duplicate();
                self.entries.push(nq);
                proof {
                    assert(self.models() =~= old_models.push(q@));
                    lemma_push_new_symbol(old_models, q@);
                    assert(self@ =~= tbl_map(old_models).insert(q@.symbol, val_of(q@)));
                }
            },
        }
    }

    /// Apply every quote of a batch, in order.
    pub fn apply_batch(&mut self, batch: &Vec<Quote>)
        requires
            old(self).wf(),
        ensures
            final(self).wf(),
            final(self)@ == apply_all(old(self)@, batch@.map_values(|q: Quote| q@)),
    {
        let ghost qs = batch@.map_values(|q: Quote| q@);
        let n = batch.len();
        let mut i: usize = 0;
        while i < n
            invariant
                i <= n,
                n == batch@.len(),
                qs == batch@.map_values(|q: Quote| q@),
                self.wf(),
                self@ == apply_all(old(self)@, qs.take(i as int)),
            decreases n - i,
        {
            self.apply(&batch[i]);
            proof {
                assert(qs.take(i as int + 1).drop_last() =~= qs.take(i as int));
                assert(qs.take(i as int + 1).last() == qs[i as int]);
            }
            i += 1;
        }
        proof {
            assert(qs.take(n as int) =~= qs);
        }
    }
}

/// With unique symbols, the table maps the symbol of entry `i` to that
/// entry's value.
proof fn lemma_tbl_map_at(models: Seq<QuoteModel>, i: int)
    requires
        unique_symbols(models),
        0 <= i < models.len(),
    ensures
        tbl_map(models).dom().contains(models[i].symbol),
        tbl_map(models)[models[i].symbol] == val_of(models[i]),
{
    let s = models[i].symbol;
    assert(has_symbol(models, s));
    let j = index_of_symbol(models, s);
    assert(0 <= j < models.len() && models[j].symbol == s);
    assert(j == i);
}

/// Overwriting the entry that already carries the quote's symbol
/// refreshes that symbol's value and keeps every other symbol.
proof fn lemma_update_same_symbol(models: Seq<QuoteModel>, i: int, q: QuoteModel)
    requires
        unique_symbols(models),
        0 <= i < models.len(),
        models[i].symbol == q.symbol,
    ensures
        unique_symbols(models.update(i, q)),
        tbl_map(models.update(i, q)) =~= tbl_map(models).insert(q.symbol, val_of(q)),
{
    let upd = models.update(i, q);
    assert(unique_symbols(upd)) by {
        assert forall|a: int, b: int| 0 <= a < b < upd.len() implies (#[trigger] upd[a]).symbol != (
        #[trigger] upd[b]).symbol by {
            assert(models[a].symbol != models[b].symbol);
        }
    }
    assert forall|s: Seq<u8>| #[trigger]
        tbl_map(upd).dom().contains(s) <==> tbl_map(models).insert(
            q.symbol,
            val_of(q),
        ).dom().contains(s) by {
        if has_symbol(upd, s) {
            let k = choose|k: int| 0 <= k < upd.len() && (#[trigger] upd[k]).symbol == s;
            if k == i {
                assert(s == q.symbol);
            } else {
                assert(models[k].symbol == s);
                assert(has_symbol(models, s));
            }
        }
        if has_symbol(models, s) {
            let k = choose|k: int| 0 <= k < models.len() && (#[trigger] models[k]).symbol == s;
            if k == i {
                assert(upd[k].symbol == q.symbol && q.symbol == s);
            } else {
                assert(upd[k].symbol == s);
            }
            assert(has_symbol(upd, s));
        }
        if s == q.symbol {
            assert(upd[i].symbol == s);
            assert(has_symbol(upd, s));
        }
    }
    assert forall|s: Seq<u8>| tbl_map(upd).dom().contains(s) implies #[trigger] tbl_map(upd)[s]
        == tbl_map(models).insert(q.symbol, val_of(q))[s] by {
        let k = index_of_symbol(upd, s);
        assert(0 <= k < upd.len() && upd[k].symbol == s);
        if s == q.symbol {
            assert(k == i);
            assert(tbl_map(upd)[s] == val_of(q));
        } else {
            assert(k != i);
            assert(models[k].symbol == s);
            assert(has_symbol(models, s));
            let k2 = index_of_symbol(models, s);
            assert(0 <= k2 < models.len() && models[k2].symbol == s);
            assert(k2 == k);
            assert(tbl_map(upd)[s] == val_of(upd[k]) && upd[k] == models[k]);
        }
    }
}

/// Appending an entry for a symbol the table does not hold adds that
/// symbol and keeps every other symbol.
proof fn lemma_push_new_symbol(models: Seq<QuoteModel>, q: QuoteModel)
    requires
        unique_symbols(models),
        !has_symbol(models, q.symbol),
    ensures
        unique_symbols(models.push(q)),
        tbl_map(models.push(q)) =~= tbl_map(models).insert(q.symbol, val_of(q)),
{
    let ext = models.push(q);
    assert(unique_symbols(ext)) by {
        assert forall|a: int, b: int| 0 <= a < b < ext.len() implies (#[trigger] ext[a]).symbol != (
        #[trigger] ext[b]).symbol by {
            if b < models.len() {
                assert(models[a].symbol != models[b].symbol);
            } else {
                assert(ext[b] == q);
                assert(ext[a] == models[a]);
                assert(models[a].symbol != q.symbol);
            }
        }
    }
    assert forall|s: Seq<u8>| #[trigger]
        tbl_map(ext).dom().contains(s) <==> tbl_map(models).insert(
            q.symbol,
            val_of(q),
        ).dom().contains(s) by {
        if has_symbol(ext, s) {
            let k = choose|k: int| 0 <= k < ext.len() && (#[trigger] ext[k]).symbol == s;
            if k == models.len() {
                assert(s == q.symbol);
            } else {
                assert(models[k].symbol == s);
                assert(has_symbol(models, s));
            }
        }
        if has_symbol(models, s) {
            let k = choose|k: int| 0 <= k < models.len() && (#[trigger] models[k]).symbol == s;
            assert(ext[k].symbol == s);
            assert(has_symbol(ext, s));
        }
        if s == q.symbol {
            assert(ext[models.len() as int].symbol == s);
            assert(has_symbol(ext, s));
        }
    }
    assert forall|s: Seq<u8>| tbl_map(ext).dom().contains(s) implies #[trigger] tbl_map(ext)[s]
        == tbl_map(models).insert(q.symbol, val_of(q))[s] by {
        let k = index_of_symbol(ext, s);
        assert(0 <= k < ext.len() && ext[k].symbol == s);
        if s == q.symbol {
            assert(k == models.len()) by {
                if k < models.len() {
                    assert(models[k].symbol == q.symbol);
                    assert(has_symbol(models, q.symbol));
                }
            }
            assert(tbl_map(ext)[s] == val_of(q));
        } else {
            assert(k < models.len());
            assert(models[k].symbol == s);
            assert(has_symbol(models, s));
            let k2 = index_of_symbol(models, s);
            assert(0 <= k2 < models.len() && models[k2].symbol == s);
            assert(k2 == k);
            assert(tbl_map(ext)[s] == val_of(ext[k]) && ext[k] == models[k]);
        }
    }
}

} // verus!
