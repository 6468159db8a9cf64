//! Portfolio model: positions, currency conversion and valuation.
//!
//! The portfolio is a static list of positions in one home currency,
//! resolved and validated once at startup. Valuation is a pure
//! function of the portfolio, the last-known-price table and a fixed
//! conversion table: each position's native-currency price is
//! converted into the home currency and multiplied by the quantity;
//! a position whose symbol has no stored price yet is valued at zero
//! and marked unpriced rather than failing.

use vstd::arithmetic::div_mod::lemma_div_is_ordered;
use vstd::arithmetic::div_mod::lemma_div_multiples_vanish;
use vstd::arithmetic::div_mod::lemma_div_pos_is_pos;
use vstd::prelude::*;

use crate::codec::MAX_PRICE_MILLI;
use crate::prices::price_bounded;
use crate::prices::PriceTable;
use crate::prices::PriceVal;
use crate::quote::Currency;
use crate::quote::Symbol;
use crate::SCALE;

verus! {

/// Largest quantity a position may hold, in milli-units.
pub const MAX_QTY_MILLI: u64 = 1_000_000_000_000;

/// Largest conversion rate, in milli-units of home currency per unit.
pub const MAX_RATE_MILLI: u64 = 1_000_000_000;

/// Largest number of positions a portfolio may hold.
pub const MAX_POSITIONS: usize = 100_000;

/// Invalid startup configuration; fatal, never recovered.
#[derive(Clone, Copy, PartialEq, Eq, Structural, Debug)]
pub enum ConfigError {
    /// The single supported home currency is EUR.
    UnsupportedHomeCurrency,
    /// More positions than the valuation arithmetic is sized for.
    TooManyPositions,
    /// A position's quantity exceeds `MAX_QTY_MILLI`.
    QuantityOutOfRange,
    /// A position's symbol is missing from the quote metadata set.
    UnknownPositionSymbol,
    /// A conversion rate exceeds `MAX_RATE_MILLI`.
    RateOutOfRange,
}

/// Conversion table: milli-units of home currency per unit of each
/// quoting currency. The home currency converts at exactly one.
#[derive(Clone, Copy, PartialEq, Eq, Structural, Debug)]
pub struct Rates {
    pub eur_milli: u64,
    pub usd_milli: u64,
    pub gbp_milli: u64,
    pub chf_milli: u64,
}

/// Rate applied to a price quoted in `c`.
pub open spec fn rate_of(r: Rates, c: Currency) -> u64 {
    match c {
        Currency::Eur => r.eur_milli,
        Currency::Usd => r.usd_milli,
        Currency::Gbp => r.gbp_milli,
        Currency::Chf => r.chf_milli,
    }
}

impl Rates {
    /// Every rate is bounded and the home currency converts at one.
    pub open spec fn wf(&self) -> bool {
        &&& self.eur_milli == SCALE
        &&& self.usd_milli <= MAX_RATE_MILLI
        &&& self.gbp_milli <= MAX_RATE_MILLI
        &&& self.chf_milli <= MAX_RATE_MILLI
    }

    /// Build the conversion table for a EUR-homed portfolio.
    pub fn new(usd_milli: u64, gbp_milli: u64, chf_milli: u64) -> (r: Result<Rates, ConfigError>)
        ensures
            r is Ok <==> (usd_milli <= MAX_RATE_MILLI && gbp_milli <= MAX_RATE_MILLI && chf_milli
                <= MAX_RATE_MILLI),
            r matches Ok(t) ==> t == (Rates {
                eur_milli: SCALE,
                usd_milli,
                gbp_milli,
                chf_milli,
            }) && t.wf(),
            r matches Err(e) ==> e == ConfigError::RateOutOfRange,
    {
        if usd_milli > MAX_RATE_MILLI || gbp_milli > MAX_RATE_MILLI || chf_milli > MAX_RATE_MILLI {
            Err(ConfigError::RateOutOfRange)
        } else {
            Ok(Rates { eur_milli: SCALE, usd_milli, gbp_milli, chf_milli })
        }
    }

    /// Rate applied to a price quoted in `c`.
    pub fn rate(&self, c: Currency) -> (r: u64)
        ensures
            r == rate_of(*self, c),
    {
        match c {
            Currency::Eur => self.eur_milli,
            Currency::Usd => self.usd_milli,
            Currency::Gbp => self.gbp_milli,
            Currency::Chf => self.chf_milli,
        }
    }
}

/// Per-symbol subscription metadata, resolved once at startup.
pub struct QuoteMeta {
    pub symbol: Symbol,
    pub display_name: Vec<u8>,
    pub native_currency: Currency,
}

/// Mathematical model of one metadata record.
pub ghost struct QuoteMetaModel {
    pub symbol: Seq<u8>,
    pub display_name: Seq<u8>,
    pub native_currency: Currency,
}

impl View for QuoteMeta {
    type V = QuoteMetaModel;

    open spec fn view(&self) -> QuoteMetaModel {
        QuoteMetaModel {
            symbol: self.symbol@,
            display_name: self.display_name@,
            native_currency: self.native_currency,
        }
    }
}

impl QuoteMeta {
    /// Assemble one metadata record.
    pub fn new(symbol: Symbol, display_name: Vec<u8>, native_currency: Currency) -> (m: QuoteMeta)
        ensures
            m@.symbol == symbol@,
            m@.display_name == display_name@,
            m@.native_currency == native_currency,
    {
        QuoteMeta { symbol, display_name, native_currency }
    }
}

/// Some metadata record carries symbol `s`.
pub open spec fn meta_has_symbol(metas: Seq<QuoteMetaModel>, s: Seq<u8>) -> bool {
    exists|i: int| 0 <= i < metas.len() && (#[trigger] metas[i]).symbol == s
}

/// One position: a symbol and the held quantity, never mutated.
pub struct Position {
    pub symbol: Symbol,
    pub quantity_milli: u64,
}

/// Mathematical model of one position.
pub ghost struct PositionModel {
    pub symbol: Seq<u8>,
    pub quantity_milli: u64,
}

impl View for Position {
    type V = PositionModel;

    open spec fn view(&self) -> PositionModel {
        PositionModel { symbol: self.symbol@, quantity_milli: self.quantity_milli }
    }
}

impl Position {
    /// Assemble one position.
    pub fn new(symbol: Symbol, quantity_milli: u64) -> (p: Position)
        ensures
            p@.symbol == symbol@,
            p@.quantity_milli == quantity_milli,
    {
        Position { symbol, quantity_milli }
    }
}

/// A position passes validation: quantity in range, symbol known.
pub open spec fn pos_ok(p: PositionModel, metas: Seq<QuoteMetaModel>) -> bool {
    &&& p.quantity_milli <= MAX_QTY_MILLI
    &&& meta_has_symbol(metas, p.symbol)
}

/// The whole configuration passes validation.
pub open spec fn config_ok(
    home: Currency,
    ps: Seq<PositionModel>,
    metas: Seq<QuoteMetaModel>,
) -> bool {
    &&& home == Currency::Eur
    &&& ps.len() <= MAX_POSITIONS
    &&& forall|i: int| 0 <= i < ps.len() ==> pos_ok(#[trigger] ps[i], metas)
}

/// The static portfolio: home currency plus the position list.
pub struct Portfolio {
    home: Currency,
    positions: Vec<Position>,
}

/// Mathematical model of a portfolio.
pub ghost struct PortfolioModel {
    pub home: Currency,
    pub positions: Seq<PositionModel>,
}

impl View for Portfolio {
    type V = PortfolioModel;

    closed spec fn view(&self) -> PortfolioModel {
        PortfolioModel {
            home: self.home,
            positions: self.positions@.map_values(|p: Position| p@),
        }
    }
}

impl Portfolio {
    /// Valuation-ready: EUR home, bounded quantities and count.
    pub open spec fn wf(&self) -> bool {
        &&& self@.home == Currency::Eur
        &&& self@.positions.len() <= MAX_POSITIONS
        &&& forall|i: int|
            0 <= i < self@.positions.len() ==> (#[trigger] self@.positions[i]).quantity_milli
                <= MAX_QTY_MILLI
    }

    /// Validate the startup configuration and build the portfolio.
    ///
    /// Checks run in a fixed order: the home currency must be EUR,
    /// the position count must be bounded, then each position in turn
    /// must have a bounded quantity and a symbol present in the
    /// metadata set. The first violated check names the error.
    #[verifier::loop_isolation(false)]
    pub fn new(home: Currency, positions: Vec<Position>, metas: &Vec<QuoteMeta>) -> (r: Result<
        Portfolio,
        ConfigError,
    >)
        ensures
            r is Ok <==> config_ok(
                home,
                positions@.map_values(|p: Position| p@),
                metas@.map_values(|m: QuoteMeta| m@),
            ),
            r matches Ok(p) ==> p@.home == home && p@.positions == positions@.map_values(
                |p: Position| p@,
            ) && p.wf(),
            r matches Err(e) ==> e == spec_config_error(
                home,
                positions@.map_values(|p: Position| p@),
                metas@.map_values(|m: QuoteMeta| m@),
            ),
    {
        let ghost ps = positions@.map_values(|p: Position| p@);
        let ghost ms = metas@.map_values(|m: QuoteMeta| m@);
        if !matches!(home, Currency::Eur) {
            return Err(ConfigError::UnsupportedHomeCurrency);
        }
        if positions.len() > MAX_POSITIONS {
            return Err(ConfigError::TooManyPositions);
        }
        let n = positions.len();
        let mut i: usize = 0;
        while i < n
            invariant
                i <= n,
                n == positions@.len(),
                ps == positions@.map_values(|p: Position| p@),
                ms == metas@.map_values(|m: QuoteMeta| m@),
                forall|j: int| 0 <= j < i ==> pos_ok(#[trigger] ps[j], ms),
            decreases n - i,
        {
            let p = &positions[i];
            if p.quantity_milli > MAX_QTY_MILLI {
                proof {
                    assert(first_bad_is(ps, ms, i as int));
                    lemma_first_bad_unique(ps, ms, i as int);
                }
                return Err(ConfigError::QuantityOutOfRange);
            }
            if !metas_contain(metas, &p.symbol) {
                proof {
                    assert(first_bad_is(ps, ms, i as int) && !meta_has_symbol(
                        ms,
                        ps[i as int].symbol,
                    ));
                    lemma_first_bad_unique(ps, ms, i as int);
                }
                return Err(ConfigError::UnknownPositionSymbol);
            }
            assert(pos_ok(ps[i as int], ms));
            i += 1;
        }
        let p = Portfolio { home, positions };
        assert(p@.positions == ps);
        Ok(p)
    }

    /// The home currency.
    pub fn home(&self) -> (c: Currency)
        ensures
            c == self@.home,
    {
        self.home
    }

    /// Number of positions.
    pub fn len(&self) -> (n: usize)
        ensures
            n == self@.positions.len(),
    {
        self.positions.len()
    }

    /// The position at an index.
    pub fn position_at(&self, i: usize) -> (p: &Position)
        requires
            i < self@.positions.len(),
        ensures
            p@ == self@.positions[i as int],
    {
        &self.positions[i]
    }
}

/// Index `i` is the first position that fails validation.
pub open spec fn first_bad_is(ps: Seq<PositionModel>, ms: Seq<QuoteMetaModel>, i: int) -> bool {
    &&& 0 <= i < ps.len()
    &&& !pos_ok(ps[i], ms)
    &&& forall|j: int| 0 <= j < i ==> pos_ok(#[trigger] ps[j], ms)
}

/// The error the validation order reports for a bad configuration.
pub open spec fn spec_config_error(
    home: Currency,
    ps: Seq<PositionModel>,
    ms: Seq<QuoteMetaModel>,
) -> ConfigError {
    if home != Currency::Eur {
        ConfigError::UnsupportedHomeCurrency
    } else if ps.len() > MAX_POSITIONS {
        ConfigError::TooManyPositions
    } else {
        let i = choose|i: int| first_bad_is(ps, ms, i);
        if ps[i].quantity_milli > MAX_QTY_MILLI {
            ConfigError::QuantityOutOfRange
        } else {
            ConfigError::UnknownPositionSymbol
        }
    }
}

/// The first failing index is the one the validation order stops at.
proof fn lemma_first_bad_unique(ps: Seq<PositionModel>, ms: Seq<QuoteMetaModel>, i: int)
    requires
        first_bad_is(ps, ms, i),
    ensures
        (choose|j: int| first_bad_is(ps, ms, j)) == i,
{
    let j = choose|j: int| first_bad_is(ps, ms, j);
    assert(first_bad_is(ps, ms, j));
    if j < i {
        assert(pos_ok(ps[j], ms));
    }
    if i < j {
        assert(pos_ok(ps[i], ms));
    }
}

/// Whether the metadata set holds symbol `sym`.
fn metas_contain(metas: &Vec<QuoteMeta>, sym: &Symbol) -> (r: bool)
    ensures
        r == meta_has_symbol(metas@.map_values(|m: QuoteMeta| m@), sym@),
{
    let ghost ms = metas@.map_values(|m: QuoteMeta| m@);
    let n = metas.len();
    let mut i: usize = 0;
    while i < n
        invariant
            i <= n,
            n == metas@.len(),
            ms == metas@.map_values(|m: QuoteMeta| m@),
            forall|j: int| 0 <= j < i ==> (#[trigger] ms[j]).symbol != sym@,
        decreases n - i,
    {
        if metas[i].symbol.same_as(sym) {
            assert(ms[i as int].symbol == sym@);
            return true;
        }
        i += 1;
    }
    false
}

/// Value of one position in home milli-units: quantity times price
/// times conversion rate, scaled back down.
pub open spec fn spec_converted(qty_milli: u64, price_milli: u64, rate_milli: u64) -> int {
    (qty_milli * price_milli * rate_milli) / (SCALE * SCALE)
}

/// Value a position contributes: zero while unpriced.
pub open spec fn spec_pos_value(
    p: PositionModel,
    m: Map<Seq<u8>, PriceVal>,
    rates: Rates,
) -> int {
    if m.dom().contains(p.symbol) {
        spec_converted(p.quantity_milli, m[p.symbol].price_milli, rate_of(rates, m[p.symbol].currency))
    } else {
        0
    }
}

/// Total portfolio value: the sum over all positions, unpriced ones
/// included at zero.
pub open spec fn spec_total(
    ps: Seq<PositionModel>,
    m: Map<Seq<u8>, PriceVal>,
    rates: Rates,
) -> int
    decreases ps.len(),
{
    if ps.len() == 0 {
        0
    } else {
        spec_total(ps.drop_last(), m, rates) + spec_pos_value(ps.last(), m, rates)
    }
}

/// An unpriced position contributes exactly zero to the total and is
/// reported, never an error.
pub proof fn lemma_unpriced_contributes_zero(
    p: PositionModel,
    m: Map<Seq<u8>, PriceVal>,
    rates: Rates,
)
    requires
        !m.dom().contains(p.symbol),
    ensures
        spec_pos_value(p, m, rates) == 0,
{
}

/// Largest value one position can contribute, in home milli-units.
pub open spec fn max_pos_value() -> int {
    1_000_000_000_000_000_000_000_000_000
}

/// Bounds on a single converted value.
proof fn lemma_converted_bounds(qty_milli: u64, price_milli: u64, rate_milli: u64)
    requires
        qty_milli <= MAX_QTY_MILLI,
        price_milli <= MAX_PRICE_MILLI,
        rate_milli <= MAX_RATE_MILLI,
    ensures
        0 <= qty_milli * price_milli,
        qty_milli * price_milli <= 1_000_000_000_000_000_000_000_000,
        0 <= qty_milli * price_milli * rate_milli,
        qty_milli * price_milli * rate_milli <= 1_000_000_000_000_000_000_000_000_000_000_000,
        0 <= spec_converted(qty_milli, price_milli, rate_milli) <= max_pos_value(),
{
    let q = qty_milli as int;
    let p = price_milli as int;
    let r = rate_milli as int;
    assert(q * p <= 1_000_000_000_000_000_000_000_000 && q * p >= 0) by (nonlinear_arith)
        requires
            0 <= q <= 1_000_000_000_000,
            0 <= p <= 1_000_000_000_000,
    ;
    assert(q * p * r <= 1_000_000_000_000_000_000_000_000_000_000_000 && q * p * r >= 0)
        by (nonlinear_arith)
        requires
            0 <= q * p <= 1_000_000_000_000_000_000_000_000,
            0 <= r <= 1_000_000_000,
    ;
    let d = (SCALE * SCALE) as int;
    assert(d == 1_000_000);
    lemma_div_pos_is_pos(q * p * r, d);
    lemma_div_is_ordered(q * p * r, 1_000_000_000_000_000_000_000_000_000_000_000, d);
    lemma_div_multiples_vanish(max_pos_value(), d);
    assert(d * max_pos_value() == 1_000_000_000_000_000_000_000_000_000_000_000);
}

/// Bounds on a single position's contribution.
proof fn lemma_pos_value_bounds(p: PositionModel, m: Map<Seq<u8>, PriceVal>, rates: Rates)
    requires
        p.quantity_milli <= MAX_QTY_MILLI,
        price_bounded(m),
        rates.wf(),
    ensures
        0 <= spec_pos_value(p, m, rates) <= max_pos_value(),
{
    if m.dom().contains(p.symbol) {
        let v = m[p.symbol];
        assert(rate_of(rates, v.currency) <= MAX_RATE_MILLI) by {
            if v.currency == Currency::Eur {
                assert(rates.eur_milli == SCALE);
            }
        }
        lemma_converted_bounds(p.quantity_milli, v.price_milli, rate_of(rates, v.currency));
    }
}

/// Bounds on the running total.
proof fn lemma_total_bounds(ps: Seq<PositionModel>, m: Map<Seq<u8>, PriceVal>, rates: Rates)
    requires
        forall|i: int|
            0 <= i < ps.len() ==> (#[trigger] ps[i]).quantity_milli <= MAX_QTY_MILLI,
        price_bounded(m),
        rates.wf(),
    ensures
        0 <= spec_total(ps, m, rates) <= ps.len() * max_pos_value(),
    decreases ps.len(),
{
    if ps.len() > 0 {
        lemma_total_bounds(ps.drop_last(), m, rates);
        lemma_pos_value_bounds(ps.last(), m, rates);
    }
}

/// Valuation of one position as reported in a snapshot.
pub struct PositionValue {
    pub symbol: Symbol,
    pub quantity_milli: u64,
    /// Last stored (price, quoting currency); `None` marks the
    /// position unpriced.
    pub last: Option<(u64, Currency)>,
    pub converted_milli: u128,
}

/// Mathematical model of one valued position.
pub ghost struct PositionValueModel {
    pub symbol: Seq<u8>,
    pub quantity_milli: u64,
    pub last: Option<(u64, Currency)>,
    pub converted_milli: u128,
}

impl View for PositionValue {
    type V = PositionValueModel;

    open spec fn view(&self) -> PositionValueModel {
        PositionValueModel {
            symbol: self.symbol@,
            quantity_milli: self.quantity_milli,
            last: self.last,
            converted_milli: self.converted_milli,
        }
    }
}

/// A reported position matches the portfolio, the price table and the
/// conversion table.
pub open spec fn pos_valued(
    p: PositionModel,
    pv: PositionValueModel,
    m: Map<Seq<u8>, PriceVal>,
    rates: Rates,
) -> bool {
    &&& pv.symbol == p.symbol
    &&& pv.quantity_milli == p.quantity_milli
    &&& pv.last == (if m.dom().contains(p.symbol) {
        Some((m[p.symbol].price_milli, m[p.symbol].currency))
    } else {
        None::<(u64, Currency)>
    })
    &&& pv.converted_milli == spec_pos_value(p, m, rates)
}

/// A point-in-time valuation of the whole portfolio.
pub struct ValuationSnapshot {
    pub positions: Vec<PositionValue>,
    pub total_milli: u128,
    pub as_of: u64,
}

/// Compute a valuation snapshot: one entry per position, in position
/// order, and the total as the sum of every converted value, unpriced
/// positions contributing zero. Deterministic in its inputs.
#[verifier::loop_isolation(false)]
pub fn value(portfolio: &Portfolio, table: &PriceTable, rates: &Rates, as_of: u64) -> (s:
    ValuationSnapshot)
    requires
        portfolio.wf(),
        table.wf(),
        rates.wf(),
        price_bounded(table@),
    ensures
        s.positions@.len() == portfolio@.positions.len(),
        forall|i: int|
            0 <= i < portfolio@.positions.len() ==> pos_valued(
                portfolio@.positions[i],
                (#[trigger] s.positions@[i])@,
                table@,
                *rates,
            ),
        s.total_milli == spec_total(portfolio@.positions, table@, *rates),
        s.as_of == as_of,
{
    let ghost ps = portfolio@.positions;
    let n = portfolio.len();
    let mut out: Vec<PositionValue> = Vec::new();
    let mut total: u128 = 0;
    let mut i: usize = 0;
    while i < n
        invariant
            i <= n,
            out@.len() == i,
            forall|j: int|
                0 <= j < i ==> pos_valued(ps[j], (#[trigger] out@[j])@, table@, *rates),
            total == spec_total(ps.take(i as int), table@, *rates),
            total <= i * max_pos_value(),
        decreases n - i,
    {
        let p = portfolio.position_at(i);
        let qty = p.quantity_milli;
        let (last, conv): (Option<(u64, Currency)>, u128) = match table.lookup(&p.symbol) {
            Some((price, currency, _ts)) => {
                let rate = rates.rate(currency);
                proof {
                    lemma_converted_bounds(qty, price, rate);
                }
                let prod = (qty as u128) * (price as u128) * (rate as u128);
                let conv = prod / ((SCALE as u128) * (SCALE as u128));
                assert(conv == spec_converted(qty, price, rate));
                (Some((price, currency)), conv)
            },
            None => (None, 0),
        };
        let pv = PositionValue {
            symbol: p.symbol.duplicate(),
            quantity_milli: qty,
            last,
            converted_milli: conv,
        };
        assert(pos_valued(ps[i as int], pv@, table@, *rates));
        out.push(pv);
        proof {
            lemma_pos_value_bounds(ps[i as int], table@, *rates);
            assert(ps.take(i as int + 1).drop_last() =~= ps.take(i as int));
            assert(ps.take(i as int + 1).last() == ps[i as int]);
        }
        total = total + conv;
        i += 1;
    }
    proof {
        assert(ps.take(n as int) =~= ps);
    }
    ValuationSnapshot { positions: out, total_milli: total, as_of }
}

} // verus!
