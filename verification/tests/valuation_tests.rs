use quotefeed::portfolio::{
    value, ConfigError, Portfolio, Position, QuoteMeta, Rates, MAX_POSITIONS, MAX_QTY_MILLI,
    MAX_RATE_MILLI,
};
use quotefeed::prices::PriceTable;
use quotefeed::quote::{Currency, Quote, Symbol};

fn sym(s: &str) -> Symbol {
    Symbol::new(s.as_bytes().to_vec())
}

fn meta(s: &str, currency: Currency) -> QuoteMeta {
    QuoteMeta::new(sym(s), s.as_bytes().to_vec(), currency)
}

fn eur_rates() -> Rates {
    // USD -> EUR at 0.9, the others at parity.
    Rates::new(900, 1000, 1000).expect("rates in range")
}

#[test]
fn valuation_converts_currency() {
    // Portfolio {home = EUR, positions = [(MSFT, 25)]}, last price
    // MSFT = 300 USD, USD -> EUR = 0.9: value is 6750 EUR.
    let metas = vec![meta("MSFT", Currency::Usd)];
    let portfolio = Portfolio::new(
        Currency::Eur,
        vec![Position::new(sym("MSFT"), 25_000)],
        &metas,
    )
    .expect("valid configuration");
    let mut table = PriceTable::new();
    table.apply(&Quote::new(sym("MSFT"), 300_000, Currency::Usd, 1));
    let snap = value(&portfolio, &table, &eur_rates(), 1);
    assert_eq!(snap.positions.len(), 1);
    assert_eq!(snap.positions[0].converted_milli, 6_750_000);
    assert_eq!(snap.positions[0].last, Some((300_000, Currency::Usd)));
    assert_eq!(snap.total_milli, 6_750_000);
    assert_eq!(snap.as_of, 1);
}

#[test]
fn unpriced_position_counts_zero_and_is_flagged() {
    let metas = vec![meta("MSFT", Currency::Usd), meta("TSM", Currency::Usd)];
    let portfolio = Portfolio::new(
        Currency::Eur,
        vec![
            Position::new(sym("MSFT"), 25_000),
            Position::new(sym("TSM"), 100_000),
        ],
        &metas,
    )
    .expect("valid configuration");
    let mut table = PriceTable::new();
    table.apply(&Quote::new(sym("MSFT"), 300_000, Currency::Usd, 1));
    let snap = value(&portfolio, &table, &eur_rates(), 2);
    assert_eq!(snap.positions.len(), 2);
    assert!(snap.positions[1].symbol.same_as(&sym("TSM")));
    assert_eq!(snap.positions[1].last, None);
    assert_eq!(snap.positions[1].converted_milli, 0);
    assert_eq!(snap.total_milli, 6_750_000);
}

#[test]
fn valuation_of_empty_portfolio_is_zero() {
    let metas = vec![meta("MSFT", Currency::Usd)];
    let portfolio = Portfolio::new(Currency::Eur, vec![], &metas).expect("valid configuration");
    let table = PriceTable::new();
    let snap = value(&portfolio, &table, &eur_rates(), 7);
    assert_eq!(snap.positions.len(), 0);
    assert_eq!(snap.total_milli, 0);
}

#[test]
fn home_currency_position_converts_at_parity() {
    let metas = vec![meta("EXS2.DE", Currency::Eur)];
    let portfolio = Portfolio::new(
        Currency::Eur,
        vec![Position::new(sym("EXS2.DE"), 10_000)],
        &metas,
    )
    .expect("valid configuration");
    let mut table = PriceTable::new();
    table.apply(&Quote::new(sym("EXS2.DE"), 150_500, Currency::Eur, 3));
    let snap = value(&portfolio, &table, &eur_rates(), 3);
    // 10 * 150.5 EUR at rate 1.0.
    assert_eq!(snap.total_milli, 1_505_000);
}

#[test]
fn non_eur_home_currency_is_rejected() {
    let metas = vec![meta("MSFT", Currency::Usd)];
    let r = Portfolio::new(Currency::Usd, vec![Position::new(sym("MSFT"), 1_000)], &metas);
    assert!(matches!(r, Err(ConfigError::UnsupportedHomeCurrency)));
}

#[test]
fn unknown_position_symbol_is_rejected() {
    let metas = vec![meta("MSFT", Currency::Usd)];
    let r = Portfolio::new(Currency::Eur, vec![Position::new(sym("AMZN"), 1_000)], &metas);
    assert!(matches!(r, Err(ConfigError::UnknownPositionSymbol)));
}

#[test]
fn oversized_quantity_is_rejected() {
    let metas = vec![meta("MSFT", Currency::Usd)];
    let r = Portfolio::new(
        Currency::Eur,
        vec![Position::new(sym("MSFT"), MAX_QTY_MILLI + 1)],
        &metas,
    );
    assert!(matches!(r, Err(ConfigError::QuantityOutOfRange)));
}

#[test]
fn quantity_check_precedes_symbol_check() {
    let metas = vec![meta("MSFT", Currency::Usd)];
    // The first bad position is both oversized and unknown; the
    // quantity check reports first.
    let r = Portfolio::new(
        Currency::Eur,
        vec![Position::new(sym("AMZN"), MAX_QTY_MILLI + 1)],
        &metas,
    );
    assert!(matches!(r, Err(ConfigError::QuantityOutOfRange)));
}

#[test]
fn too_many_positions_are_rejected() {
    let metas = vec![meta("MSFT", Currency::Usd)];
    let mut positions = Vec::new();
    for _ in 0..MAX_POSITIONS + 1 {
        positions.push(Position::new(sym("MSFT"), 1));
    }
    let r = Portfolio::new(Currency::Eur, positions, &metas);
    assert!(matches!(r, Err(ConfigError::TooManyPositions)));
}

#[test]
fn oversized_rate_is_rejected() {
    assert!(matches!(
        Rates::new(MAX_RATE_MILLI + 1, 1000, 1000),
        Err(ConfigError::RateOutOfRange)
    ));
    assert!(matches!(
        Rates::new(900, MAX_RATE_MILLI + 1, 1000),
        Err(ConfigError::RateOutOfRange)
    ));
    assert!(matches!(
        Rates::new(900, 1000, MAX_RATE_MILLI + 1),
        Err(ConfigError::RateOutOfRange)
    ));
}

#[test]
fn portfolio_accessors_reflect_configuration() {
    let metas = vec![meta("MSFT", Currency::Usd), meta("TSM", Currency::Usd)];
    let portfolio = Portfolio::new(
        Currency::Eur,
        vec![
            Position::new(sym("MSFT"), 25_000),
            Position::new(sym("TSM"), 100_000),
        ],
        &metas,
    )
    .expect("valid configuration");
    assert_eq!(portfolio.home(), Currency::Eur);
    assert_eq!(portfolio.len(), 2);
    assert!(portfolio.position_at(0).symbol.same_as(&sym("MSFT")));
    assert_eq!(portfolio.position_at(1).quantity_milli, 100_000);
}

#[test]
fn rates_lookup_matches_configuration() {
    let rates = eur_rates();
    assert_eq!(rates.rate(Currency::Eur), 1000);
    assert_eq!(rates.rate(Currency::Usd), 900);
    assert_eq!(rates.rate(Currency::Gbp), 1000);
    assert_eq!(rates.rate(Currency::Chf), 1000);
}
