//! Core data model: ticker symbols, the closed currency set, and quotes.

use vstd::prelude::*;

verus! {

/// A ticker symbol: an opaque, immutable byte string used as a map key.
pub struct Symbol {
    bytes: Vec<u8>,
}

impl View for Symbol {
    type V = Seq<u8>;

    closed spec fn view(&self) -> Seq<u8> {
        self.bytes@
    }
}

impl Symbol {
    /// Wrap raw bytes as a symbol.
    pub fn new(bytes: Vec<u8>) -> (s: Symbol)
        ensures
            s@ == bytes@,
    {
        Symbol { bytes }
    }

    /// Number of bytes in the symbol.
    pub fn len(&self) -> (n: usize)
        ensures
            n == self@.len(),
    {
        self.bytes.len()
    }

    /// Byte at a given index.
    pub fn byte_at(&self, i: usize) -> (b: u8)
        requires
            i < self@.len(),
        ensures
            b == self@[i as int],
    {
        self.bytes[i]
    }

    /// Structural equality on the underlying bytes.
    pub fn same_as(&self, other: &Symbol) -> (r: bool)
        ensures
            r == (self@ == other@),
    {
        if self.bytes.len() != other.bytes.len() {
            assert(self@ != other@);
            return false;
        }
        let n = self.bytes.len();
        let mut i: usize = 0;
        while i < n
            invariant
                n == self@.len(),
                n == other@.len(),
                i <= n,
                forall|j: int| 0 <= j < i ==> self@[j] == other@[j],
            decreases n - i,
        {
            if self.bytes[i] != other.bytes[i] {
                return false;
            }
            i += 1;
        }
        assert(self@ =~= other@);
        true
    }

    /// An independent copy of this symbol.
    pub fn duplicate(&self) -> (r: Symbol)
        ensures
            r@ == self@,
    {
        let n = self.bytes.len();
        let mut out: Vec<u8> = Vec::new();
        let mut i: usize = 0;
        while i < n
            invariant
                n == self@.len(),
                i <= n,
                out@ == self@.subrange(0, i as int),
            decreases n - i,
        {
            out.push(self.bytes[i]);
            i += 1;
        }
        assert(out@ =~= self@);
        Symbol { bytes: out }
    }
}

/// The closed set of currencies a configured symbol can be quoted in.
#[derive(Clone, Copy, PartialEq, Eq, Structural, Debug)]
pub enum Currency {
    Eur,
    Usd,
    Gbp,
    Chf,
}

/// One price observation for one symbol at one instant.
///
/// `price_milli` is the market price in the quote's native currency,
/// in thousandths; `timestamp` totally orders quotes per symbol, and a
/// later-timestamped quote supersedes an earlier one.
pub struct Quote {
    pub symbol: Symbol,
    pub price_milli: u64,
    pub currency: Currency,
    pub timestamp: u64,
}

/// Mathematical model of a quote: the symbol as a byte sequence plus
/// the plain scalar fields.
pub ghost struct QuoteModel {
    pub symbol: Seq<u8>,
    pub price_milli: u64,
    pub currency: Currency,
    pub timestamp: u64,
}

impl View for Quote {
    type V = QuoteModel;

    open spec fn view(&self) -> QuoteModel {
        QuoteModel {
            symbol: self.symbol@,
            price_milli: self.price_milli,
            currency: self.currency,
            timestamp: self.timestamp,
        }
    }
}

impl Quote {
    /// Assemble a quote from its parts.
    pub fn new(symbol: Symbol, price_milli: u64, currency: Currency, timestamp: u64) -> (q: Quote)
        ensures
            q@.symbol == symbol@,
            q@.price_milli == price_milli,
            q@.currency == currency,
            q@.timestamp == timestamp,
    {
        Quote { symbol, price_milli, currency, timestamp }
    }

    /// An independent copy of this quote.
    pub fn duplicate(&self) -> (r: Quote)
        ensures
            r@ == self@,
    {
        Quote {
            symbol: self.symbol.duplicate(),
            price_milli: self.price_milli,
            currency: self.currency,
            timestamp: self.timestamp,
        }
    }
}

} // verus!
