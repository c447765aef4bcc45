//! Price bars and the scalars derived from them.
use vstd::prelude::*;
use crate::arith::floor_div;
use crate::ValueType;

verus! {

/// Bound on the magnitude of a bar's prices.
pub const PRICE_LIMIT: i64 = 274_877_906_944;

/// One open/high/low/close observation, prices in fixed point.
#[derive(Debug, Clone, Copy, PartialEq, Eq)]
pub struct Candle {
    pub open: ValueType,
    pub high: ValueType,
    pub low: ValueType,
    pub close: ValueType,
}

pub open spec fn price_ok(v: i64) -> bool {
    -PRICE_LIMIT <= v <= PRICE_LIMIT
}

pub open spec fn abs_of(v: int) -> int {
    if v < 0 {
        -v
    } else {
        v
    }
}

pub open spec fn max3(a: int, b: int, c: int) -> int {
    if a >= b && a >= c {
        a
    } else if b >= c {
        b
    } else {
        c
    }
}

/// `max(high - low, |high - prev.close|, |low - prev.close|)`.
pub open spec fn true_range_of(c: Candle, prev: Candle) -> int {
    max3(
        c.high - c.low,
        abs_of(c.high - prev.close),
        abs_of(c.low - prev.close),
    )
}

/// The scalar a bar yields for a source.
pub open spec fn source_of(c: Candle, s: Source) -> int {
    match s {
        Source::Open => c.open as int,
        Source::High => c.high as int,
        Source::Low => c.low as int,
        Source::Close => c.close as int,
        Source::HL2 => (c.high + c.low) / 2,
        Source::TP => (c.high + c.low + c.close) / 3,
        Source::OHLC4 => (c.open + c.high + c.low + c.close) / 4,
    }
}

/// Which scalar of a bar an indicator reads.
#[derive(Debug, Clone, Copy, PartialEq, Eq)]
pub enum Source {
    Open,
    High,
    Low,
    Close,
    /// `(high + low) / 2`.
    HL2,
    /// Typical price, `(high + low + close) / 3`.
    TP,
    /// `(open + high + low + close) / 4`.
    OHLC4,
}

impl Candle {
    /// Every price lies within `PRICE_LIMIT` of zero.
    pub open spec fn valid(&self) -> bool {
        price_ok(self.open) && price_ok(self.high) && price_ok(self.low) && price_ok(self.close)
    }

    /// The true range of this bar against the bar before it.
    pub fn tr(&self, prev: &Candle) -> (r: ValueType)
        requires
            self.valid(),
            prev.valid(),
        ensures
            r == true_range_of(*self, *prev),
            0 <= r <= 4 * PRICE_LIMIT,
    {
        let a = self.high - self.low;
        let b = if self.high >= prev.close {
            self.high - prev.close
        } else {
            prev.close - self.high
        };
        let c = if self.low >= prev.close {
            self.low - prev.close
        } else {
            prev.close - self.low
        };
        if a >= b && a >= c {
            a
        } else if b >= c {
            b
        } else {
            c
        }
    }

    /// The scalar this bar yields for `s`.
    pub fn source(&self, s: Source) -> (r: ValueType)
        requires
            self.valid(),
        ensures
            r == source_of(*self, s),
            price_ok(r),
    {
        let r = match s {
            Source::Open => self.open,
            Source::High => self.high,
            Source::Low => self.low,
            Source::Close => self.close,
            Source::HL2 => floor_div(self.high + self.low, 2),
            Source::TP => floor_div(self.high + self.low + self.close, 3),
            Source::OHLC4 => floor_div(self.open + self.high + self.low + self.close, 4),
        };
        proof {
            crate::arith::lemma_div_between((self.high + self.low) as int, 2, -PRICE_LIMIT as int, PRICE_LIMIT as int);
            crate::arith::lemma_div_between((self.high + self.low + self.close) as int, 3, -PRICE_LIMIT as int, PRICE_LIMIT as int);
            crate::arith::lemma_div_between((self.open + self.high + self.low + self.close) as int, 4, -PRICE_LIMIT as int, PRICE_LIMIT as int);
        }
        r
    }
}

} // verus!
