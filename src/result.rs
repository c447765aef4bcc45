//! What an indicator emits for one bar: numeric values and trading signals.
use vstd::prelude::*;
use crate::{ValueType, SCALE};

verus! {

/// A signal lies in `[-SCALE, SCALE]`: `SCALE` is a full buy, `-SCALE` a full sell.
pub open spec fn signal_ok(v: int) -> bool {
    -SCALE <= v <= SCALE
}

/// `v` pulled into the signal domain.
pub open spec fn clamp_signal(v: int) -> int {
    if v > SCALE {
        SCALE as int
    } else if v < -SCALE {
        -SCALE as int
    } else {
        v
    }
}

/// A direction (`-1`, `0`, `1`) as a full-strength signal.
pub fn direction_signal(d: i8) -> (r: ValueType)
    requires
        -1 <= d <= 1,
    ensures
        r == d * SCALE,
        signal_ok(r as int),
{
    (d as i64) * SCALE
}

/// An analog value as a signal, cut off at full strength.
pub fn analog_signal(v: ValueType) -> (r: ValueType)
    ensures
        r == clamp_signal(v as int),
        signal_ok(r as int),
{
    if v > SCALE {
        SCALE
    } else if v < -SCALE {
        -SCALE
    } else {
        v
    }
}

/// The values and signals of one update.
#[derive(Debug, Clone)]
pub struct IndicatorResult {
    values: Vec<ValueType>,
    signals: Vec<ValueType>,
}

impl IndicatorResult {
    pub closed spec fn values_view(&self) -> Seq<i64> {
        self.values@
    }

    pub closed spec fn signals_view(&self) -> Seq<i64> {
        self.signals@
    }

    /// A result holding `values` and `signals`.
    pub fn new(values: Vec<ValueType>, signals: Vec<ValueType>) -> (r: Self)
        ensures
            r.values_view() == values@,
            r.signals_view() == signals@,
    {
        IndicatorResult { values, signals }
    }

    /// `(number of values, number of signals)`.
    pub fn size(&self) -> (r: (u8, u8))
        requires
            self.values_view().len() <= 255,
            self.signals_view().len() <= 255,
        ensures
            r.0 == self.values_view().len(),
            r.1 == self.signals_view().len(),
    {
        (self.values.len() as u8, self.signals.len() as u8)
    }

    /// The value at position `i`.
    pub fn value(&self, i: usize) -> (r: ValueType)
        requires
            i < self.values_view().len(),
        ensures
            r == self.values_view()[i as int],
    {
        self.values[i]
    }

    /// The signal at position `i`.
    pub fn signal(&self, i: usize) -> (r: ValueType)
        requires
            i < self.signals_view().len(),
        ensures
            r == self.signals_view()[i as int],
    {
        self.signals[i]
    }
}

} // verus!
