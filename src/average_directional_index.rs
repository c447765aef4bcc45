//! Average Directional Index: trend strength from smoothed directional movement.
use vstd::prelude::*;
use crate::bar::{Candle, true_range_of, PRICE_LIMIT};
use crate::methods::{RegularMethod, RegularMethods};
use crate::result::{analog_signal, clamp_signal, direction_signal, signal_ok, IndicatorResult};
use crate::text::{
    fraction_text, method_named, parse_fraction, parse_method, parse_period, period_text, str_eq,
    ConfigError,
};
use crate::window::Window;
use vstd::utf8::encode_utf8;
use crate::{PeriodType, ValueType, SCALE};

verus! {

/// Upward movement counted as `+DM`: the rise of the high, where it beats the fall of the low.
pub open spec fn plus_dm_of(c: Candle, prev: Candle) -> int {
    let du = c.high - prev.high;
    let dd = prev.low - c.low;
    if du > dd && du > 0 {
        du
    } else {
        0
    }
}

/// Downward movement counted as `-DM`: the fall of the low, where it beats the rise of the high.
pub open spec fn minus_dm_of(c: Candle, prev: Candle) -> int {
    let du = c.high - prev.high;
    let dd = prev.low - c.low;
    if dd > du && dd > 0 {
        dd
    } else {
        0
    }
}

/// `a / b` in fixed point, zero where `b` is zero.
pub open spec fn ratio_of(a: int, b: int) -> int {
    if b == 0 {
        0
    } else {
        (a * SCALE) / b
    }
}

/// What the ADX smoothing takes: `|plus - minus| / (plus + minus)`, zero where the sum is zero.
pub open spec fn adx_input_of(plus: int, minus: int) -> int {
    if plus + minus == 0 {
        0
    } else {
        (abs_diff(plus, minus) * SCALE) / (plus + minus)
    }
}

pub open spec fn abs_diff(a: int, b: int) -> int {
    if a >= b {
        a - b
    } else {
        b - a
    }
}

/// The first signal: the side that leads, once the ADX is above the zone.
pub open spec fn trend_signal_of(adx: int, plus: int, minus: int, zone: int) -> int {
    if adx > zone {
        if plus > minus {
            SCALE as int
        } else if plus < minus {
            -SCALE as int
        } else {
            0
        }
    } else {
        0
    }
}

/// A bar whose high and low both lie strictly above those of `prev`.
pub open spec fn rises_over(c: Candle, prev: Candle) -> bool {
    c.high > prev.high && c.low > prev.low
}

/// Configuration of the Average Directional Index.
///
/// Values: ADX, +DI, -DI. Signals: the leading side while ADX is above `zone`, and
/// `+DI - -DI` cut off at full strength.
#[derive(Debug, Clone, Copy, PartialEq, Eq)]
pub struct AverageDirectionalIndex {
    pub method1: RegularMethods,
    pub di_length: PeriodType,
    pub method2: RegularMethods,
    pub adx_smoothing: PeriodType,
    pub period1: PeriodType,
    /// A fraction in fixed point, from `0` to `SCALE`.
    pub zone: ValueType,
}

impl AverageDirectionalIndex {
    pub open spec fn valid(&self) -> bool {
        &&& self.di_length >= 1
        &&& self.adx_smoothing >= 1
        &&& 0 <= self.zone <= SCALE
        &&& self.period1 >= 1
        &&& self.period1 < self.di_length
        &&& self.period1 < self.adx_smoothing
    }

    /// Whether the configuration can build an instance.
    pub fn validate(&self) -> (r: bool)
        ensures
            r == self.valid(),
    {
        self.di_length >= 1 && self.adx_smoothing >= 1 && self.zone >= 0 && self.zone <= SCALE
            && self.period1 >= 1 && self.period1 < self.di_length && self.period1
            < self.adx_smoothing
    }

    pub open spec fn arity() -> (u8, u8) {
        (3, 2)
    }

    /// The configuration with field `name` read from `value`, or why it stays as it is.
    pub open spec fn set_spec(self, name: Seq<char>, value: Seq<char>) -> Result<Self, ConfigError> {
        let b = encode_utf8(value);
        if name == "method1"@ {
            match method_named(value) {
                Some(m) => Ok(Self { method1: m, ..self }),
                None => Err(ConfigError::InvalidValue),
            }
        } else if name == "di_length"@ {
            match period_text(b) {
                Some(p) => Ok(Self { di_length: p, ..self }),
                None => Err(ConfigError::InvalidValue),
            }
        } else if name == "method2"@ {
            match method_named(value) {
                Some(m) => Ok(Self { method2: m, ..self }),
                None => Err(ConfigError::InvalidValue),
            }
        } else if name == "adx_smoothing"@ {
            match period_text(b) {
                Some(p) => Ok(Self { adx_smoothing: p, ..self }),
                None => Err(ConfigError::InvalidValue),
            }
        } else if name == "period1"@ {
            match period_text(b) {
                Some(p) => Ok(Self { period1: p, ..self }),
                None => Err(ConfigError::InvalidValue),
            }
        } else if name == "zone"@ {
            match fraction_text(b) {
                Some(z) => Ok(Self { zone: z, ..self }),
                None => Err(ConfigError::InvalidValue),
            }
        } else {
            Err(ConfigError::UnknownField)
        }
    }

    /// Sets the field `name` from the text `value`. An unknown name or a value that does
    /// not read leaves the configuration as it is and says which.
    pub fn set(&mut self, name: &str, value: String) -> (r: Result<(), ConfigError>)
        ensures
            match old(self).set_spec(name@, value@) {
                Ok(c) => r is Ok && *final(self) == c,
                Err(e) => r == Err::<(), ConfigError>(e) && *final(self) == *old(self),
            },
    {
        let v = value.as_str();
        if str_eq(name, "method1") {
            match parse_method(v) {
                Some(m) => {
                    self.method1 = m;
                    Ok(())
                },
                None => Err(ConfigError::InvalidValue),
            }
        } else if str_eq(name, "di_length") {
            match parse_period(v) {
                Some(p) => {
                    self.di_length = p;
                    Ok(())
                },
                None => Err(ConfigError::InvalidValue),
            }
        } else if str_eq(name, "method2") {
            match parse_method(v) {
                Some(m) => {
                    self.method2 = m;
                    Ok(())
                },
                None => Err(ConfigError::InvalidValue),
            }
        } else if str_eq(name, "adx_smoothing") {
            match parse_period(v) {
                Some(p) => {
                    self.adx_smoothing = p;
                    Ok(())
                },
                None => Err(ConfigError::InvalidValue),
            }
        } else if str_eq(name, "period1") {
            match parse_period(v) {
                Some(p) => {
                    self.period1 = p;
                    Ok(())
                },
                None => Err(ConfigError::InvalidValue),
            }
        } else if str_eq(name, "zone") {
            match parse_fraction(v) {
                Some(z) => {
                    self.zone = z;
                    Ok(())
                },
                None => Err(ConfigError::InvalidValue),
            }
        } else {
            Err(ConfigError::UnknownField)
        }
    }

    /// `(number of values, number of signals)` of every result.
    pub fn size(&self) -> (r: (u8, u8))
        ensures
            r == Self::arity(),
    {
        (3, 2)
    }

    /// Binds the configuration to the first bar.
    pub fn init(self, candle: Candle) -> (r: AverageDirectionalIndexInstance)
        requires
            self.valid(),
            candle.valid(),
        ensures
            r.wf(),
            r.spec_config() == self,
            r.candles() == Seq::new(self.period1 as nat, |i: int| candle),
            r.calm(),
            r.tr_ma().spec_kind() == self.method1,
            r.tr_ma().spec_period() == self.di_length,
            r.tr_ma().history() == Seq::new(self.di_length as nat, |i: int| true_range_of(candle, candle) as i64),
            r.tr_ma().level() == true_range_of(candle, candle),
            r.plus_ma().spec_kind() == self.method1,
            r.plus_ma().spec_period() == self.di_length,
            r.plus_ma().history() == Seq::new(self.di_length as nat, |i: int| 0i64),
            r.plus_ma().level() == 0,
            r.minus_ma().spec_kind() == self.method1,
            r.minus_ma().spec_period() == self.di_length,
            r.minus_ma().history() == Seq::new(self.di_length as nat, |i: int| 0i64),
            r.minus_ma().level() == 0,
            r.adx_ma().spec_kind() == self.method2,
            r.adx_ma().spec_period() == self.adx_smoothing,
            r.adx_ma().history() == Seq::new(self.adx_smoothing as nat, |i: int| 0i64),
            r.adx_ma().level() == 0,
    {
        let cfg = self;
        let tr = candle.tr(&candle);
        AverageDirectionalIndexInstance {
            window: Window::new(cfg.period1 as usize, candle),
            tr_ma: RegularMethod::new(cfg.method1, cfg.di_length, tr),
            plus_di: RegularMethod::new(cfg.method1, cfg.di_length, 0),
            minus_di: RegularMethod::new(cfg.method1, cfg.di_length, 0),
            ma2: RegularMethod::new(cfg.method2, cfg.adx_smoothing, 0),
            cfg,
        }
    }
}

impl Default for AverageDirectionalIndex {
    fn default() -> (r: Self)
        ensures
            r.method1 == RegularMethods::RMA,
            r.di_length == 14,
            r.method2 == RegularMethods::RMA,
            r.adx_smoothing == 14,
            r.period1 == 1,
            r.zone == SCALE / 5,
    {
        AverageDirectionalIndex {
            method1: RegularMethods::RMA,
            di_length: 14,
            method2: RegularMethods::RMA,
            adx_smoothing: 14,
            period1: 1,
            zone: SCALE / 5,
        }
    }
}

/// A configuration whose `period1` is not below both smoothing lengths fails validation.
pub proof fn lemma_adx_period_order(cfg: AverageDirectionalIndex)
    requires
        cfg.period1 >= cfg.di_length || cfg.period1 >= cfg.adx_smoothing,
    ensures
        !cfg.valid(),
{
}

/// The running state of an Average Directional Index.
#[derive(Debug)]
pub struct AverageDirectionalIndexInstance {
    cfg: AverageDirectionalIndex,
    window: Window<Candle>,
    tr_ma: RegularMethod,
    plus_di: RegularMethod,
    minus_di: RegularMethod,
    ma2: RegularMethod,
}

impl AverageDirectionalIndexInstance {
    pub closed spec fn spec_config(&self) -> AverageDirectionalIndex {
        self.cfg
    }

    /// The last `period1` bars, oldest first.
    pub closed spec fn candles(&self) -> Seq<Candle> {
        self.window.view()
    }

    pub closed spec fn tr_ma(&self) -> RegularMethod {
        self.tr_ma
    }

    pub closed spec fn plus_ma(&self) -> RegularMethod {
        self.plus_di
    }

    pub closed spec fn minus_ma(&self) -> RegularMethod {
        self.minus_di
    }

    pub closed spec fn adx_ma(&self) -> RegularMethod {
        self.ma2
    }

    /// No downward movement has been smoothed in: `-DI` stands at zero.
    pub open spec fn calm(&self) -> bool {
        self.minus_ma().within(0, 0)
    }

    pub closed spec fn wf(&self) -> bool {
        &&& self.cfg.valid()
        &&& self.window.wf()
        &&& self.window.view().len() == self.cfg.period1 as nat
        &&& forall|i: int| 0 <= i < self.window.view().len() ==> #[trigger] self.window.view()[i].valid()
        &&& self.tr_ma.wf() && self.plus_di.wf() && self.minus_di.wf() && self.ma2.wf()
        &&& self.tr_ma.within(0, 4 * PRICE_LIMIT)
        &&& self.plus_di.within(0, 4 * PRICE_LIMIT)
        &&& self.minus_di.within(0, 4 * PRICE_LIMIT)
        &&& self.ma2.within(0, SCALE as int)
    }

    /// The bound configuration.
    pub fn config(&self) -> (r: &AverageDirectionalIndex)
        ensures
            *r == self.spec_config(),
    {
        &self.cfg
    }

    /// Feeds a bar to the true range and directional movement averages and returns
    /// `(+DI, -DI)`.
    pub fn dir_mov(&mut self, candle: Candle) -> (r: (ValueType, ValueType))
        requires
            old(self).wf(),
            candle.valid(),
        ensures
            final(self).wf(),
            final(self).spec_config() == old(self).spec_config(),
            final(self).adx_ma() == old(self).adx_ma(),
            final(self).candles() == old(self).candles().drop_first().push(candle),
            old(self).tr_ma().next_spec(
                true_range_of(candle, old(self).candles()[0]),
                final(self).tr_ma().output(),
                final(self).tr_ma(),
            ),
            old(self).plus_ma().next_spec(
                plus_dm_of(candle, old(self).candles()[0]),
                final(self).plus_ma().output(),
                final(self).plus_ma(),
            ),
            old(self).minus_ma().next_spec(
                minus_dm_of(candle, old(self).candles()[0]),
                final(self).minus_ma().output(),
                final(self).minus_ma(),
            ),
            r.0 == ratio_of(final(self).plus_ma().output(), final(self).tr_ma().output()),
            r.1 == ratio_of(final(self).minus_ma().output(), final(self).tr_ma().output()),
            0 <= r.0 <= 4 * PRICE_LIMIT * SCALE,
            0 <= r.1 <= 4 * PRICE_LIMIT * SCALE,
            old(self).calm() && rises_over(candle, old(self).candles()[0]) ==> final(self).calm()
                && r.1 == 0,
    {
        let ghost before = self.window.view();
        let prev = self.window.push(candle);
        proof {
            let t = self.window.view();
            assert forall|i: int| 0 <= i < t.len() implies #[trigger] t[i].valid() by {
                if i < t.len() - 1 {
                    assert(t[i] == before[i + 1]);
                }
            }
            assert(prev.valid());
        }
        let tr = candle.tr(&prev);
        let true_range = self.tr_ma.next(tr);

        let du = candle.high - prev.high;
        let dd = prev.low - candle.low;
        let plus_dm: ValueType = if du > dd && du > 0 {
            du
        } else {
            0
        };
        let minus_dm: ValueType = if dd > du && dd > 0 {
            dd
        } else {
            0
        };

        let plus_di_value = self.plus_di.next(plus_dm);
        let minus_di_value = self.minus_di.next(minus_dm);
        assert(self.tr_ma.within(0, 4 * PRICE_LIMIT));
        assert(self.plus_di.within(0, 4 * PRICE_LIMIT));
        assert(self.minus_di.within(0, 4 * PRICE_LIMIT));
        assert(old(self).calm() && rises_over(candle, before[0]) ==> self.minus_di.within(0, 0));

        if true_range == 0 {
            (0, 0)
        } else {
            assert(0 <= plus_di_value * SCALE <= 4 * PRICE_LIMIT * SCALE) by (nonlinear_arith)
                requires
                    0 <= plus_di_value <= 4 * PRICE_LIMIT,
            ;
            assert(0 <= minus_di_value * SCALE <= 4 * PRICE_LIMIT * SCALE) by (nonlinear_arith)
                requires
                    0 <= minus_di_value <= 4 * PRICE_LIMIT,
            ;
            let p = (plus_di_value * SCALE) / true_range;
            let m = (minus_di_value * SCALE) / true_range;
            proof {
                crate::arith::lemma_div_shrinks((plus_di_value * SCALE) as int, true_range as int);
                crate::arith::lemma_div_shrinks((minus_di_value * SCALE) as int, true_range as int);
            }
            (p, m)
        }
    }

    /// Feeds `|plus - minus| / (plus + minus)` to the ADX average and returns its output.
    pub fn adx(&mut self, plus: ValueType, minus: ValueType) -> (r: ValueType)
        requires
            old(self).wf(),
            0 <= plus <= 4 * PRICE_LIMIT * SCALE,
            0 <= minus <= 4 * PRICE_LIMIT * SCALE,
        ensures
            final(self).wf(),
            final(self).spec_config() == old(self).spec_config(),
            final(self).candles() == old(self).candles(),
            final(self).tr_ma() == old(self).tr_ma(),
            final(self).plus_ma() == old(self).plus_ma(),
            final(self).minus_ma() == old(self).minus_ma(),
            old(self).adx_ma().next_spec(adx_input_of(plus as int, minus as int), r as int, final(self).adx_ma()),
            r == final(self).adx_ma().output(),
            0 <= r <= SCALE,
    {
        let s = plus + minus;
        if s == 0 {
            let r = self.ma2.next(0);
            assert(self.ma2.within(0, SCALE as int));
            return r;
        }
        let d: i64 = if plus >= minus {
            plus - minus
        } else {
            minus - plus
        };
        let wide = (d as i128) * (SCALE as i128);
        let t128 = wide / (s as i128);
        proof {
            assert(0 <= d <= s);
            assert(0 <= d * SCALE <= s * SCALE) by (nonlinear_arith)
                requires
                    0 <= d <= s,
            ;
            crate::arith::lemma_div_between((d * SCALE) as int, s as int, 0, SCALE as int);
        }
        let t = t128 as i64;
        let r = self.ma2.next(t);
        assert(self.ma2.within(0, SCALE as int));
        r
    }

    /// Feeds one bar and returns `[ADX, +DI, -DI]` with the two signals.
    pub fn next(&mut self, candle: Candle) -> (r: IndicatorResult)
        requires
            old(self).wf(),
            candle.valid(),
        ensures
            final(self).wf(),
            final(self).spec_config() == old(self).spec_config(),
            final(self).candles() == old(self).candles().drop_first().push(candle),
            old(self).tr_ma().next_spec(
                true_range_of(candle, old(self).candles()[0]),
                final(self).tr_ma().output(),
                final(self).tr_ma(),
            ),
            old(self).plus_ma().next_spec(
                plus_dm_of(candle, old(self).candles()[0]),
                final(self).plus_ma().output(),
                final(self).plus_ma(),
            ),
            old(self).minus_ma().next_spec(
                minus_dm_of(candle, old(self).candles()[0]),
                final(self).minus_ma().output(),
                final(self).minus_ma(),
            ),
            ({
                let plus = ratio_of(final(self).plus_ma().output(), final(self).tr_ma().output());
                let minus = ratio_of(final(self).minus_ma().output(), final(self).tr_ma().output());
                let adx = final(self).adx_ma().output();
                &&& old(self).adx_ma().next_spec(adx_input_of(plus, minus), adx, final(self).adx_ma())
                &&& r.values_view() =~= seq![adx as i64, plus as i64, minus as i64]
                &&& r.signals_view() =~= seq![
                    trend_signal_of(adx, plus, minus, old(self).spec_config().zone as int) as i64,
                    clamp_signal(plus - minus) as i64,
                ]
                &&& 0 <= adx <= SCALE
            }),
            r.values_view().len() == AverageDirectionalIndex::arity().0,
            r.signals_view().len() == AverageDirectionalIndex::arity().1,
            forall|i: int| 0 <= i < r.signals_view().len() ==> signal_ok(#[trigger] r.signals_view()[i] as int),
            old(self).calm() && rises_over(candle, old(self).candles()[0]) ==> final(self).calm()
                && r.signals_view()[0] >= 0 && r.signals_view()[1] >= 0,
    {
        let (plus, minus) = self.dir_mov(candle);
        let adx = self.adx(plus, minus);

        let dir: i8 = if adx > self.cfg.zone {
            if plus > minus {
                1
            } else if plus < minus {
                -1
            } else {
                0
            }
        } else {
            0
        };
        let signal1 = direction_signal(dir);
        let signal2 = analog_signal(plus - minus);

        IndicatorResult::new(vec![adx, plus, minus], vec![signal1, signal2])
    }
}

} // verus!
