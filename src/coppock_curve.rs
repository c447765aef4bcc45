//! Coppock Curve: a smoothed sum of two rates of change, with crossing and pivot signals.
use vstd::prelude::*;
use crate::bar::{source_of, Candle, Source, PRICE_LIMIT};
use crate::methods::{all_within, lemma_shift_within, RegularMethod, RegularMethods};
use crate::result::{direction_signal, signal_ok, IndicatorResult};
use crate::signals::{cross_of, reverse_of, Cross, RateOfChange, ReverseSignal};
use crate::text::{
    method_named, parse_method, parse_period, parse_source, period_text, source_named, str_eq,
    ConfigError,
};
use crate::{PeriodType, SCALE};
use vstd::utf8::encode_utf8;

verus! {

/// Configuration of the Coppock Curve.
///
/// Values: the curve and its smoothed signal line. Signals: the curve crossing zero,
/// a pivot of the curve, and the curve crossing its signal line.
#[derive(Debug, Clone, Copy, PartialEq, Eq)]
pub struct CoppockCurve {
    pub period1: PeriodType,
    pub period2: PeriodType,
    pub period3: PeriodType,
    pub s2_left: PeriodType,
    pub s2_right: PeriodType,
    pub s3_period: PeriodType,
    pub source: Source,
    pub method1: RegularMethods,
    pub method2: RegularMethods,
}

impl CoppockCurve {
    pub open spec fn valid(&self) -> bool {
        &&& self.period1 >= 1
        &&& self.period2 >= 1
        &&& self.period3 >= 1
        &&& self.s2_left >= 1
        &&& self.s2_right >= 1
        &&& self.s3_period >= 1
    }

    /// Whether the configuration can build an instance: every period and span positive.
    pub fn validate(&self) -> (r: bool)
        ensures
            r == self.valid(),
    {
        self.period1 >= 1 && self.period2 >= 1 && self.period3 >= 1 && self.s2_left >= 1
            && self.s2_right >= 1 && self.s3_period >= 1
    }

    pub open spec fn arity() -> (u8, u8) {
        (2, 3)
    }

    /// The configuration with field `name` read from `value`, or why it stays as it is.
    pub open spec fn set_spec(self, name: Seq<char>, value: Seq<char>) -> Result<Self, ConfigError> {
        let b = encode_utf8(value);
        if name == "period1"@ {
            match period_text(b) {
                Some(x) => Ok(Self { period1: x, ..self }),
                None => Err(ConfigError::InvalidValue),
            }
        } else if name == "period2"@ {
            match period_text(b) {
                Some(x) => Ok(Self { period2: x, ..self }),
                None => Err(ConfigError::InvalidValue),
            }
        } else if name == "period3"@ {
            match period_text(b) {
                Some(x) => Ok(Self { period3: x, ..self }),
                None => Err(ConfigError::InvalidValue),
            }
        } else if name == "s2_left"@ {
            match period_text(b) {
                Some(x) => Ok(Self { s2_left: x, ..self }),
                None => Err(ConfigError::InvalidValue),
            }
        } else if name == "s2_right"@ {
            match period_text(b) {
                Some(x) => Ok(Self { s2_right: x, ..self }),
                None => Err(ConfigError::InvalidValue),
            }
        } else if name == "s3_period"@ {
            match period_text(b) {
                Some(x) => Ok(Self { s3_period: x, ..self }),
                None => Err(ConfigError::InvalidValue),
            }
        } else if name == "source"@ {
            match source_named(value) {
                Some(x) => Ok(Self { source: x, ..self }),
                None => Err(ConfigError::InvalidValue),
            }
        } else if name == "method1"@ {
            match method_named(value) {
                Some(x) => Ok(Self { method1: x, ..self }),
                None => Err(ConfigError::InvalidValue),
            }
        } else if name == "method2"@ {
            match method_named(value) {
                Some(x) => Ok(Self { method2: x, ..self }),
                None => Err(ConfigError::InvalidValue),
            }
        } else {
            Err(ConfigError::UnknownField)
        }
    }

    /// Sets the field `name` from the text `value`. An unknown name or a value that does
    /// not read leaves the configuration as it is and says which.
    pub fn set(&mut self, name: &str, value: String) -> (r: Result<(), ConfigError>)
        ensures
            match old(self).set_spec(name@, value@) {
                Ok(c) => r is Ok && *final(self) == c,
                Err(e) => r == Err::<(), ConfigError>(e) && *final(self) == *old(self),
            },
    {
        let v = value.as_str();
        if str_eq(name, "period1") {
            match parse_period(v) {
                Some(x) => {
                    self.period1 = x;
                    Ok(())
                },
                None => Err(ConfigError::InvalidValue),
            }
        } else if str_eq(name, "period2") {
            match parse_period(v) {
                Some(x) => {
                    self.period2 = x;
                    Ok(())
                },
                None => Err(ConfigError::InvalidValue),
            }
        } else if str_eq(name, "period3") {
            match parse_period(v) {
                Some(x) => {
                    self.period3 = x;
                    Ok(())
                },
                None => Err(ConfigError::InvalidValue),
            }
        } else if str_eq(name, "s2_left") {
            match parse_period(v) {
                Some(x) => {
                    self.s2_left = x;
                    Ok(())
                },
                None => Err(ConfigError::InvalidValue),
            }
        } else if str_eq(name, "s2_right") {
            match parse_period(v) {
                Some(x) => {
                    self.s2_right = x;
                    Ok(())
                },
                None => Err(ConfigError::InvalidValue),
            }
        } else if str_eq(name, "s3_period") {
            match parse_period(v) {
                Some(x) => {
                    self.s3_period = x;
                    Ok(())
                },
                None => Err(ConfigError::InvalidValue),
            }
        } else if str_eq(name, "source") {
            match parse_source(v) {
                Some(x) => {
                    self.source = x;
                    Ok(())
                },
                None => Err(ConfigError::InvalidValue),
            }
        } else if str_eq(name, "method1") {
            match parse_method(v) {
                Some(x) => {
                    self.method1 = x;
                    Ok(())
                },
                None => Err(ConfigError::InvalidValue),
            }
        } else if str_eq(name, "method2") {
            match parse_method(v) {
                Some(x) => {
                    self.method2 = x;
                    Ok(())
                },
                None => Err(ConfigError::InvalidValue),
            }
        } else {
            Err(ConfigError::UnknownField)
        }
    }

    /// `(number of values, number of signals)` of every result.
    pub fn size(&self) -> (r: (u8, u8))
        ensures
            r == Self::arity(),
    {
        (2, 3)
    }

    /// Binds the configuration to the first bar.
    pub fn init(self, candle: Candle) -> (r: CoppockCurveInstance)
        requires
            self.valid(),
            candle.valid(),
        ensures
            r.wf(),
            r.spec_config() == self,
            r.roc1().history() == Seq::new(self.period2 as nat, |i: int| source_of(candle, self.source) as i64),
            r.roc2().history() == Seq::new(self.period3 as nat, |i: int| source_of(candle, self.source) as i64),
            r.ma1().spec_kind() == self.method1,
            r.ma1().spec_period() == self.period1,
            r.ma2().spec_kind() == self.method2,
            r.ma2().spec_period() == self.s3_period,
            r.pivot().center() == self.s2_left,
            r.ma1().history() == Seq::new(self.period1 as nat, |i: int| 0i64),
            r.ma1().level() == 0,
            r.ma2().history() == Seq::new(self.s3_period as nat, |i: int| 0i64),
            r.ma2().level() == 0,
            r.cross_zero().prev() is None,
            r.pivot().history() == Seq::new((self.s2_left + self.s2_right + 1) as nat, |i: int| 0i64),
            r.cross_lines().prev() is None,
    {
        let cfg = self;
        let src = candle.source(cfg.source);
        CoppockCurveInstance {
            roc1: RateOfChange::new(cfg.period2, src),
            roc2: RateOfChange::new(cfg.period3, src),
            ma1: RegularMethod::new(cfg.method1, cfg.period1, 0),
            ma2: RegularMethod::new(cfg.method2, cfg.s3_period, 0),
            cross_over1: Cross::new(),
            pivot: ReverseSignal::new(cfg.s2_left, cfg.s2_right, 0),
            cross_over2: Cross::new(),
            cfg,
        }
    }
}

impl Default for CoppockCurve {
    fn default() -> (r: Self)
        ensures
            r.period1 == 10,
            r.period2 == 14,
            r.period3 == 11,
            r.s2_left == 4,
            r.s2_right == 2,
            r.s3_period == 5,
            r.method1 == RegularMethods::WMA,
            r.method2 == RegularMethods::EMA,
            r.source == Source::Close,
    {
        CoppockCurve {
            period1: 10,
            period2: 14,
            period3: 11,
            s2_left: 4,
            s2_right: 2,
            s3_period: 5,
            method1: RegularMethods::WMA,
            method2: RegularMethods::EMA,
            source: Source::Close,
        }
    }
}

/// The running state of a Coppock Curve.
#[derive(Debug)]
pub struct CoppockCurveInstance {
    cfg: CoppockCurve,
    roc1: RateOfChange,
    roc2: RateOfChange,
    ma1: RegularMethod,
    ma2: RegularMethod,
    cross_over1: Cross,
    pivot: ReverseSignal,
    cross_over2: Cross,
}

impl CoppockCurveInstance {
    pub closed spec fn spec_config(&self) -> CoppockCurve {
        self.cfg
    }

    pub closed spec fn roc1(&self) -> RateOfChange {
        self.roc1
    }

    pub closed spec fn roc2(&self) -> RateOfChange {
        self.roc2
    }

    pub closed spec fn ma1(&self) -> RegularMethod {
        self.ma1
    }

    pub closed spec fn ma2(&self) -> RegularMethod {
        self.ma2
    }

    pub closed spec fn cross_zero(&self) -> Cross {
        self.cross_over1
    }

    pub closed spec fn pivot(&self) -> ReverseSignal {
        self.pivot
    }

    pub closed spec fn cross_lines(&self) -> Cross {
        self.cross_over2
    }

    pub closed spec fn wf(&self) -> bool {
        &&& self.cfg.valid()
        &&& self.roc1.wf() && self.roc2.wf() && self.pivot.wf()
        &&& self.ma1.wf() && self.ma2.wf()
        &&& self.roc1.history().len() >= 1 && self.roc2.history().len() >= 1
        &&& all_within(self.roc1.history(), -PRICE_LIMIT as int, PRICE_LIMIT as int)
        &&& all_within(self.roc2.history(), -PRICE_LIMIT as int, PRICE_LIMIT as int)
    }

    /// The bound configuration.
    pub fn config(&self) -> (r: &CoppockCurve)
        ensures
            *r == self.spec_config(),
    {
        &self.cfg
    }

    /// Feeds one bar and returns the curve and its signal line with the three signals.
    pub fn next(&mut self, candle: Candle) -> (r: IndicatorResult)
        requires
            old(self).wf(),
            candle.valid(),
        ensures
            final(self).wf(),
            final(self).spec_config() == old(self).spec_config(),
            ({
                let src = source_of(candle, old(self).spec_config().source);
                let roc1 = src - old(self).roc1().history()[0];
                let roc2 = src - old(self).roc2().history()[0];
                let value1 = final(self).ma1().output();
                let value2 = final(self).ma2().output();
                &&& final(self).roc1().history() == old(self).roc1().history().drop_first().push(src as i64)
                &&& final(self).roc2().history() == old(self).roc2().history().drop_first().push(src as i64)
                &&& old(self).ma1().next_spec(roc1 + roc2, value1, final(self).ma1())
                &&& old(self).ma2().next_spec(value1, value2, final(self).ma2())
                &&& final(self).cross_zero().prev() == Some((value1 as i64, 0i64))
                &&& final(self).pivot().history() == old(self).pivot().history().drop_first().push(value1 as i64)
                &&& final(self).pivot().center() == old(self).pivot().center()
                &&& final(self).cross_lines().prev() == Some((value1 as i64, value2 as i64))
                &&& r.values_view() =~= seq![value1 as i64, value2 as i64]
                &&& r.signals_view() =~= seq![
                    (cross_of(old(self).cross_zero().prev(), (value1 as i64, 0i64)) * SCALE) as i64,
                    (reverse_of(final(self).pivot().history(), final(self).pivot().center()) * SCALE) as i64,
                    (cross_of(old(self).cross_lines().prev(), (value1 as i64, value2 as i64)) * SCALE) as i64,
                ]
            }),
            r.values_view().len() == CoppockCurve::arity().0,
            r.signals_view().len() == CoppockCurve::arity().1,
            forall|i: int| 0 <= i < r.signals_view().len() ==> signal_ok(#[trigger] r.signals_view()[i] as int),
    {
        let src = candle.source(self.cfg.source);
        proof {
            lemma_shift_within(self.roc1.history(), src, -PRICE_LIMIT as int, PRICE_LIMIT as int);
            lemma_shift_within(self.roc2.history(), src, -PRICE_LIMIT as int, PRICE_LIMIT as int);
        }
        let roc1 = self.roc1.next(src);
        let roc2 = self.roc2.next(src);
        let value1 = self.ma1.next(roc1 + roc2);
        let value2 = self.ma2.next(value1);

        let signal1 = self.cross_over1.next((value1, 0));
        let signal2 = self.pivot.next(value1);
        let signal3 = self.cross_over2.next((value1, value2));

        IndicatorResult::new(
            vec![value1, value2],
            vec![direction_signal(signal1), direction_signal(signal2), direction_signal(signal3)],
        )
    }
}

} // verus!
