//! The smoothing methods: simple, weighted, exponential and Wilder's moving averages.
use vstd::prelude::*;
use crate::arith::{floor_div, lemma_div_between, lemma_partial_step};
use crate::window::{after_pushes, lemma_constant_fill, lemma_constant_stays, Window};
use crate::{PeriodType, ValueType, VALUE_LIMIT};

verus! {

/// Sum of the values, oldest first.
pub open spec fn seq_sum(s: Seq<i64>) -> int
    decreases s.len(),
{
    if s.len() == 0 {
        0
    } else {
        seq_sum(s.drop_last()) + s.last()
    }
}

/// Sum of the values weighted by position: the oldest weighs one, the newest `s.len()`.
pub open spec fn weighted_sum(s: Seq<i64>) -> int
    decreases s.len(),
{
    if s.len() == 0 {
        0
    } else {
        weighted_sum(s.drop_last()) + s.len() * s.last()
    }
}

/// `1 + 2 + ... + n`.
pub open spec fn triangle(n: nat) -> nat
    decreases n,
{
    if n == 0 {
        0
    } else {
        triangle((n - 1) as nat) + n
    }
}

/// Simple moving average of a full window.
pub open spec fn sma_of(s: Seq<i64>) -> int {
    seq_sum(s) / (s.len() as int)
}

/// Linearly weighted moving average of a full window.
pub open spec fn wma_of(s: Seq<i64>) -> int {
    weighted_sum(s) / (triangle(s.len()) as int)
}

/// Exponential smoothing with `alpha = 2 / (period + 1)`.
pub open spec fn ema_step(prev: int, x: int, period: int) -> int {
    prev + ((x - prev) * 2) / (period + 1)
}

/// Wilder's smoothing with `alpha = 1 / period`.
pub open spec fn rma_step(prev: int, x: int, period: int) -> int {
    prev + (x - prev) / period
}

pub open spec fn all_within(s: Seq<i64>, lo: int, hi: int) -> bool {
    forall|i: int| 0 <= i < s.len() ==> lo <= #[trigger] s[i] <= hi
}

/// The closed set of smoothing strategies.
#[derive(Debug, Clone, Copy, PartialEq, Eq)]
pub enum RegularMethods {
    /// Simple moving average.
    SMA,
    /// Linearly weighted moving average.
    WMA,
    /// Exponential moving average, `alpha = 2 / (period + 1)`.
    EMA,
    /// Wilder's moving average, `alpha = 1 / period`.
    RMA,
}

/// One running smoothing method.
#[derive(Debug)]
pub struct RegularMethod {
    kind: RegularMethods,
    period: PeriodType,
    window: Window<i64>,
    sum: i64,
    level: i64,
}

impl RegularMethod {
    pub closed spec fn spec_kind(&self) -> RegularMethods {
        self.kind
    }

    pub closed spec fn spec_period(&self) -> nat {
        self.period as nat
    }

    /// The last `period` inputs, oldest first (the simple and weighted averages).
    pub closed spec fn history(&self) -> Seq<i64> {
        self.window.view()
    }

    /// The last output (the exponential and Wilder's averages).
    pub closed spec fn level(&self) -> int {
        self.level as int
    }

    /// Every value the state holds lies in `[lo, hi]`.
    pub open spec fn within(&self, lo: int, hi: int) -> bool {
        all_within(self.history(), lo, hi) && lo <= self.level() <= hi
    }

    pub closed spec fn wf(&self) -> bool {
        &&& self.period >= 1
        &&& self.window.wf()
        &&& self.window.view().len() == self.period as nat
        &&& self.sum == seq_sum(self.window.view())
        &&& self.within(-VALUE_LIMIT as int, VALUE_LIMIT as int)
    }

    /// The output the state stands for: the average of the history, or the level.
    pub open spec fn output(&self) -> int {
        match self.spec_kind() {
            RegularMethods::SMA => sma_of(self.history()),
            RegularMethods::WMA => wma_of(self.history()),
            RegularMethods::EMA => self.level(),
            RegularMethods::RMA => self.level(),
        }
    }

    /// What `next(x)` returns, and the state it leaves.
    pub open spec fn next_spec(&self, x: int, r: int, after: Self) -> bool {
        &&& after.spec_kind() == self.spec_kind()
        &&& after.spec_period() == self.spec_period()
        &&& match self.spec_kind() {
            RegularMethods::SMA => after.history() == self.history().drop_first().push(x as i64)
                && r == sma_of(after.history()),
            RegularMethods::WMA => after.history() == self.history().drop_first().push(x as i64)
                && r == wma_of(after.history()),
            RegularMethods::EMA => r == ema_step(self.level(), x, self.spec_period() as int)
                && after.level() == r,
            RegularMethods::RMA => r == rma_step(self.level(), x, self.spec_period() as int)
                && after.level() == r,
        }
    }

    /// A method of the given kind and period, as if every earlier input had been `seed`.
    pub fn new(kind: RegularMethods, period: PeriodType, seed: ValueType) -> (m: Self)
        requires
            period >= 1,
            -VALUE_LIMIT <= seed <= VALUE_LIMIT,
        ensures
            m.wf(),
            m.spec_kind() == kind,
            m.spec_period() == period as nat,
            m.history() == Seq::new(period as nat, |i: int| seed),
            m.level() == seed as int,
    {
        let window = Window::new(period as usize, seed);
        assert(-VALUE_LIMIT * 255 <= seed * (period as int) <= VALUE_LIMIT * 255) by (nonlinear_arith)
            requires
                -VALUE_LIMIT <= seed <= VALUE_LIMIT,
                1 <= period <= 255,
        ;
        let sum = seed * (period as i64);
        proof {
            lemma_sum_constant(window.view(), seed);
        }
        RegularMethod { kind, period, window, sum, level: seed }
    }

    /// Feeds one input and returns the smoothed output.
    pub fn next(&mut self, x: ValueType) -> (r: ValueType)
        requires
            old(self).wf(),
            -VALUE_LIMIT <= x <= VALUE_LIMIT,
        ensures
            final(self).wf(),
            old(self).next_spec(x as int, r as int, *final(self)),
            r == final(self).output(),
            -VALUE_LIMIT <= r <= VALUE_LIMIT,
            forall|lo: int, hi: int|
                old(self).within(lo, hi) && lo <= x <= hi ==> #[trigger] final(self).within(lo, hi)
                    && lo <= r <= hi,
    {
        match self.kind {
            RegularMethods::SMA => {
                let ghost before = self.window.view();
                let evicted = self.window.push(x);
                proof {
                    lemma_sum_shift(before, x);
                    lemma_sum_limit(before);
                    lemma_sum_limit(self.window.view());
                }
                self.sum = self.sum - evicted + x;
                let r = floor_div(self.sum, self.period as i64);
                proof {
                    assert forall|lo: int, hi: int|
                        all_within(before, lo, hi) && lo <= x <= hi implies all_within(
                            self.window.view(),
                            lo,
                            hi,
                        ) && lo <= r <= hi by {
                        lemma_shift_within(before, x, lo, hi);
                        lemma_sum_bounds(self.window.view(), lo, hi);
                        lemma_div_between(self.sum as int, self.period as int, lo, hi);
                    }
                }
                r
            },
            RegularMethods::WMA => {
                let ghost before = self.window.view();
                let evicted = self.window.push(x);
                proof {
                    lemma_sum_shift(before, x);
                    lemma_sum_limit(before);
                    lemma_sum_limit(self.window.view());
                }
                self.sum = self.sum - evicted + x;
                let ws = self.weighted_total();
                let n = self.period as i64;
                proof {
                    assert(n * (n + 1) <= 255 * 256) by (nonlinear_arith)
                        requires
                            1 <= n <= 255,
                    ;
                    lemma_triangle(n as nat);
                    crate::arith::lemma_mul_div_cancel(triangle(n as nat) as int, 2);
                }
                let r = floor_div(ws, n * (n + 1) / 2);
                proof {
                    assert forall|lo: int, hi: int|
                        all_within(before, lo, hi) && lo <= x <= hi implies all_within(
                            self.window.view(),
                            lo,
                            hi,
                        ) && lo <= r <= hi by {
                        lemma_shift_within(before, x, lo, hi);
                        lemma_wsum_bounds(self.window.view(), lo, hi);
                        lemma_div_between(ws as int, triangle(n as nat) as int, lo, hi);
                    }
                }
                r
            },
            RegularMethods::EMA => {
                let d = x - self.level;
                let step = floor_div(d * 2, self.period as i64 + 1);
                proof {
                    lemma_partial_step(d as int, 2, self.period + 1);
                }
                self.level = self.level + step;
                self.level
            },
            RegularMethods::RMA => {
                let d = x - self.level;
                let step = floor_div(d, self.period as i64);
                proof {
                    assert(d * 1 == d);
                    lemma_partial_step(d as int, 1, self.period as int);
                }
                self.level = self.level + step;
                self.level
            },
        }
    }

    /// The weighted sum of the history, by a pass over it.
    fn weighted_total(&self) -> (ws: i64)
        requires
            self.wf(),
        ensures
            ws == weighted_sum(self.history()),
    {
        let ghost v = self.window.view();
        let n = self.window.capacity();
        let mut acc: i64 = 0;
        let mut i: usize = 0;
        while i < n
            invariant
                self.wf(),
                v == self.window.view(),
                n == v.len(),
                n <= 255,
                i <= n,
                acc == weighted_sum(v.take(i as int)),
            decreases n - i,
        {
            let item = self.window.get(i);
            proof {
                let t = v.take(i as int + 1);
                assert(t.drop_last() =~= v.take(i as int));
                assert(weighted_sum(t) == acc + (i + 1) * item);
                assert(all_within(t, -VALUE_LIMIT as int, VALUE_LIMIT as int));
                lemma_wsum_bounds(t, -VALUE_LIMIT as int, VALUE_LIMIT as int);
                lemma_triangle_limit((i + 1) as nat);
                assert(all_within(v.take(i as int), -VALUE_LIMIT as int, VALUE_LIMIT as int));
                lemma_wsum_bounds(v.take(i as int), -VALUE_LIMIT as int, VALUE_LIMIT as int);
                lemma_triangle_limit(i as nat);
                assert(-VALUE_LIMIT * 255 <= (i + 1) * item <= VALUE_LIMIT * 255) by (nonlinear_arith)
                    requires
                        -VALUE_LIMIT <= item <= VALUE_LIMIT,
                        0 <= i < 255,
                ;
            }
            acc = acc + ((i + 1) as i64) * item;
            i = i + 1;
        }
        assert(v.take(n as int) =~= v);
        acc
    }
}

/// A simple moving average fed a constant `v` settles on `v` once a whole period of
/// `v` has come in (at once, where its history already held only `v`), and stays there.
pub proof fn lemma_sma_constant(h: Seq<i64>, k: nat, v: i64)
    requires
        h.len() >= 1,
        k >= h.len() || h == Seq::new(h.len(), |i: int| v),
    ensures
        after_pushes(h, Seq::new(k, |i: int| v)) == Seq::new(h.len(), |i: int| v),
        sma_of(after_pushes(h, Seq::new(k, |i: int| v))) == v,
{
    if k >= h.len() {
        lemma_constant_fill(h, k, v);
    } else {
        lemma_constant_stays(h, k, v);
    }
    let w = Seq::new(h.len(), |i: int| v);
    lemma_sum_constant(w, v);
    crate::arith::lemma_mul_div_cancel(v as int, h.len() as int);
}

/// Exponential and Wilder's smoothing fed the value they hold return that value.
pub proof fn lemma_smoothing_fixed_point(v: int, period: int)
    requires
        period >= 1,
    ensures
        ema_step(v, v, period) == v,
        rma_step(v, v, period) == v,
{
    assert((v - v) * 2 == 0);
    assert(0int / (period + 1) == 0);
    assert(0int / period == 0);
}

/// Shifting one more value of `[lo, hi]` into a history of such values keeps it so.
pub proof fn lemma_shift_within(s: Seq<i64>, x: i64, lo: int, hi: int)
    requires
        all_within(s, lo, hi),
        lo <= x <= hi,
        s.len() >= 1,
    ensures
        all_within(s.drop_first().push(x), lo, hi),
{
    let t = s.drop_first().push(x);
    assert forall|i: int| 0 <= i < t.len() implies lo <= #[trigger] t[i] <= hi by {
        if i < t.len() - 1 {
            assert(t[i] == s[i + 1]);
        }
    }
}

proof fn lemma_triangle(n: nat)
    ensures
        2 * triangle(n) == n * (n + 1),
    decreases n,
{
    if n > 0 {
        lemma_triangle((n - 1) as nat);
        let m = (n - 1) as int;
        let k = triangle((n - 1) as nat) as int;
        assert(triangle(n) == k + n);
        assert(2 * (k + n) == n * (n + 1)) by (nonlinear_arith)
            requires
                2 * k == m * (m + 1),
                m == n - 1,
        ;
    } else {
        assert(n * (n + 1) == 0) by (nonlinear_arith)
            requires
                n == 0,
        ;
    }
}

proof fn lemma_triangle_limit(n: nat)
    requires
        n <= 255,
    ensures
        triangle(n) <= 32640,
        -VALUE_LIMIT * 32640 <= -VALUE_LIMIT * triangle(n),
        VALUE_LIMIT * triangle(n) <= VALUE_LIMIT * 32640,
{
    lemma_triangle(n);
    assert(n * (n + 1) <= 255 * 256) by (nonlinear_arith)
        requires
            n <= 255,
    ;
    let t = triangle(n) as int;
    assert(-VALUE_LIMIT * 32640 <= -VALUE_LIMIT * t && VALUE_LIMIT * t <= VALUE_LIMIT * 32640) by (nonlinear_arith)
        requires
            0 <= t <= 32640,
    ;
}

proof fn lemma_wsum_bounds(s: Seq<i64>, lo: int, hi: int)
    requires
        all_within(s, lo, hi),
    ensures
        lo * triangle(s.len()) <= weighted_sum(s) <= hi * triangle(s.len()),
    decreases s.len(),
{
    if s.len() == 0 {
        assert(lo * 0 == 0 && hi * 0 == 0);
    } else {
        let t = s.drop_last();
        assert(all_within(t, lo, hi)) by {
            assert forall|i: int| 0 <= i < t.len() implies lo <= #[trigger] t[i] <= hi by {
                assert(t[i] == s[i]);
            }
        }
        lemma_wsum_bounds(t, lo, hi);
        let n = s.len() as int;
        let a = weighted_sum(t);
        let b = s[n - 1] as int;
        let k = triangle(t.len()) as int;
        assert(weighted_sum(s) == a + n * b);
        assert(triangle(s.len()) == k + n);
        assert(lo <= b <= hi);
        assert(lo * (k + n) <= a + n * b <= hi * (k + n)) by (nonlinear_arith)
            requires
                lo * k <= a <= hi * k,
                lo <= b <= hi,
                n >= 1,
        ;
    }
}

proof fn lemma_sum_constant(s: Seq<i64>, v: i64)
    requires
        forall|i: int| 0 <= i < s.len() ==> s[i] == v,
    ensures
        seq_sum(s) == v * s.len(),
    decreases s.len(),
{
    if s.len() > 0 {
        lemma_sum_constant(s.drop_last(), v);
        assert(v * (s.len() - 1) + v == v * s.len()) by (nonlinear_arith);
    }
}

proof fn lemma_sum_drop_first(s: Seq<i64>)
    requires
        s.len() >= 1,
    ensures
        seq_sum(s.drop_first()) == seq_sum(s) - s[0],
    decreases s.len(),
{
    if s.len() > 1 {
        lemma_sum_drop_first(s.drop_last());
        assert(s.drop_last().drop_first() =~= s.drop_first().drop_last());
        assert(s.drop_first().last() == s.last());
    } else {
        assert(s.drop_first().len() == 0);
        assert(s.drop_last().len() == 0);
        assert(seq_sum(s) == seq_sum(s.drop_last()) + s.last());
    }
}

proof fn lemma_sum_shift(s: Seq<i64>, x: i64)
    requires
        s.len() >= 1,
    ensures
        seq_sum(s.drop_first().push(x)) == seq_sum(s) - s[0] + x,
{
    lemma_sum_drop_first(s);
    assert(s.drop_first().push(x).drop_last() =~= s.drop_first());
}

proof fn lemma_sum_bounds(s: Seq<i64>, lo: int, hi: int)
    requires
        all_within(s, lo, hi),
    ensures
        lo * s.len() <= seq_sum(s) <= hi * s.len(),
    decreases s.len(),
{
    if s.len() == 0 {
        assert(lo * 0 == 0 && hi * 0 == 0);
    } else {
        let t = s.drop_last();
        assert(all_within(t, lo, hi)) by {
            assert forall|i: int| 0 <= i < t.len() implies lo <= #[trigger] t[i] <= hi by {
                assert(t[i] == s[i]);
            }
        }
        lemma_sum_bounds(t, lo, hi);
        let n = s.len() as int;
        let a = seq_sum(t);
        let b = s[n - 1] as int;
        assert(seq_sum(s) == a + b);
        assert(lo <= b <= hi);
        assert(lo * n <= a + b <= hi * n) by (nonlinear_arith)
            requires
                lo * (n - 1) <= a <= hi * (n - 1),
                lo <= b <= hi,
        ;
    }
}

proof fn lemma_sum_limit(s: Seq<i64>)
    requires
        all_within(s, -VALUE_LIMIT as int, VALUE_LIMIT as int),
        s.len() <= 255,
    ensures
        -VALUE_LIMIT * 255 <= seq_sum(s) <= VALUE_LIMIT * 255,
{
    lemma_sum_bounds(s, -VALUE_LIMIT as int, VALUE_LIMIT as int);
    let n = s.len() as int;
    assert(-VALUE_LIMIT * 255 <= -VALUE_LIMIT * n && VALUE_LIMIT * n <= VALUE_LIMIT * 255) by (nonlinear_arith)
        requires
            0 <= n <= 255,
    ;
}

} // verus!
