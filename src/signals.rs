//! Signal primitives: line crossing, rate of change and pivot detection.
use vstd::prelude::*;
use crate::methods::all_within;
use crate::window::{after_pushes, lemma_constant_fill, Window};
use crate::{PeriodType, ValueType, VALUE_LIMIT};

verus! {

/// The crossing seen when the pair `v` follows the pair `prev`: `1` where `a` moves
/// from at most `b` to above it, `-1` where it moves from at least `b` to below it,
/// `0` otherwise and on the first pair.
pub open spec fn cross_of(prev: Option<(i64, i64)>, v: (i64, i64)) -> int {
    match prev {
        None => 0,
        Some(p) => if p.0 <= p.1 && v.0 > v.1 {
            1
        } else if p.0 >= p.1 && v.0 < v.1 {
            -1
        } else {
            0
        },
    }
}

/// Detects the moment one series crosses another.
#[derive(Debug, Clone, Copy)]
pub struct Cross {
    last: Option<(ValueType, ValueType)>,
}

impl Cross {
    /// The last pair seen, if any.
    pub closed spec fn prev(&self) -> Option<(i64, i64)> {
        self.last
    }

    /// A detector that has seen no pair yet.
    pub fn new() -> (c: Self)
        ensures
            c.prev() is None,
    {
        Cross { last: None }
    }

    /// Takes the pair `(a, b)` and reports how `a` crossed `b` since the last pair.
    pub fn next(&mut self, value: (ValueType, ValueType)) -> (r: i8)
        ensures
            r == cross_of(old(self).prev(), value),
            final(self).prev() == Some(value),
    {
        let r: i8 = match self.last {
            None => 0,
            Some(p) => if p.0 <= p.1 && value.0 > value.1 {
                1
            } else if p.0 >= p.1 && value.0 < value.1 {
                -1
            } else {
                0
            },
        };
        self.last = Some(value);
        r
    }
}

impl Default for Cross {
    fn default() -> (c: Self)
        ensures
            c.prev() is None,
    {
        Cross::new()
    }
}

/// The change of a value against the one `period` steps back.
#[derive(Debug)]
pub struct RateOfChange {
    window: Window<ValueType>,
}

impl RateOfChange {
    /// The last `period` inputs, oldest first.
    pub closed spec fn history(&self) -> Seq<i64> {
        self.window.view()
    }

    pub closed spec fn wf(&self) -> bool {
        &&& self.window.wf()
        &&& self.window.view().len() >= 1
        &&& all_within(self.window.view(), -VALUE_LIMIT as int, VALUE_LIMIT as int)
    }

    /// A rate of change over `period` steps, as if every earlier input had been `seed`.
    pub fn new(period: PeriodType, seed: ValueType) -> (r: Self)
        requires
            period >= 1,
            -VALUE_LIMIT <= seed <= VALUE_LIMIT,
        ensures
            r.wf(),
            r.history() == Seq::new(period as nat, |i: int| seed),
    {
        RateOfChange { window: Window::new(period as usize, seed) }
    }

    /// Takes a value and returns its difference from the value `period` steps back.
    pub fn next(&mut self, x: ValueType) -> (r: ValueType)
        requires
            old(self).wf(),
            -VALUE_LIMIT <= x <= VALUE_LIMIT,
        ensures
            final(self).wf(),
            final(self).history() == old(self).history().drop_first().push(x),
            r == x - old(self).history()[0],
    {
        let ghost before = self.window.view();
        let back = self.window.push(x);
        proof {
            let t = self.window.view();
            assert forall|i: int| 0 <= i < t.len() implies -VALUE_LIMIT <= #[trigger] t[i]
                <= VALUE_LIMIT by {
                if i < t.len() - 1 {
                    assert(t[i] == before[i + 1]);
                }
            }
        }
        x - back
    }
}

/// A rate of change that has taken at least `period` copies of `v` returns zero for
/// every further `v`.
pub proof fn lemma_roc_settles(h: Seq<i64>, k: nat, v: i64)
    requires
        h.len() >= 1,
        k >= h.len(),
    ensures
        v - after_pushes(h, Seq::new(k, |i: int| v))[0] == 0,
{
    lemma_constant_fill(h, k, v);
}

/// The point at `c` is higher than every other point of `w`.
pub open spec fn is_peak(w: Seq<i64>, c: int) -> bool {
    forall|j: int| 0 <= j < w.len() && j != c ==> #[trigger] w[j] < w[c]
}

/// The point at `c` is lower than every other point of `w`.
pub open spec fn is_trough(w: Seq<i64>, c: int) -> bool {
    forall|j: int| 0 <= j < w.len() && j != c ==> #[trigger] w[j] > w[c]
}

/// `1` where the point at `c` is a local minimum, `-1` where it is a local maximum.
pub open spec fn reverse_of(w: Seq<i64>, c: int) -> int {
    if is_trough(w, c) {
        1
    } else if is_peak(w, c) {
        -1
    } else {
        0
    }
}

/// Detects a local extremum `right` steps back, against the `left` values before it
/// and the `right` values after it.
#[derive(Debug)]
pub struct ReverseSignal {
    left: usize,
    window: Window<ValueType>,
}

impl ReverseSignal {
    /// The last `left + right + 1` inputs, oldest first.
    pub closed spec fn history(&self) -> Seq<i64> {
        self.window.view()
    }

    /// Where the candidate point stands in the history.
    pub closed spec fn center(&self) -> int {
        self.left as int
    }

    pub closed spec fn wf(&self) -> bool {
        &&& self.window.wf()
        &&& self.left < self.window.view().len()
    }

    /// A detector over `left` values before and `right` after the candidate, as if every
    /// earlier input had been `seed`.
    pub fn new(left: PeriodType, right: PeriodType, seed: ValueType) -> (r: Self)
        requires
            left >= 1,
            right >= 1,
        ensures
            r.wf(),
            r.history() == Seq::new((left + right + 1) as nat, |i: int| seed),
            r.center() == left as int,
    {
        let n: usize = left as usize + right as usize + 1;
        ReverseSignal { left: left as usize, window: Window::new(n, seed) }
    }

    /// Takes a value and reports whether the value `right` steps back is now a confirmed
    /// minimum (`1`) or maximum (`-1`).
    pub fn next(&mut self, x: ValueType) -> (r: i8)
        requires
            old(self).wf(),
        ensures
            final(self).wf(),
            final(self).center() == old(self).center(),
            final(self).history() == old(self).history().drop_first().push(x),
            r == reverse_of(final(self).history(), final(self).center()),
    {
        self.window.push(x);
        let ghost w = self.window.view();
        let c = self.window.get(self.left);
        let n = self.window.capacity();
        let mut higher = true;
        let mut lower = true;
        let mut j: usize = 0;
        while j < n
            invariant
                self.wf(),
                w == self.window.view(),
                n == w.len(),
                c == w[self.left as int],
                j <= n,
                higher == (forall|k: int| 0 <= k < j && k != self.left ==> #[trigger] w[k] < c),
                lower == (forall|k: int| 0 <= k < j && k != self.left ==> #[trigger] w[k] > c),
            decreases n - j,
        {
            if j != self.left {
                let y = self.window.get(j);
                if y >= c {
                    higher = false;
                }
                if y <= c {
                    lower = false;
                }
            }
            j = j + 1;
        }
        if lower {
            1
        } else if higher {
            -1
        } else {
            0
        }
    }
}

} // verus!
