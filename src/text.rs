//! Reading configuration values from text.
use vstd::prelude::*;
use vstd::string::StringSliceAdditionalSpecFns;
use crate::bar::Source;
use crate::methods::RegularMethods;
use crate::SCALE;

verus! {

pub open spec fn is_digit(b: u8) -> bool {
    48 <= b <= 57
}

pub open spec fn all_digits(s: Seq<u8>) -> bool {
    forall|i: int| 0 <= i < s.len() ==> is_digit(#[trigger] s[i])
}

/// The number a run of decimal digits spells.
pub open spec fn digits_value(s: Seq<u8>) -> int
    decreases s.len(),
{
    if s.len() == 0 {
        0
    } else {
        digits_value(s.drop_last()) * 10 + (s.last() - 48)
    }
}

pub open spec fn pow10(n: nat) -> int
    decreases n,
{
    if n == 0 {
        1
    } else {
        10 * pow10((n - 1) as nat)
    }
}

/// `s` without one leading `+`.
pub open spec fn unsigned_part(s: Seq<u8>) -> Seq<u8> {
    if s.len() > 0 && s[0] == 43 {
        s.drop_first()
    } else {
        s
    }
}

/// A period written as decimal digits, with an optional leading `+`, from 0 to 255.
pub open spec fn period_text(s: Seq<u8>) -> Option<u8> {
    let t = unsigned_part(s);
    if t.len() > 0 && all_digits(t) && digits_value(t) <= 255 {
        Some(digits_value(t) as u8)
    } else {
        None
    }
}

/// Where the first `.` stands in `s`, or its length where there is none.
pub open spec fn dot_pos(s: Seq<u8>) -> int
    decreases s.len(),
{
    if s.len() == 0 {
        0
    } else if s[0] == 46 {
        0
    } else {
        1 + dot_pos(s.drop_first())
    }
}

/// The part of a decimal before its point.
pub open spec fn whole_part(t: Seq<u8>) -> Seq<u8> {
    t.subrange(0, dot_pos(t))
}

/// The part of a decimal after its point.
pub open spec fn fraction_part(t: Seq<u8>) -> Seq<u8> {
    if dot_pos(t) < t.len() {
        t.subrange(dot_pos(t) + 1, t.len() as int)
    } else {
        Seq::empty()
    }
}

/// A decimal in fixed point: an optional sign, at least one digit with a whole part of at
/// most one million, and an optional point followed by at most six digits.
pub open spec fn fraction_text(s: Seq<u8>) -> Option<i64> {
    let neg = s.len() > 0 && s[0] == 45;
    let t = if neg {
        s.drop_first()
    } else {
        unsigned_part(s)
    };
    let w = whole_part(t);
    let f = fraction_part(t);
    if w.len() > 0 && all_digits(w) && digits_value(w) <= SCALE && all_digits(f) && f.len() <= 6 {
        let m = digits_value(w) * SCALE + digits_value(f) * pow10((6 - f.len()) as nat);
        Some(
            (if neg {
                -m
            } else {
                m
            }) as i64,
        )
    } else {
        None
    }
}

proof fn lemma_digits_step(s: Seq<u8>, i: int)
    requires
        0 <= i < s.len(),
    ensures
        digits_value(s.subrange(0, i + 1)) == digits_value(s.subrange(0, i)) * 10 + (s[i] - 48),
{
    assert(s.subrange(0, i + 1).drop_last() =~= s.subrange(0, i));
}

proof fn lemma_digits_nonneg(s: Seq<u8>)
    requires
        all_digits(s),
    ensures
        digits_value(s) >= 0,
    decreases s.len(),
{
    if s.len() > 0 {
        assert(all_digits(s.drop_last())) by {
            assert forall|i: int| 0 <= i < s.drop_last().len() implies is_digit(
                #[trigger] s.drop_last()[i],
            ) by {
                assert(s.drop_last()[i] == s[i]);
            }
        }
        lemma_digits_nonneg(s.drop_last());
        assert(is_digit(s[s.len() - 1]));
    }
}

/// Reads the digits `b[lo..hi]`: `None` where one is not a digit, else their value, or
/// `cap + 1` where that value is above `cap`.
fn digits_capped(b: &[u8], lo: usize, hi: usize, cap: u64) -> (r: Option<u64>)
    requires
        lo <= hi <= b@.len(),
        cap <= 1_000_000_000_000,
    ensures
        match r {
            None => !all_digits(b@.subrange(lo as int, hi as int)),
            Some(v) => all_digits(b@.subrange(lo as int, hi as int)) && v == (if digits_value(
                b@.subrange(lo as int, hi as int),
            ) <= cap {
                digits_value(b@.subrange(lo as int, hi as int))
            } else {
                cap + 1
            }),
        },
{
    let ghost s = b@.subrange(lo as int, hi as int);
    let mut acc: u64 = 0;
    let mut i: usize = lo;
    while i < hi
        invariant
            lo <= i <= hi <= b@.len(),
            s == b@.subrange(lo as int, hi as int),
            all_digits(s.subrange(0, i - lo)),
            acc == (if digits_value(s.subrange(0, i - lo)) <= cap {
                digits_value(s.subrange(0, i - lo))
            } else {
                cap + 1
            }),
            cap <= 1_000_000_000_000,
        decreases hi - i,
    {
        let c = b[i];
        if c < 48 || c > 57 {
            assert(s[i - lo] == c);
            assert(!is_digit(s[i - lo]));
            return None;
        }
        proof {
            let k = i - lo;
            lemma_digits_step(s, k);
            lemma_digits_nonneg(s.subrange(0, k));
            assert(s[k] == c);
            assert(all_digits(s.subrange(0, k + 1))) by {
                assert forall|j: int| 0 <= j < k + 1 implies is_digit(
                    #[trigger] s.subrange(0, k + 1)[j],
                ) by {
                    if j < k {
                        assert(s.subrange(0, k + 1)[j] == s.subrange(0, k)[j]);
                    }
                }
            }
        }
        let d = (c - 48) as u64;
        if acc > cap {
            acc = cap + 1;
        } else {
            let v = acc * 10 + d;
            acc = if v > cap {
                cap + 1
            } else {
                v
            };
        }
        i = i + 1;
    }
    assert(s.subrange(0, hi - lo) =~= s);
    Some(acc)
}

/// Reads a period.
pub fn parse_period(text: &str) -> (r: Option<u8>)
    ensures
        r == period_text(text.spec_bytes()),
{
    let b = text.as_bytes();
    let start: usize = if b.len() > 0 && b[0] == 43 {
        1
    } else {
        0
    };
    proof {
        if start == 1 {
            assert(b@.subrange(1, b@.len() as int) =~= b@.drop_first());
        } else {
            assert(b@.subrange(0, b@.len() as int) =~= b@);
        }
    }
    if start == b.len() {
        return None;
    }
    match digits_capped(b, start, b.len(), 255) {
        None => None,
        Some(v) => if v <= 255 {
            Some(v as u8)
        } else {
            None
        },
    }
}

proof fn lemma_dot_pos(t: Seq<u8>, k: int)
    requires
        0 <= k <= t.len(),
        forall|j: int| 0 <= j < k ==> #[trigger] t[j] != 46,
        k == t.len() || t[k] == 46,
    ensures
        dot_pos(t) == k,
    decreases k,
{
    if k > 0 {
        let u = t.drop_first();
        assert forall|j: int| 0 <= j < k - 1 implies #[trigger] u[j] != 46 by {
            assert(u[j] == t[j + 1]);
        }
        if k < t.len() {
            assert(u[k - 1] == t[k]);
        }
        lemma_dot_pos(u, k - 1);
    }
}

proof fn lemma_digits_below(s: Seq<u8>)
    requires
        all_digits(s),
    ensures
        0 <= digits_value(s) < pow10(s.len()),
    decreases s.len(),
{
    if s.len() > 0 {
        let t = s.drop_last();
        assert(all_digits(t)) by {
            assert forall|i: int| 0 <= i < t.len() implies is_digit(#[trigger] t[i]) by {
                assert(t[i] == s[i]);
            }
        }
        lemma_digits_below(t);
        assert(is_digit(s[s.len() - 1]));
        let a = digits_value(t);
        let p = pow10(t.len());
        let d = s.last() - 48;
        assert(pow10(s.len()) == 10 * p);
        assert(0 <= a * 10 + d < 10 * p) by (nonlinear_arith)
            requires
                0 <= a < p,
                0 <= d <= 9,
        ;
    }
}

/// `10` to the power `n`.
fn pow10_exec(n: usize) -> (r: i64)
    requires
        n <= 6,
    ensures
        r == pow10(n as nat),
        1 <= r <= 1_000_000,
{
    proof {
        reveal_with_fuel(pow10, 7);
    }
    if n == 0 {
        1
    } else if n == 1 {
        10
    } else if n == 2 {
        100
    } else if n == 3 {
        1_000
    } else if n == 4 {
        10_000
    } else if n == 5 {
        100_000
    } else {
        1_000_000
    }
}

proof fn lemma_pow10_positive(n: nat)
    ensures
        pow10(n) >= 1,
    decreases n,
{
    if n > 0 {
        lemma_pow10_positive((n - 1) as nat);
    }
}

/// Reads a decimal into fixed point.
pub fn parse_fraction(text: &str) -> (r: Option<i64>)
    ensures
        r == fraction_text(text.spec_bytes()),
{
    let b = text.as_bytes();
    let n = b.len();
    let neg = n > 0 && b[0] == 45;
    let start: usize = if neg || (n > 0 && b[0] == 43) {
        1
    } else {
        0
    };
    let ghost t = b@.subrange(start as int, n as int);
    proof {
        if start == 1 {
            assert(t =~= b@.drop_first());
        } else {
            assert(t =~= b@);
        }
    }
    let mut k: usize = start;
    while k < n && b[k] != 46
        invariant
            start <= k <= n == b@.len(),
            t == b@.subrange(start as int, n as int),
            forall|j: int| 0 <= j < k - start ==> #[trigger] t[j] != 46,
        decreases n - k,
    {
        assert(t[k - start] == b@[k as int]);
        k = k + 1;
    }
    proof {
        if k < n {
            assert(t[k - start] == b@[k as int]);
        }
        lemma_dot_pos(t, k - start);
        assert(whole_part(t) =~= b@.subrange(start as int, k as int));
    }
    if k == start {
        return None;
    }
    let whole = match digits_capped(b, start, k, 1_000_000) {
        None => {
            return None;
        },
        Some(w) => w,
    };
    if whole > 1_000_000 {
        return None;
    }
    let fs: usize = if k < n {
        k + 1
    } else {
        n
    };
    proof {
        if k < n {
            assert(fraction_part(t) =~= b@.subrange(fs as int, n as int));
        } else {
            assert(fraction_part(t) =~= b@.subrange(fs as int, n as int));
        }
    }
    if n - fs > 6 {
        return None;
    }
    let frac = match digits_capped(b, fs, n, 1_000_000) {
        None => {
            return None;
        },
        Some(f) => f,
    };
    proof {
        lemma_digits_below(b@.subrange(fs as int, n as int));
        lemma_pow10_positive((n - fs) as nat);
        assert(pow10((n - fs) as nat) <= 1_000_000) by {
            assert(pow10(0) == 1);
            reveal_with_fuel(pow10, 7);
        }
    }
    let p = pow10_exec(6 - (n - fs));
    assert(0 <= (whole as i64) * SCALE + (frac as i64) * p <= 2_000_000_000_000) by (nonlinear_arith)
        requires
            0 <= whole <= 1_000_000,
            0 <= frac <= 1_000_000,
            1 <= p <= 1_000_000,
            SCALE == 1_000_000,
    ;
    let m: i64 = (whole as i64) * SCALE + (frac as i64) * p;
    if neg {
        Some(-m)
    } else {
        Some(m)
    }
}

/// Why a configuration field was left as it was.
#[derive(Debug, Clone, Copy, PartialEq, Eq)]
pub enum ConfigError {
    /// The configuration has no field of that name.
    UnknownField,
    /// The text is not a value of the field's type.
    InvalidValue,
}

/// Whether the two strings hold the same characters.
pub fn str_eq(a: &str, b: &str) -> (r: bool)
    ensures
        r == (a@ == b@),
{
    let x = a.as_bytes();
    let y = b.as_bytes();
    if x.len() != y.len() {
        return false;
    }
    let mut i: usize = 0;
    while i < x.len()
        invariant
            x@.len() == y@.len(),
            x@ == a.spec_bytes(),
            y@ == b.spec_bytes(),
            i <= x@.len(),
            forall|j: int| 0 <= j < i ==> x@[j] == y@[j],
        decreases x@.len() - i,
    {
        if x[i] != y[i] {
            return false;
        }
        i = i + 1;
    }
    proof {
        assert(x@ =~= y@);
        vstd::utf8::encode_utf8_decode_utf8(a@);
        vstd::utf8::encode_utf8_decode_utf8(b@);
    }
    true
}

/// The smoothing method a name stands for.
pub open spec fn method_named(s: Seq<char>) -> Option<RegularMethods> {
    if s == "sma"@ {
        Some(RegularMethods::SMA)
    } else if s == "wma"@ {
        Some(RegularMethods::WMA)
    } else if s == "ema"@ {
        Some(RegularMethods::EMA)
    } else if s == "rma"@ {
        Some(RegularMethods::RMA)
    } else {
        None
    }
}

/// Reads the name of a smoothing method.
pub fn parse_method(text: &str) -> (r: Option<RegularMethods>)
    ensures
        r == method_named(text@),
{
    if str_eq(text, "sma") {
        Some(RegularMethods::SMA)
    } else if str_eq(text, "wma") {
        Some(RegularMethods::WMA)
    } else if str_eq(text, "ema") {
        Some(RegularMethods::EMA)
    } else if str_eq(text, "rma") {
        Some(RegularMethods::RMA)
    } else {
        None
    }
}

/// The source a name stands for.
pub open spec fn source_named(s: Seq<char>) -> Option<Source> {
    if s == "open"@ {
        Some(Source::Open)
    } else if s == "high"@ {
        Some(Source::High)
    } else if s == "low"@ {
        Some(Source::Low)
    } else if s == "close"@ {
        Some(Source::Close)
    } else if s == "hl2"@ {
        Some(Source::HL2)
    } else if s == "tp"@ {
        Some(Source::TP)
    } else if s == "ohlc4"@ {
        Some(Source::OHLC4)
    } else {
        None
    }
}

/// Reads the name of a source.
pub fn parse_source(text: &str) -> (r: Option<Source>)
    ensures
        r == source_named(text@),
{
    if str_eq(text, "open") {
        Some(Source::Open)
    } else if str_eq(text, "high") {
        Some(Source::High)
    } else if str_eq(text, "low") {
        Some(Source::Low)
    } else if str_eq(text, "close") {
        Some(Source::Close)
    } else if str_eq(text, "hl2") {
        Some(Source::HL2)
    } else if str_eq(text, "tp") {
        Some(Source::TP)
    } else if str_eq(text, "ohlc4") {
        Some(Source::OHLC4)
    } else {
        None
    }
}

} // verus!
