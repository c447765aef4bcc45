use yata::arith::floor_div;
use yata::bar::{Candle, Source};
use yata::methods::{RegularMethod, RegularMethods};
use yata::result::{analog_signal, direction_signal};
use yata::signals::{Cross, RateOfChange, ReverseSignal};
use yata::window::Window;
use yata::SCALE;

fn bar(open: i64, high: i64, low: i64, close: i64) -> Candle {
    Candle { open, high, low, close }
}

#[test]
fn window_returns_seed_until_full() {
    let mut w = Window::new(3, 0i64);
    assert_eq!(w.push(1), 0);
    assert_eq!(w.push(2), 0);
    assert_eq!(w.push(3), 0);
    assert_eq!(w.capacity(), 3);
}

#[test]
fn window_evicts_first_in_first_out() {
    let mut w = Window::new(3, 0i64);
    w.push(10);
    w.push(20);
    w.push(30);
    assert_eq!(w.push(40), 10);
    assert_eq!(w.push(50), 20);
    assert_eq!(w.get(0), 30);
    assert_eq!(w.get(2), 50);
    assert_eq!(w.capacity(), 3);
}

#[test]
fn sma_constant_settles_after_period() {
    let mut m = RegularMethod::new(RegularMethods::SMA, 3, 0);
    assert_eq!(m.next(9), 3);
    assert_eq!(m.next(9), 6);
    for _ in 0..10 {
        assert_eq!(m.next(9), 9);
    }
}

#[test]
fn sma_seeded_with_value_stays() {
    let mut m = RegularMethod::new(RegularMethods::SMA, 4, 7);
    for _ in 0..6 {
        assert_eq!(m.next(7), 7);
    }
}

#[test]
fn sma_rounds_toward_negative_infinity() {
    let mut m = RegularMethod::new(RegularMethods::SMA, 2, 0);
    assert_eq!(m.next(-1), -1);
    assert_eq!(m.next(4), 1);
}

#[test]
fn wma_weights_newest_most() {
    let mut m = RegularMethod::new(RegularMethods::WMA, 3, 0);
    m.next(6);
    m.next(12);
    // (1 * 6 + 2 * 12 + 3 * 18) / 6 = 84 / 6
    assert_eq!(m.next(18), 14);
}

#[test]
fn ema_uses_two_over_period_plus_one() {
    let mut m = RegularMethod::new(RegularMethods::EMA, 3, 0);
    // alpha = 1/2
    assert_eq!(m.next(100), 50);
    assert_eq!(m.next(100), 75);
}

#[test]
fn rma_uses_one_over_period() {
    let mut m = RegularMethod::new(RegularMethods::RMA, 4, 0);
    // alpha = 1/4
    assert_eq!(m.next(100), 25);
    assert_eq!(m.next(-100), -7);
}

#[test]
fn exponential_methods_fixed_point() {
    let mut e = RegularMethod::new(RegularMethods::EMA, 9, 123_456);
    let mut r = RegularMethod::new(RegularMethods::RMA, 9, 123_456);
    for _ in 0..20 {
        assert_eq!(e.next(123_456), 123_456);
        assert_eq!(r.next(123_456), 123_456);
    }
}

#[test]
fn cross_above_then_none() {
    let mut c = Cross::new();
    assert_eq!(c.next((1, 2)), 0);
    assert_eq!(c.next((2, 1)), 1);
    let mut d = Cross::default();
    assert_eq!(d.next((1, 2)), 0);
    assert_eq!(d.next((1, 2)), 0);
}

#[test]
fn cross_below() {
    let mut c = Cross::new();
    assert_eq!(c.next((5, 2)), 0);
    assert_eq!(c.next((1, 2)), -1);
    assert_eq!(c.next((1, 2)), 0);
}

#[test]
fn rate_of_change_zero_once_constant() {
    let p = 4;
    let mut r = RateOfChange::new(p, 0);
    let mut out = Vec::new();
    for _ in 0..10 {
        out.push(r.next(5));
    }
    for k in 0..(p as usize) {
        assert_eq!(out[k], 5);
    }
    for k in (p as usize)..10 {
        assert_eq!(out[k], 0);
    }
}

#[test]
fn rate_of_change_against_period_back() {
    let mut r = RateOfChange::new(2, 10);
    assert_eq!(r.next(11), 1);
    assert_eq!(r.next(15), 5);
    assert_eq!(r.next(20), 9);
    assert_eq!(r.next(16), 1);
}

#[test]
fn reverse_signal_confirms_peak_two_steps_late() {
    let mut s = ReverseSignal::new(2, 2, 0);
    let got: Vec<i8> = [1, 2, 5, 2, 1].iter().map(|&x| s.next(x)).collect();
    assert_eq!(got, vec![0, 0, 0, 0, -1]);
}

#[test]
fn reverse_signal_confirms_trough() {
    let mut s = ReverseSignal::new(1, 1, 10);
    assert_eq!(s.next(5), 0);
    assert_eq!(s.next(8), 1);
    assert_eq!(s.next(9), 0);
}

#[test]
fn floor_division_of_negatives() {
    assert_eq!(floor_div(-1, 3), -1);
    assert_eq!(floor_div(-3, 3), -1);
    assert_eq!(floor_div(-4, 3), -2);
    assert_eq!(floor_div(7, 2), 3);
}

#[test]
fn true_range_takes_gaps() {
    let prev = bar(10, 12, 9, 10);
    assert_eq!(bar(14, 16, 14, 15).tr(&prev), 6);
    assert_eq!(bar(5, 7, 4, 5).tr(&prev), 6);
    assert_eq!(bar(10, 11, 8, 10).tr(&prev), 3);
}

#[test]
fn sources_of_a_bar() {
    let c = bar(1, 8, 2, 5);
    assert_eq!(c.source(Source::Close), 5);
    assert_eq!(c.source(Source::Open), 1);
    assert_eq!(c.source(Source::HL2), 5);
    assert_eq!(c.source(Source::TP), 5);
    assert_eq!(c.source(Source::OHLC4), 4);
    assert_eq!(bar(0, -1, -2, 0).source(Source::HL2), -2);
}

#[test]
fn signals_are_clamped() {
    assert_eq!(direction_signal(-1), -SCALE);
    assert_eq!(analog_signal(3 * SCALE), SCALE);
    assert_eq!(analog_signal(-3 * SCALE), -SCALE);
    assert_eq!(analog_signal(SCALE / 2), SCALE / 2);
}
