use yata::average_directional_index::AverageDirectionalIndex;
use yata::bar::Candle;
use yata::coppock_curve::CoppockCurve;
use yata::methods::RegularMethods;
use yata::SCALE;

fn rising(i: i64) -> Candle {
    let base = 100 * SCALE + i * SCALE;
    Candle { open: base, high: base + SCALE / 2, low: base - SCALE / 2, close: base + SCALE / 4 }
}

#[test]
fn adx_default_is_valid_and_sized() {
    let cfg = AverageDirectionalIndex::default();
    assert!(cfg.validate());
    assert_eq!(cfg.size(), (3, 2));
    assert_eq!(cfg.zone, SCALE / 5);
    let mut inst = cfg.init(rising(0));
    let r = inst.next(rising(1));
    assert_eq!(r.size(), cfg.size());
    assert_eq!(inst.config().di_length, 14);
}

#[test]
fn adx_rejects_period_not_below_lengths() {
    let mut cfg = AverageDirectionalIndex::default();
    cfg.period1 = 20;
    assert!(!cfg.validate());
    let mut cfg = AverageDirectionalIndex::default();
    cfg.period1 = 14;
    assert!(!cfg.validate());
    let mut cfg = AverageDirectionalIndex::default();
    cfg.zone = 2 * SCALE;
    assert!(!cfg.validate());
}

#[test]
fn adx_rising_bars_favor_plus() {
    let cfg = AverageDirectionalIndex {
        method1: RegularMethods::EMA,
        di_length: 5,
        method2: RegularMethods::SMA,
        adx_smoothing: 4,
        period1: 2,
        zone: SCALE / 10,
    };
    assert!(cfg.validate());
    let mut inst = cfg.init(rising(0));
    for i in 1..40 {
        let r = inst.next(rising(i));
        assert_eq!(r.size(), (3, 2));
        let plus = r.value(1);
        let minus = r.value(2);
        assert_eq!(minus, 0);
        assert!(plus > 0);
        assert!(r.signal(1) > 0);
        assert!(r.signal(0) >= 0);
        for k in 0..2 {
            assert!(r.signal(k) >= -SCALE && r.signal(k) <= SCALE);
        }
        assert!(r.value(0) >= 0 && r.value(0) <= SCALE);
    }
    let r = inst.next(rising(40));
    assert_eq!(r.signal(0), SCALE);
    assert_eq!(r.value(0), SCALE);
}

#[test]
fn adx_flat_bars_give_zero() {
    let cfg = AverageDirectionalIndex::default();
    let c = Candle { open: 5, high: 5, low: 5, close: 5 };
    let mut inst = cfg.init(c);
    let r = inst.next(c);
    assert_eq!(r.value(0), 0);
    assert_eq!(r.value(1), 0);
    assert_eq!(r.value(2), 0);
    assert_eq!(r.signal(0), 0);
    assert_eq!(r.signal(1), 0);
}

#[test]
fn coppock_default_sized() {
    let cfg = CoppockCurve::default();
    assert!(cfg.validate());
    assert_eq!(cfg.size(), (2, 3));
    let mut inst = cfg.init(rising(0));
    for i in 1..30 {
        let r = inst.next(rising(i));
        assert_eq!(r.size(), (2, 3));
        for k in 0..3 {
            assert!(r.signal(k) >= -SCALE && r.signal(k) <= SCALE);
        }
    }
    assert_eq!(inst.config().s2_left, 4);
}

#[test]
fn coppock_constant_price_stays_zero() {
    let cfg = CoppockCurve { method1: RegularMethods::SMA, method2: RegularMethods::SMA, ..CoppockCurve::default() };
    let c = Candle { open: 7, high: 9, low: 5, close: 7 };
    let mut inst = cfg.init(c);
    for _ in 0..20 {
        let r = inst.next(c);
        assert_eq!(r.value(0), 0);
        assert_eq!(r.value(1), 0);
        assert_eq!(r.signal(0), 0);
        assert_eq!(r.signal(2), 0);
    }
}

#[test]
fn coppock_cross_of_zero() {
    let cfg = CoppockCurve {
        period1: 1,
        period2: 1,
        period3: 1,
        s2_left: 1,
        s2_right: 1,
        s3_period: 1,
        method1: RegularMethods::SMA,
        method2: RegularMethods::SMA,
        ..CoppockCurve::default()
    };
    let at = |p: i64| Candle { open: p, high: p, low: p, close: p };
    let mut inst = cfg.init(at(10));
    let r = inst.next(at(8));
    assert_eq!(r.value(0), -4);
    assert_eq!(r.signal(0), 0);
    let r = inst.next(at(12));
    assert_eq!(r.value(0), 8);
    assert_eq!(r.signal(0), SCALE);
    assert_eq!(r.signal(1), SCALE);
}

#[test]
fn coppock_rejects_zero_period() {
    let mut cfg = CoppockCurve::default();
    cfg.period2 = 0;
    assert!(!cfg.validate());
}
