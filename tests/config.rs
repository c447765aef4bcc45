use yata::average_directional_index::AverageDirectionalIndex;
use yata::bar::Source;
use yata::coppock_curve::CoppockCurve;
use yata::methods::RegularMethods;
use yata::text::{parse_fraction, parse_method, parse_period, parse_source, str_eq, ConfigError};
use yata::SCALE;

#[test]
fn periods_read_from_text() {
    assert_eq!(parse_period("14"), Some(14));
    assert_eq!(parse_period("+7"), Some(7));
    assert_eq!(parse_period("0"), Some(0));
    assert_eq!(parse_period("255"), Some(255));
    assert_eq!(parse_period("0000000000000000000000255"), Some(255));
    assert_eq!(parse_period("256"), None);
    assert_eq!(parse_period("99999999999999999999999"), None);
    assert_eq!(parse_period(""), None);
    assert_eq!(parse_period("+"), None);
    assert_eq!(parse_period("-1"), None);
    assert_eq!(parse_period("1a"), None);
}

#[test]
fn fractions_read_into_fixed_point() {
    assert_eq!(parse_fraction("0.2"), Some(SCALE / 5));
    assert_eq!(parse_fraction("1"), Some(SCALE));
    assert_eq!(parse_fraction("1."), Some(SCALE));
    assert_eq!(parse_fraction("-0.000001"), Some(-1));
    assert_eq!(parse_fraction("+2.5"), Some(5 * SCALE / 2));
    assert_eq!(parse_fraction("0.1234567"), None);
    assert_eq!(parse_fraction(".5"), None);
    assert_eq!(parse_fraction("1.2.3"), None);
    assert_eq!(parse_fraction("x"), None);
    assert_eq!(parse_fraction(""), None);
}

#[test]
fn names_read_from_text() {
    assert!(str_eq("abc", "abc"));
    assert!(!str_eq("abc", "abd"));
    assert!(!str_eq("ab", "abc"));
    assert_eq!(parse_method("ema"), Some(RegularMethods::EMA));
    assert_eq!(parse_method("wma"), Some(RegularMethods::WMA));
    assert_eq!(parse_method("xma"), None);
    assert_eq!(parse_source("hl2"), Some(Source::HL2));
    assert_eq!(parse_source("close"), Some(Source::Close));
    assert_eq!(parse_source("volume"), None);
}

#[test]
fn adx_set_fields() {
    let mut cfg = AverageDirectionalIndex::default();
    assert_eq!(cfg.set("di_length", "20".to_string()), Ok(()));
    assert_eq!(cfg.di_length, 20);
    assert_eq!(cfg.set("zone", "0.35".to_string()), Ok(()));
    assert_eq!(cfg.zone, 350_000);
    assert_eq!(cfg.set("method2", "sma".to_string()), Ok(()));
    assert_eq!(cfg.method2, RegularMethods::SMA);
    assert_eq!(cfg.set("period1", "3".to_string()), Ok(()));
    assert_eq!(cfg.period1, 3);
    assert!(cfg.validate());
}

#[test]
fn adx_set_reports_and_keeps() {
    let mut cfg = AverageDirectionalIndex::default();
    let before = cfg;
    assert_eq!(cfg.set("speed", "1".to_string()), Err(ConfigError::UnknownField));
    assert_eq!(cfg.set("di_length", "abc".to_string()), Err(ConfigError::InvalidValue));
    assert_eq!(cfg.set("method1", "fast".to_string()), Err(ConfigError::InvalidValue));
    assert_eq!(cfg, before);
}

#[test]
fn coppock_set_fields() {
    let mut cfg = CoppockCurve::default();
    assert_eq!(cfg.set("source", "hl2".to_string()), Ok(()));
    assert_eq!(cfg.source, Source::HL2);
    assert_eq!(cfg.set("s2_right", "3".to_string()), Ok(()));
    assert_eq!(cfg.s2_right, 3);
    assert_eq!(cfg.set("method1", "rma".to_string()), Ok(()));
    assert_eq!(cfg.method1, RegularMethods::RMA);
    let before = cfg;
    assert_eq!(cfg.set("zone", "0.2".to_string()), Err(ConfigError::UnknownField));
    assert_eq!(cfg.set("period3", "300".to_string()), Err(ConfigError::InvalidValue));
    assert_eq!(cfg, before);
}
