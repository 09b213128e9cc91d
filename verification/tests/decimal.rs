use process_calc_core::decimal::{Decimal, FRACTION_DIGITS, MAX_INPUT_MICROS, MICROS_PER_UNIT};
use process_calc_core::CalcError;

#[test]
fn decimal_keeps_its_millionths() {
    assert_eq!(Decimal::from_micros(0).micros(), 0);
    assert_eq!(Decimal::from_micros(450_000).micros(), 450_000);
    assert_eq!(Decimal::from_micros(-1).micros(), -1);
    assert_eq!(Decimal::from_micros(i64::MAX).micros(), i64::MAX);
    assert_eq!(Decimal::from_micros(i64::MIN).micros(), i64::MIN);
    assert_eq!(MICROS_PER_UNIT, 1_000_000);
    assert_eq!(FRACTION_DIGITS, 6);
}

#[test]
fn decimal_orders_by_value() {
    assert!(Decimal::from_micros(1) > Decimal::from_micros(0));
    assert!(Decimal::from_micros(-1) < Decimal::from_micros(0));
    assert_eq!(Decimal::from_micros(5), Decimal::from_micros(5));
    assert_ne!(Decimal::from_micros(5), Decimal::from_micros(-5));
}

#[test]
fn decimal_tells_its_sign() {
    assert!(Decimal::from_micros(-1).is_negative());
    assert!(!Decimal::from_micros(0).is_negative());
    assert!(!Decimal::from_micros(1).is_negative());
}

#[test]
fn decimal_tells_whether_it_is_a_measurement() {
    assert!(Decimal::from_micros(0).is_in_range());
    assert!(Decimal::from_micros(MAX_INPUT_MICROS).is_in_range());
    assert!(Decimal::from_micros(-MAX_INPUT_MICROS).is_in_range());
    assert!(!Decimal::from_micros(MAX_INPUT_MICROS + 1).is_in_range());
    assert!(!Decimal::from_micros(i64::MAX).is_in_range());
    assert!(Decimal::from_micros(-MAX_INPUT_MICROS - 1).is_in_range());
    assert!(Decimal::from_micros(i64::MIN).is_in_range());
}

#[test]
fn decimal_text_is_plain_and_short() {
    assert_eq!(Decimal::from_micros(0).to_text(), "0");
    assert_eq!(Decimal::from_micros(3_000_000).to_text(), "3");
    assert_eq!(Decimal::from_micros(500_000).to_text(), "0.5");
    assert_eq!(Decimal::from_micros(50_000).to_text(), "0.05");
    assert_eq!(Decimal::from_micros(1).to_text(), "0.000001");
    assert_eq!(Decimal::from_micros(-1).to_text(), "-0.000001");
    assert_eq!(Decimal::from_micros(123_456).to_text(), "0.123456");
    assert_eq!(Decimal::from_micros(100_100).to_text(), "0.1001");
    assert_eq!(Decimal::from_micros(1_234_567_890).to_text(), "1234.56789");
    assert_eq!(Decimal::from_micros(-2_500_000).to_text(), "-2.5");
    assert_eq!(Decimal::from_micros(10_000_000).to_text(), "10");
    assert_eq!(Decimal::from_micros(1_000_000_000_000).to_text(), "1000000");
    assert_eq!(
        Decimal::from_micros(i64::MAX).to_text(),
        "9223372036854.775807"
    );
    assert_eq!(
        Decimal::from_micros(i64::MIN).to_text(),
        "-9223372036854.775808"
    );
}

#[test]
fn error_texts() {
    assert_eq!(
        CalcError::MissingField("n".to_string()).message(),
        "缺少必要参数: n"
    );
    assert_eq!(
        CalcError::NegativeValue("paper_h".to_string()).message(),
        "数值必须大于等于0: paper_h"
    );
    assert_eq!(CalcError::InvalidN.message(), "导线根数 n 必须 >= 1");
    assert_eq!(CalcError::DivisionByZero.message(), "分母为零");
}
