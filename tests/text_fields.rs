use receipt_calculator::calculations::{convert_to_i64, validate_f64, validate_i64};
use receipt_calculator::amount::{parse_amount, validate_amount};
use receipt_calculator::validator::{validate, Input, Message, Numeric};

#[test]
fn integers_are_validated_and_converted() {
    assert!(validate_i64("42"));
    assert!(validate_i64("-17"));
    assert!(validate_i64("+8"));
    assert!(validate_i64("9223372036854775807"));
    assert!(!validate_i64("9223372036854775808"));
    assert!(!validate_i64(""));
    assert!(!validate_i64("-"));
    assert!(!validate_i64(" 4"));
    assert!(!validate_i64("4.0"));
    assert_eq!(convert_to_i64("-17"), -17);
    assert_eq!(convert_to_i64("-9223372036854775808"), i64::MIN);
    assert_eq!(convert_to_i64("abc"), 0);
}

#[test]
fn float_text_is_recognised() {
    for ok in ["1", "1.", ".5", "-0.25", "+3.5e2", "1E-3", "inf", "-Infinity", "NaN", "007"] {
        assert!(validate_f64(ok), "{ok}");
        assert!(ok.parse::<f64>().is_ok(), "{ok}");
    }
    for bad in ["", ".", "e3", "1e", "1.2.3", "- 1", "1,5", "infinit", "0x10", " 1"] {
        assert!(!validate_f64(bad), "{bad}");
        assert!(bad.parse::<f64>().is_err(), "{bad}");
    }
}

#[test]
fn amounts_are_read_in_millionths() {
    assert_eq!(parse_amount("19.99"), Some(19_990_000));
    assert_eq!(parse_amount("0.0775"), Some(77_500));
    assert_eq!(parse_amount("-.5"), Some(-500_000));
    assert_eq!(parse_amount("+3"), Some(3_000_000));
    assert_eq!(parse_amount("7."), Some(7_000_000));
    assert_eq!(parse_amount("0.000001"), Some(1));
    assert_eq!(parse_amount("0.0000001"), None);
    assert_eq!(parse_amount("1e3"), Some(1_000_000_000));
    assert_eq!(parse_amount("-1E1"), Some(-10_000_000));
    assert_eq!(parse_amount("1e-6"), Some(1));
    assert_eq!(parse_amount("100e-8"), Some(1));
    assert_eq!(parse_amount("2.5E-6"), None);
    assert_eq!(parse_amount("1.0000000"), Some(1_000_000));
    assert_eq!(parse_amount("1000000000000000000000000000000e-30"), Some(1_000_000));
    assert_eq!(parse_amount("0e99999999999999999999999"), Some(0));
    assert_eq!(parse_amount("1e99999999999999999999999"), None);
    assert_eq!(parse_amount("1e-99999999999999999999999"), None);
    assert_eq!(parse_amount("9.223372036854775807e12"), Some(i64::MAX));
    assert_eq!(parse_amount("1e"), None);
    assert_eq!(parse_amount("1e+"), None);
    assert_eq!(parse_amount("e3"), None);
    assert_eq!(parse_amount("inf"), None);
    assert_eq!(parse_amount("NaN"), None);
    assert_eq!(parse_amount(""), None);
    assert_eq!(parse_amount("."), None);
    assert_eq!(parse_amount("9223372036854.775807"), Some(i64::MAX));
    assert_eq!(parse_amount("-9223372036854.775808"), Some(i64::MIN));
    assert_eq!(parse_amount("9223372036854.775808"), None);
    assert_eq!(parse_amount("123456789012345678901234567890"), None);
}

#[test]
fn validate_runs_the_check() {
    assert!(validate("12", validate_i64));
    assert!(!validate("x", |s: &str| s.len() > 3));
}

#[test]
fn input_fields() {
    let field = Input::new("Price");
    assert_eq!(field.placeholder, "Price");
    assert!(field.is_valid);
    assert_eq!(field.value, "");

    let mut f = Input::default();
    f.apply(Message::RawInput("12a".to_string()), Numeric::Integer, true);
    assert_eq!(f.value, "");
    assert!(f.is_valid);
    assert_eq!(f.placeholder, "Numbers Only");
    f.apply(Message::RawInput("12".to_string()), Numeric::Integer, true);
    assert_eq!(f.value, "12");
    assert_eq!(f.placeholder, "");
    f.apply(Message::RawSubmit("1.5".to_string()), Numeric::Integer, true);
    assert_eq!(f.value, "1.5");
    assert!(!f.is_valid);

    let mut kept = Input::new("Id");
    kept.apply(Message::RawInput("x".to_string()), Numeric::Amount, false);
    assert_eq!(kept.value, "x");
    assert!(!kept.is_valid);
    assert_eq!(kept.placeholder, "Id");
}

#[test]
fn amount_fields_accept_exactly_the_amounts() {
    assert!(validate_amount("1e3"));
    assert!(validate_amount("0.0775"));
    assert!(!validate_amount("inf"));
    assert!(!validate_amount("0.0000001"));
    let mut f = Input::default();
    f.apply(Message::RawInput("inf".to_string()), Numeric::Amount, true);
    assert_eq!(f.value, "");
    assert_eq!(f.placeholder, "Numbers Only");
    f.apply(Message::RawInput("2.5e1".to_string()), Numeric::Amount, true);
    assert_eq!(f.value, "2.5e1");
    assert!(f.is_valid);
}
