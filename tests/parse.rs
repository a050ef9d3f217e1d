use runcher::parse::{parse_bool_default, parse_int_default};
use runcher::settings::{SettingValue, Settings};

#[test]
fn bool_defaults() {
    assert!(parse_bool_default("true"));
    assert!(!parse_bool_default("false"));
    assert!(!parse_bool_default("True"));
    assert!(!parse_bool_default(""));
    assert!(!parse_bool_default("yes"));
}

#[test]
fn int_defaults() {
    assert_eq!(parse_int_default("42"), 42);
    assert_eq!(parse_int_default("+7"), 7);
    assert_eq!(parse_int_default("-15"), -15);
    assert_eq!(parse_int_default("2147483647"), 2147483647);
    assert_eq!(parse_int_default("-2147483648"), -2147483648);
    assert_eq!(parse_int_default("2147483648"), 0);
    assert_eq!(parse_int_default("99999999999999999999"), 0);
    assert_eq!(parse_int_default(""), 0);
    assert_eq!(parse_int_default("-"), 0);
    assert_eq!(parse_int_default("1.5"), 0);
    assert_eq!(parse_int_default("12a"), 0);
}

#[test]
fn settings_store_replaces_values() {
    let mut settings = Settings::new();
    let k = "a".to_string();
    assert!(settings.get(&k).is_none());
    settings.set(&k, SettingValue::Int(1));
    settings.set(&"b".to_string(), SettingValue::Bool(true));
    settings.set(&k, SettingValue::Int(2));
    assert!(matches!(settings.get(&k), Some(SettingValue::Int(2))));
    assert!(matches!(settings.get(&"b".to_string()), Some(SettingValue::Bool(true))));
}
