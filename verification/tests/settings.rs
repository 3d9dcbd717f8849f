use lambda_chaos_extension::settings::{
    bool_from_lowercase, fault_enabled, latency_seconds, parse_u64, str_to_bool,
    DEFAULT_LATENCY_SECS,
};

#[test]
fn str_to_bool_reads_true_and_false_in_any_case() {
    assert!(str_to_bool("true", false));
    assert!(str_to_bool("TRUE", false));
    assert!(str_to_bool("True", false));
    assert!(!str_to_bool("false", true));
    assert!(!str_to_bool("FaLsE", true));
}

#[test]
fn str_to_bool_falls_back_to_default() {
    assert!(str_to_bool("yes", true));
    assert!(!str_to_bool("yes", false));
    assert!(!str_to_bool("", false));
    assert!(str_to_bool(" true", true));
    assert!(!str_to_bool("true ", false));
}

#[test]
fn str_to_bool_default_does_not_change_recognised_words() {
    assert_eq!(str_to_bool("TRUE", false), str_to_bool("TRUE", true));
    assert_eq!(str_to_bool("false", false), str_to_bool("false", true));
}

#[test]
fn bool_from_lowercase_is_exact() {
    assert!(bool_from_lowercase("true", false));
    assert!(!bool_from_lowercase("false", true));
    assert!(bool_from_lowercase("TRUE", true));
    assert!(!bool_from_lowercase("TRUE", false));
}

#[test]
fn parse_u64_reads_digits() {
    assert_eq!(parse_u64("0"), Some(0));
    assert_eq!(parse_u64("2"), Some(2));
    assert_eq!(parse_u64("900"), Some(900));
    assert_eq!(parse_u64("+7"), Some(7));
    assert_eq!(parse_u64("007"), Some(7));
    assert_eq!(parse_u64("18446744073709551615"), Some(u64::MAX));
}

#[test]
fn parse_u64_refuses_what_std_refuses() {
    for s in ["", "+", "-", "-1", "+-1", "1.5", " 1", "1 ", "12a", "0x10", "18446744073709551616", "99999999999999999999999"] {
        assert_eq!(parse_u64(s), None, "input {:?}", s);
        assert_eq!(parse_u64(s), s.parse::<u64>().ok(), "input {:?}", s);
    }
    for s in ["0", "42", "+42", "0000", "18446744073709551615"] {
        assert_eq!(parse_u64(s), s.parse::<u64>().ok(), "input {:?}", s);
    }
}

#[test]
fn fault_enabled_defaults_to_off() {
    assert!(!fault_enabled(None));
    assert!(!fault_enabled(Some("maybe")));
    assert!(!fault_enabled(Some("false")));
    assert!(fault_enabled(Some("true")));
    assert!(fault_enabled(Some("True")));
}

#[test]
fn latency_seconds_defaults_to_fifteen_minutes() {
    assert_eq!(DEFAULT_LATENCY_SECS, 900);
    assert_eq!(latency_seconds(None), 900);
    assert_eq!(latency_seconds(Some("abc")), 900);
    assert_eq!(latency_seconds(Some("-3")), 900);
    assert_eq!(latency_seconds(Some("2")), 2);
    assert_eq!(latency_seconds(Some("0")), 0);
}
