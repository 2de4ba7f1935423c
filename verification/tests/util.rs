use tui_common::util::{decimal_string, eq_ignore_ascii_case, parse_bool, temp_suffix};

#[test]
fn parse_bool_accepts_canonical_forms() {
    for s in ["true", "1", "yes", "on", "ON", "Yes", "TRUE"] {
        assert_eq!(parse_bool(s), Some(true), "expected true for {s:?}");
    }
    for s in ["false", "0", "no", "off", "OFF", "No"] {
        assert_eq!(parse_bool(s), Some(false), "expected false for {s:?}");
    }
    for s in ["", "maybe", "2", "trueish"] {
        assert_eq!(parse_bool(s), None, "expected None for {s:?}");
    }
}

#[test]
fn parse_bool_ignores_case_and_rejects_padding() {
    assert_eq!(parse_bool("tRuE"), Some(true));
    assert_eq!(parse_bool("oFf"), Some(false));
    assert_eq!(parse_bool(" true"), None);
    assert_eq!(parse_bool("yes "), None);
    assert_eq!(parse_bool("ＯＮ"), None);
}

#[test]
fn eq_ignore_ascii_case_only_folds_ascii() {
    assert!(eq_ignore_ascii_case("AuTo", "auto"));
    assert!(!eq_ignore_ascii_case("auto", "aut"));
    assert!(eq_ignore_ascii_case("É", "É"));
    assert!(!eq_ignore_ascii_case("É", "é"));
}

#[test]
fn decimal_string_renders_numbers() {
    assert_eq!(decimal_string(0), "0");
    assert_eq!(decimal_string(7), "7");
    assert_eq!(decimal_string(10), "10");
    assert_eq!(decimal_string(1234567890), "1234567890");
    assert_eq!(decimal_string(u128::MAX), u128::MAX.to_string());
}

#[test]
fn temp_suffix_names_pid_and_nanos() {
    assert_eq!(temp_suffix(42, 1700000000123456789), ".tmp.42.1700000000123456789");
    assert_eq!(temp_suffix(0, 0), ".tmp.0.0");
    // Distinct (pid, nanos) pairs never share a temporary name.
    assert_ne!(temp_suffix(1, 23), temp_suffix(12, 3));
    let mut seen = std::collections::HashSet::new();
    for pid in 0..20u32 {
        for nanos in 0..20u128 {
            assert!(seen.insert(temp_suffix(pid, nanos)), "temp name collided");
        }
    }
}
