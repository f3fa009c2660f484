use std::time::Duration;

use provider_retry::json::JsonValue;
use provider_retry::message::MessageErrorKind;
use provider_retry::policy::{
    classify_error, config_value_as_string, load_policy, parse_interval_seconds, parse_retries,
    RetryDecision, RetryLimit, DEFAULT_MAX_RETRIES, DEFAULT_RETRY_INTERVAL_SECONDS,
    GOOSE_PROVIDER_ERROR_RETRIES, GOOSE_PROVIDER_RETRY_INTERVAL_SECONDS,
    PROVIDER_RETRY_ATTEMPTS_META,
};

fn text(s: &str) -> Option<JsonValue> {
    Some(JsonValue::Text(s.to_string()))
}

#[test]
fn parse_retries_accepts_negative_one_as_infinite() {
    assert_eq!(parse_retries("-1"), RetryLimit::Infinite);
}

#[test]
fn parse_retries_accepts_infinite_keyword() {
    assert_eq!(parse_retries("infinite"), RetryLimit::Infinite);
    assert_eq!(parse_retries("Infinite"), RetryLimit::Infinite);
    assert_eq!(parse_retries(" INFINITE "), RetryLimit::Infinite);
}

#[test]
fn parse_retries_accepts_non_negative_integers() {
    assert_eq!(parse_retries("0"), RetryLimit::Finite(0));
    assert_eq!(parse_retries("5"), RetryLimit::Finite(5));
    assert_eq!(parse_retries(" 7 "), RetryLimit::Finite(7));
}

#[test]
fn parse_retries_falls_back_to_default_on_invalid_input() {
    assert_eq!(
        parse_retries("abc"),
        RetryLimit::Finite(DEFAULT_MAX_RETRIES)
    );
    assert_eq!(parse_retries(""), RetryLimit::Finite(DEFAULT_MAX_RETRIES));
    assert_eq!(parse_retries("-2"), RetryLimit::Finite(DEFAULT_MAX_RETRIES));
    assert_eq!(
        parse_retries("1.5"),
        RetryLimit::Finite(DEFAULT_MAX_RETRIES)
    );
}

#[test]
fn parse_interval_seconds_accepts_non_negative_integers() {
    assert_eq!(parse_interval_seconds("0"), Some(0));
    assert_eq!(parse_interval_seconds("30"), Some(30));
    assert_eq!(parse_interval_seconds(" 9 "), Some(9));
}

#[test]
fn parse_interval_seconds_rejects_invalid_input() {
    assert_eq!(parse_interval_seconds("abc"), None);
    assert_eq!(parse_interval_seconds(""), None);
    assert_eq!(parse_interval_seconds("-1"), None);
    assert_eq!(parse_interval_seconds("1.5"), None);
}

#[test]
fn classify_error_retries_other_errors() {
    assert_eq!(
        classify_error(MessageErrorKind::Other),
        RetryDecision::Retry
    );
}

#[test]
fn classify_error_treats_terminal_kinds_as_terminal() {
    assert_eq!(
        classify_error(MessageErrorKind::Authentication),
        RetryDecision::Terminal
    );
    assert_eq!(
        classify_error(MessageErrorKind::ContextLengthExceeded),
        RetryDecision::Terminal
    );
    assert_eq!(
        classify_error(MessageErrorKind::CreditsExhausted),
        RetryDecision::Terminal
    );
}

#[test]
fn load_policy_defaults_when_nothing_is_set() {
    let policy = load_policy(None, None);

    assert_eq!(policy.max_retries, RetryLimit::Finite(DEFAULT_MAX_RETRIES));
    assert_eq!(
        policy.interval,
        Duration::from_secs(DEFAULT_RETRY_INTERVAL_SECONDS)
    );
}

#[test]
fn load_policy_reads_env_values() {
    // Environment values that look like numbers are read as JSON numbers.
    let policy = load_policy(Some(JsonValue::Signed(-1)), Some(JsonValue::Unsigned(17)));

    assert_eq!(policy.max_retries, RetryLimit::Infinite);
    assert_eq!(policy.interval, Duration::from_secs(17));

    let policy = load_policy(text("-1"), text("17"));

    assert_eq!(policy.max_retries, RetryLimit::Infinite);
    assert_eq!(policy.interval, Duration::from_secs(17));
}

#[test]
fn load_policy_falls_back_to_defaults_on_invalid_env_values() {
    let policy = load_policy(text("not-a-number"), text("soon"));

    assert_eq!(policy.max_retries, RetryLimit::Finite(DEFAULT_MAX_RETRIES));
    assert_eq!(
        policy.interval,
        Duration::from_secs(DEFAULT_RETRY_INTERVAL_SECONDS)
    );
}

#[test]
fn provider_retry_attempts_meta_key_matches_convention() {
    assert_eq!(PROVIDER_RETRY_ATTEMPTS_META, "provider_retry_attempts");
}

#[test]
fn configuration_keys_and_defaults() {
    assert_eq!(GOOSE_PROVIDER_ERROR_RETRIES, "GOOSE_PROVIDER_ERROR_RETRIES");
    assert_eq!(
        GOOSE_PROVIDER_RETRY_INTERVAL_SECONDS,
        "GOOSE_PROVIDER_RETRY_INTERVAL_SECONDS"
    );
    assert_eq!(DEFAULT_MAX_RETRIES, 3);
    assert_eq!(DEFAULT_RETRY_INTERVAL_SECONDS, 5);
}

#[test]
fn the_word_infinite_is_matched_whole_and_in_ascii() {
    for raw in ["infinit", "infinitee", "in finite", "\u{131}nfinite", "inf"] {
        assert_eq!(parse_retries(raw), RetryLimit::Finite(3), "{raw}");
    }
    assert_eq!(parse_retries("iNfInItE"), RetryLimit::Infinite);
}

#[test]
fn signs_and_leading_zeros_are_part_of_a_number() {
    assert_eq!(parse_retries("+8"), RetryLimit::Finite(8));
    assert_eq!(parse_retries("008"), RetryLimit::Finite(8));
    assert_eq!(parse_retries("-01"), RetryLimit::Infinite);
    assert_eq!(parse_retries("-0"), RetryLimit::Finite(0));
    for raw in ["+", "-", "+-1", "-+1", "--1", "1_000", "0x10", "\u{661}"] {
        assert_eq!(parse_retries(raw), RetryLimit::Finite(3), "{raw}");
        assert_eq!(parse_interval_seconds(raw), None, "{raw}");
    }
    assert_eq!(parse_interval_seconds("+8"), Some(8));
    assert_eq!(parse_interval_seconds("-0"), None);
}

#[test]
fn large_limits_stop_at_the_largest() {
    assert_eq!(parse_retries("4294967294"), RetryLimit::Finite(4294967294));
    for raw in [
        "4294967295",
        "4294967296",
        "4294967301",
        "9223372036854775807",
        "9223372036854775808",
        "+18446744073709551616",
        " 99999999999999999999999999999999999999999999 ",
    ] {
        assert_eq!(parse_retries(raw), RetryLimit::Finite(u32::MAX), "{raw}");
    }
    for raw in [
        "-9223372036854775808",
        "-9223372036854775809",
        "99999999999999999999x",
        "9999999999 9999999999",
        "9999999999+9999999999",
        "++99999999999999999999",
        "9999999999999999999\u{669}",
    ] {
        assert_eq!(parse_retries(raw), RetryLimit::Finite(3), "{raw}");
    }
}

#[test]
fn larger_numbers_allow_no_fewer_retries() {
    let numerals = [
        "0",
        "1",
        "0002",
        "+4294967294",
        "4294967295",
        "4294967296",
        "8589934592",
        "9223372036854775807",
        "9223372036854775808",
        "100000000000000000000000000000000000000000",
    ];
    let mut most = 0;
    for raw in numerals {
        match parse_retries(raw) {
            RetryLimit::Finite(limit) => {
                assert!(most <= limit, "{raw}");
                most = limit;
            }
            RetryLimit::Infinite => panic!("{raw}"),
        }
    }
    assert_eq!(most, u32::MAX);
}

#[test]
fn intervals_fill_a_u64() {
    assert_eq!(
        parse_interval_seconds("18446744073709551615"),
        Some(u64::MAX)
    );
    assert_eq!(parse_interval_seconds("18446744073709551616"), None);
}

#[test]
fn exactly_the_unicode_white_space_is_trimmed() {
    let white_space = |c: char| {
        matches!(
            c as u32,
            0x09..=0x0d
                | 0x20
                | 0x85
                | 0xa0
                | 0x1680
                | 0x2000..=0x200a
                | 0x2028
                | 0x2029
                | 0x202f
                | 0x205f
                | 0x3000
        )
    };
    for c in '\0'..=char::MAX {
        let parsed = parse_interval_seconds(&format!("{c}7{c}"));
        if white_space(c) {
            assert_eq!(parsed, Some(7), "{c:?}");
        } else if !c.is_ascii_digit() {
            assert_eq!(parsed, None, "{c:?}");
        }
    }
}

#[test]
fn surrounding_space_is_ignored() {
    for raw in ["-1", "infinite", "12", "abc", "", "1 2"] {
        let padded = format!("\t \u{3000}{raw}\n\u{2003} ");
        assert_eq!(parse_retries(&padded), parse_retries(raw));
        assert_eq!(parse_interval_seconds(&padded), parse_interval_seconds(raw));
    }
    assert_eq!(parse_retries("1 2"), RetryLimit::Finite(3));
}

#[test]
fn config_values_as_strings() {
    assert_eq!(config_value_as_string(text(" a b ")), Some(" a b ".to_string()));
    assert_eq!(
        config_value_as_string(Some(JsonValue::Unsigned(u64::MAX))),
        Some("18446744073709551615".to_string())
    );
    assert_eq!(
        config_value_as_string(Some(JsonValue::Signed(i64::MIN))),
        Some("-9223372036854775808".to_string())
    );
    assert_eq!(
        config_value_as_string(Some(JsonValue::Signed(0))),
        Some("0".to_string())
    );
    assert_eq!(
        config_value_as_string(Some(JsonValue::Fraction("1.5".to_string()))),
        Some("1.5".to_string())
    );
    assert_eq!(config_value_as_string(Some(JsonValue::Other)), None);
    assert_eq!(config_value_as_string(None), None);
}

#[test]
fn configured_integers() {
    let limit = |value: JsonValue| load_policy(Some(value), None).max_retries;
    let interval = |value: JsonValue| load_policy(None, Some(value)).interval;

    assert_eq!(limit(JsonValue::Unsigned(12)), RetryLimit::Finite(12));
    assert_eq!(limit(JsonValue::Signed(12)), RetryLimit::Finite(12));
    assert_eq!(limit(JsonValue::Signed(-1)), RetryLimit::Infinite);
    assert_eq!(limit(JsonValue::Signed(-5)), RetryLimit::Finite(3));
    assert_eq!(
        limit(JsonValue::Unsigned(u64::MAX)),
        RetryLimit::Finite(u32::MAX)
    );
    assert_eq!(
        limit(JsonValue::Unsigned(4294967296)),
        RetryLimit::Finite(u32::MAX)
    );
    assert_eq!(
        interval(JsonValue::Unsigned(u64::MAX)),
        Duration::from_secs(u64::MAX)
    );
    assert_eq!(interval(JsonValue::Unsigned(0)), Duration::ZERO);
    assert_eq!(interval(JsonValue::Signed(-1)), Duration::from_secs(5));
}

#[test]
fn values_that_are_no_integers_mean_the_defaults() {
    for value in [
        JsonValue::Other,
        JsonValue::Fraction("2.5".to_string()),
        JsonValue::Text("none".to_string()),
    ] {
        let policy = load_policy(Some(value.clone()), Some(value));
        assert_eq!(policy.max_retries, RetryLimit::Finite(3));
        assert_eq!(policy.interval, Duration::from_secs(5));
    }
}

#[test]
fn letter_case_is_ignored() {
    for raw in ["infinite", "abc", "-1", "1e3", "Infinite\u{e9}"] {
        let limit = parse_retries(raw);
        assert_eq!(parse_retries(&raw.to_ascii_uppercase()), limit);
        assert_eq!(parse_retries(&raw.to_ascii_lowercase()), limit);
    }
}

#[test]
fn integers_are_limits() {
    for (raw, limit) in [
        ("-1", RetryLimit::Infinite),
        ("-3", RetryLimit::Finite(3)),
        ("1", RetryLimit::Finite(1)),
        ("\t+42\n", RetryLimit::Finite(42)),
        ("99999999999999999999", RetryLimit::Finite(u32::MAX)),
    ] {
        assert_eq!(parse_retries(raw), limit, "{raw}");
    }
}
