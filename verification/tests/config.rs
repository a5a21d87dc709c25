use cloudflare_ddns::config::{
    aws_ip, load_env_vars, parse_delay, parse_unique, ConfigError, EnvVars, DEFAULT_DELAY,
};
use cloudflare_ddns::text::{parse_u64, split_trimmed, trim};

#[test]
fn delay_defaults_to_300_seconds() {
    assert_eq!(DEFAULT_DELAY, 300);
    assert_eq!(parse_delay(None), Some(300));
    let settings = load_env_vars(Some("example.com"), Some("key"), None, None).unwrap();
    assert_eq!(settings.delay, 300);
}

#[test]
fn delay_is_read_as_seconds() {
    assert_eq!(parse_delay(Some("60")), Some(60));
    assert_eq!(parse_delay(Some("0")), Some(0));
    assert_eq!(parse_delay(Some("+15")), Some(15));
}

#[test]
fn malformed_delay_gives_no_settings() {
    assert_eq!(parse_delay(Some("soon")), None);
    assert_eq!(parse_delay(Some("")), None);
    assert_eq!(parse_delay(Some("-5")), None);
    assert_eq!(parse_delay(Some(" 300")), None);
    assert_eq!(parse_delay(Some("1.5")), None);
    assert_eq!(
        load_env_vars(Some("example.com"), Some("key"), Some("soon"), None),
        Err(ConfigError::MalformedDelay)
    );
}

#[test]
fn missing_zones_give_no_settings() {
    assert_eq!(load_env_vars(None, Some("key"), None, None), Err(ConfigError::MissingZones));
    assert_eq!(load_env_vars(None, None, Some("soon"), None), Err(ConfigError::MissingZones));
}

#[test]
fn missing_key_gives_no_settings() {
    assert_eq!(
        load_env_vars(Some("example.com"), None, None, None),
        Err(ConfigError::MissingApiKey)
    );
    assert_eq!(
        load_env_vars(Some("example.com"), None, Some("soon"), None),
        Err(ConfigError::MissingApiKey)
    );
}

#[test]
fn settings_are_read_from_all_four_variables() {
    assert_eq!(
        load_env_vars(Some("example.com, other.org"), Some("secret"), Some("45"), Some("yes")),
        Ok(EnvVars {
            api_key: "secret".to_string(),
            zones_of_interest: vec!["example.com".to_string(), "other.org".to_string()],
            delay: 45,
            unique: true,
        })
    );
}

#[test]
fn unique_mode_needs_exactly_yes() {
    assert!(parse_unique(Some("yes")));
    assert!(!parse_unique(Some("Yes")));
    assert!(!parse_unique(Some("yes ")));
    assert!(!parse_unique(Some("no")));
    assert!(!parse_unique(Some("")));
    assert!(!parse_unique(None));
}

#[test]
fn reported_address_is_trimmed() {
    assert_eq!(aws_ip(Some("1.2.3.4\n")), Some("1.2.3.4".to_string()));
    assert_eq!(aws_ip(Some("  1.2.3.4 \r\n")), Some("1.2.3.4".to_string()));
    assert_eq!(aws_ip(Some("")), Some(String::new()));
    assert_eq!(aws_ip(None), None);
}

#[test]
fn trim_takes_whitespace_from_both_ends_only() {
    assert_eq!(trim("  a b  "), "a b");
    assert_eq!(trim("\t\n x"), "x");
    assert_eq!(trim("x"), "x");
    assert_eq!(trim(""), "");
    assert_eq!(trim(" \n\t "), "");
    assert_eq!(trim("\u{a0}\u{2003}é\u{3000}"), "é");
    assert_eq!(trim("_a_"), "_a_");
}

#[test]
fn trim_agrees_with_the_standard_library() {
    let samples = [
        "", " ", "a", " a", "a ", "\u{85}a\u{85}", "\u{200b}a", "\u{1680}b c\u{2028}\u{2029}",
        "\u{feff}x ", "日本 語\u{205f}",
    ];
    for sample in samples {
        assert_eq!(trim(sample), sample.trim());
    }
}

#[test]
fn split_cuts_at_every_separator() {
    assert_eq!(split_trimmed("a,b,c", ','), vec!["a", "b", "c"]);
    assert_eq!(split_trimmed(" a , b c ,d ", ','), vec!["a", "b c", "d"]);
    assert_eq!(split_trimmed("single", ','), vec!["single"]);
    assert_eq!(split_trimmed("", ','), vec![""]);
    assert_eq!(split_trimmed(",", ','), vec!["", ""]);
    assert_eq!(split_trimmed("a,,b,", ','), vec!["a", "", "b", ""]);
}

#[test]
fn split_agrees_with_the_standard_library() {
    let samples = ["", ",", ",,", "a", "a,b", " a , b ", ",a", "a,", "é, 日本,\u{a0}x\u{a0}"];
    for sample in samples {
        let expected: Vec<String> = sample.split(',').map(|piece| piece.trim().to_string()).collect();
        assert_eq!(split_trimmed(sample, ','), expected);
    }
}

#[test]
fn numbers_are_read_in_base_ten() {
    assert_eq!(parse_u64("0"), Some(0));
    assert_eq!(parse_u64("300"), Some(300));
    assert_eq!(parse_u64("007"), Some(7));
    assert_eq!(parse_u64("+42"), Some(42));
    assert_eq!(parse_u64("18446744073709551615"), Some(u64::MAX));
    assert_eq!(parse_u64("000018446744073709551615"), Some(u64::MAX));
}

#[test]
fn what_is_no_number_is_refused() {
    assert_eq!(parse_u64(""), None);
    assert_eq!(parse_u64("+"), None);
    assert_eq!(parse_u64("++1"), None);
    assert_eq!(parse_u64("-1"), None);
    assert_eq!(parse_u64("-0"), None);
    assert_eq!(parse_u64("1 "), None);
    assert_eq!(parse_u64("1_000"), None);
    assert_eq!(parse_u64("12a"), None);
    assert_eq!(parse_u64("٣"), None);
    assert_eq!(parse_u64("18446744073709551616"), None);
    assert_eq!(parse_u64("99999999999999999999999999"), None);
    assert_eq!(parse_u64("18446744073709551616x"), None);
}

#[test]
fn numbers_agree_with_the_standard_library() {
    let samples = [
        "", "+", "-", "0", "+0", "-0", "1", "10", "0010", "+10", "1+", "18446744073709551615",
        "18446744073709551616", "184467440737095516150", " 1", "1\n", "0x10", "１２",
    ];
    for sample in samples {
        assert_eq!(parse_u64(sample), sample.parse::<u64>().ok());
    }
}
