use frame_relay::validate::{
    hex_digit, validate_backend_url, validate_frame_payload, validate_monitor_side, MonitorSide,
    UrlRule, ValidationError, MAX_URL_LEN,
};

fn all_sides() -> Vec<MonitorSide> {
    vec![
        MonitorSide::Top,
        MonitorSide::Bottom,
        MonitorSide::Left,
        MonitorSide::Right,
        MonitorSide::Front,
        MonitorSide::Back,
    ]
}

#[test]
fn each_of_the_six_sides_is_accepted() {
    for side in ["top", "bottom", "left", "right", "front", "back"] {
        assert_eq!(validate_monitor_side(side), Ok(()));
    }
}

#[test]
fn unknown_side_is_rejected_with_value_and_allowed_set() {
    assert_eq!(
        validate_monitor_side("up"),
        Err(ValidationError::InvalidEnum { value: "up".to_string(), allowed: all_sides() })
    );
}

#[test]
fn side_literals_are_case_sensitive_and_exact() {
    for side in ["", "Top", "TOP", " top", "top ", "to", "topp", "bottom\n"] {
        assert!(matches!(
            validate_monitor_side(side),
            Err(ValidationError::InvalidEnum { .. })
        ));
    }
}

#[test]
fn parse_reads_each_side_and_as_str_writes_it() {
    for side in all_sides() {
        assert_eq!(MonitorSide::parse(side.as_str()), Some(side));
    }
    assert_eq!(MonitorSide::parse("left"), Some(MonitorSide::Left));
    assert_eq!(MonitorSide::Front.as_str(), "front");
    assert_eq!(MonitorSide::parse("up"), None);
    assert_eq!(MonitorSide::allowed(), all_sides());
}

#[test]
fn http_and_https_urls_are_accepted() {
    assert_eq!(validate_backend_url("http://localhost:8080/get-frame"), Ok(()));
    assert_eq!(validate_backend_url("https://example.org/frame"), Ok(()));
    assert_eq!(validate_backend_url("http://"), Ok(()));
    assert_eq!(validate_backend_url("https://"), Ok(()));
}

#[test]
fn url_without_scheme_is_rejected() {
    for url in ["", "ftp://host", "http:/host", "HTTP://host", "localhost:8080", " http://x", "http"] {
        assert_eq!(
            validate_backend_url(url),
            Err(ValidationError::InvalidUrl { rule: UrlRule::Scheme })
        );
    }
}

#[test]
fn url_with_quote_or_line_break_is_rejected() {
    for url in ["http://x\"", "http://x\ny", "https://x\ry", "http://\"; os.execute(\"rm\")"] {
        assert_eq!(
            validate_backend_url(url),
            Err(ValidationError::InvalidUrl { rule: UrlRule::Charset })
        );
    }
}

#[test]
fn url_length_limit_is_one_hundred_characters() {
    assert_eq!(MAX_URL_LEN, 100);
    let exactly = format!("http://{}", "a".repeat(93));
    assert_eq!(exactly.chars().count(), 100);
    assert_eq!(validate_backend_url(&exactly), Ok(()));
    let over = format!("http://{}", "a".repeat(94));
    assert_eq!(
        validate_backend_url(&over),
        Err(ValidationError::InvalidUrl { rule: UrlRule::Length })
    );
}

#[test]
fn url_length_is_counted_in_characters() {
    let url = format!("http://{}", "\u{e9}".repeat(93));
    assert_eq!(url.chars().count(), 100);
    assert!(url.len() > 100);
    assert_eq!(validate_backend_url(&url), Ok(()));
}

#[test]
fn url_rules_are_tried_in_order() {
    let long_bad_scheme = format!("ftp://{}\"", "a".repeat(200));
    assert_eq!(
        validate_backend_url(&long_bad_scheme),
        Err(ValidationError::InvalidUrl { rule: UrlRule::Scheme })
    );
    let long_with_quote = format!("http://{}\"", "a".repeat(200));
    assert_eq!(
        validate_backend_url(&long_with_quote),
        Err(ValidationError::InvalidUrl { rule: UrlRule::Charset })
    );
}

#[test]
fn hex_digits_of_both_cases_are_recognised() {
    for c in "0123456789abcdefABCDEF".chars() {
        assert!(hex_digit(c));
    }
    for c in ['g', 'G', ' ', '/', ':', '@', '`', 'x', '\u{ff10}', '\u{e9}'] {
        assert!(!hex_digit(c));
    }
}

#[test]
fn hex_payload_within_limit_is_accepted() {
    assert_eq!(validate_frame_payload("", 0), Ok(()));
    assert_eq!(validate_frame_payload("0123456789abcdef", 16), Ok(()));
    assert_eq!(validate_frame_payload("ABCDEF", 1_000_000), Ok(()));
}

#[test]
fn payload_over_limit_is_too_large() {
    assert_eq!(
        validate_frame_payload("0123456789abcdef0", 16),
        Err(ValidationError::PayloadTooLarge { len: 17, max: 16 })
    );
    assert_eq!(
        validate_frame_payload("a", 0),
        Err(ValidationError::PayloadTooLarge { len: 1, max: 0 })
    );
}

#[test]
fn payload_with_other_characters_is_invalid_charset() {
    assert_eq!(validate_frame_payload("12g4", 1_000_000), Err(ValidationError::InvalidCharset));
    assert_eq!(validate_frame_payload("12 4", 1_000_000), Err(ValidationError::InvalidCharset));
    assert_eq!(validate_frame_payload("g", 1), Err(ValidationError::InvalidCharset));
}

#[test]
fn size_is_tried_before_characters() {
    assert_eq!(
        validate_frame_payload("zzzz", 3),
        Err(ValidationError::PayloadTooLarge { len: 4, max: 3 })
    );
}

#[test]
fn payload_of_a_million_digits_is_accepted_and_one_more_is_not() {
    let exactly = "a".repeat(1_000_000);
    assert_eq!(validate_frame_payload(&exactly, 1_000_000), Ok(()));
    let over = "a".repeat(1_000_001);
    assert_eq!(
        validate_frame_payload(&over, 1_000_000),
        Err(ValidationError::PayloadTooLarge { len: 1_000_001, max: 1_000_000 })
    );
}
