use frame_relay::message::{push_decimal, push_joined_names};
use frame_relay::validate::{
    validate_backend_url, validate_frame_payload, validate_monitor_side, MonitorSide, UrlRule,
    ValidationError,
};

#[test]
fn invalid_enum_message_names_the_value_and_joins_the_allowed_sides() {
    let e = validate_monitor_side("up").unwrap_err();
    assert_eq!(
        e.message(),
        "Invalid monitor_side 'up'. Must be one of: top, bottom, left, right, front, back"
    );
}

#[test]
fn url_messages_name_the_rule() {
    assert_eq!(
        validate_backend_url("x").unwrap_err().message(),
        "backend_url must start with http:// or https://"
    );
    assert_eq!(
        validate_backend_url("http://\"").unwrap_err().message(),
        "backend_url contains invalid characters"
    );
    assert_eq!(
        ValidationError::InvalidUrl { rule: UrlRule::Length }.message(),
        "backend_url is too long (max 100 characters)"
    );
}

#[test]
fn payload_messages_tell_too_large_from_malformed() {
    assert_eq!(
        validate_frame_payload("abc", 2).unwrap_err().message(),
        "Frame data exceeds maximum size of 2 characters"
    );
    assert_eq!(
        ValidationError::PayloadTooLarge { len: 1_000_001, max: 1_000_000 }.message(),
        "Frame data exceeds maximum size of 1000000 characters"
    );
    assert_eq!(
        validate_frame_payload("12g4", 10).unwrap_err().message(),
        "Frame data must contain only hexadecimal characters (0-9, a-f)"
    );
}

#[test]
fn decimal_is_written_without_leading_zeros() {
    for n in [0usize, 1, 9, 10, 11, 99, 100, 101, 1_000_000, 4_294_967_295, usize::MAX] {
        let mut out = String::from("n=");
        push_decimal(&mut out, n);
        assert_eq!(out, format!("n={}", n));
    }
}

#[test]
fn names_are_joined_with_comma_and_space() {
    let mut none = String::from(">");
    push_joined_names(&mut none, &[]);
    assert_eq!(none, ">");
    let mut one = String::new();
    push_joined_names(&mut one, &[MonitorSide::Back]);
    assert_eq!(one, "back");
    let mut three = String::from("[");
    push_joined_names(&mut three, &[MonitorSide::Left, MonitorSide::Right, MonitorSide::Left]);
    assert_eq!(three, "[left, right, left");
}
