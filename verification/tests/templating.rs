use frame_relay::template::{
    escape_quotes, render, ClientConfig, TemplateFault, ENDPOINT_LINE_CLOSE, ENDPOINT_LINE_OPEN,
    ENDPOINT_PLACEHOLDER, SIDE_LINE_CLOSE, SIDE_LINE_OPEN, SIDE_PLACEHOLDER,
};
use frame_relay::validate::{MonitorSide, UrlRule, ValidationError};

const SIDE_MARK: &str =
    "local monitor = peripheral.wrap(\"\") -- This value is set before the download";
const ENDPOINT_MARK: &str = "local frame_endpoint = \"\" -- This value is set before the download";

#[test]
fn placeholders_and_lines_have_their_fixed_text() {
    assert_eq!(SIDE_PLACEHOLDER, SIDE_MARK);
    assert_eq!(ENDPOINT_PLACEHOLDER, ENDPOINT_MARK);
    assert_eq!(SIDE_LINE_OPEN, "local monitor = peripheral.wrap(\"");
    assert_eq!(SIDE_LINE_CLOSE, "\")");
    assert_eq!(ENDPOINT_LINE_OPEN, "local frame_endpoint = \"");
    assert_eq!(ENDPOINT_LINE_CLOSE, "\"");
}

fn template() -> String {
    format!("-- client\n{}\n{}\nprint(monitor)\n", SIDE_MARK, ENDPOINT_MARK)
}

fn config(url: &str, side: MonitorSide) -> ClientConfig {
    ClientConfig { backend_url: url.to_string(), monitor_side: side }
}

fn text(s: &str) -> Vec<char> {
    s.chars().collect()
}

#[test]
fn both_placeholders_are_filled_in_place() {
    let script = render(&template(), &config("http://host:9000/frame", MonitorSide::Left));
    assert_eq!(
        script,
        Ok("-- client\nlocal monitor = peripheral.wrap(\"left\")\nlocal frame_endpoint = \"http://host:9000/frame\"\nprint(monitor)\n".to_string())
    );
}

#[test]
fn rendered_script_holds_the_values_and_no_placeholder() {
    let script = render(&template(), &config("http://host:9000/frame", MonitorSide::Left)).unwrap();
    assert!(script.contains("http://host:9000/frame"));
    assert!(script.contains("peripheral.wrap(\"left\")"));
    assert!(!script.contains(SIDE_MARK));
    assert!(!script.contains(ENDPOINT_MARK));
    assert!(!script.contains("This value is set before the download"));
}

#[test]
fn every_side_is_written_by_its_literal() {
    for (side, name) in [
        (MonitorSide::Top, "top"),
        (MonitorSide::Bottom, "bottom"),
        (MonitorSide::Left, "left"),
        (MonitorSide::Right, "right"),
        (MonitorSide::Front, "front"),
        (MonitorSide::Back, "back"),
    ] {
        let script = render(SIDE_MARK, &config("http://x", side));
        assert_eq!(script, Err(TemplateFault::MissingEndpointPlaceholder));
        let both = format!("{}{}", SIDE_MARK, ENDPOINT_MARK);
        assert_eq!(
            render(&both, &config("http://x", side)),
            Ok(format!(
                "local monitor = peripheral.wrap(\"{}\")local frame_endpoint = \"http://x\"",
                name
            ))
        );
    }
}

#[test]
fn placeholders_may_come_in_either_order() {
    let source = format!("a{}b{}c", ENDPOINT_MARK, SIDE_MARK);
    assert_eq!(
        render(&source, &config("https://h/f", MonitorSide::Top)),
        Ok("alocal frame_endpoint = \"https://h/f\"blocal monitor = peripheral.wrap(\"top\")c"
            .to_string())
    );
}

#[test]
fn template_without_side_placeholder_is_a_fault() {
    let source = format!("x\n{}\n", ENDPOINT_MARK);
    assert_eq!(
        render(&source, &config("http://x", MonitorSide::Top)),
        Err(TemplateFault::MissingSidePlaceholder)
    );
    assert_eq!(
        render("", &config("http://x", MonitorSide::Top)),
        Err(TemplateFault::MissingSidePlaceholder)
    );
}

#[test]
fn template_without_endpoint_placeholder_is_a_fault() {
    let source = format!("x\n{}\n", SIDE_MARK);
    assert_eq!(
        render(&source, &config("http://x", MonitorSide::Top)),
        Err(TemplateFault::MissingEndpointPlaceholder)
    );
}

#[test]
fn template_with_a_repeated_placeholder_is_a_fault() {
    let twice_side = format!("{}\n{}\n{}\n", SIDE_MARK, ENDPOINT_MARK, SIDE_MARK);
    assert_eq!(
        render(&twice_side, &config("http://x", MonitorSide::Top)),
        Err(TemplateFault::UnexpandedPlaceholder)
    );
    let twice_endpoint = format!("{}\n{}\n{}\n", ENDPOINT_MARK, SIDE_MARK, ENDPOINT_MARK);
    assert_eq!(
        render(&twice_endpoint, &config("http://x", MonitorSide::Top)),
        Err(TemplateFault::UnexpandedPlaceholder)
    );
}

#[test]
fn quotes_in_the_url_are_escaped_when_rendering() {
    let script = render(&template(), &config("http://x\"y", MonitorSide::Back)).unwrap();
    assert!(script.contains("local frame_endpoint = \"http://x\\\"y\"\n"));
}

#[test]
fn template_text_outside_the_placeholders_is_kept() {
    let source = format!("\u{e9}t\u{e9} \"quoted\"\n{}\n\tmiddle\n{}\nend \\ \u{1f600}", SIDE_MARK, ENDPOINT_MARK);
    let script = render(&source, &config("http://h", MonitorSide::Right)).unwrap();
    assert_eq!(
        script,
        "\u{e9}t\u{e9} \"quoted\"\nlocal monitor = peripheral.wrap(\"right\")\n\tmiddle\nlocal frame_endpoint = \"http://h\"\nend \\ \u{1f600}"
    );
}

#[test]
fn escape_puts_a_backslash_before_each_quote() {
    assert_eq!(escape_quotes(&text("")), text(""));
    assert_eq!(escape_quotes(&text("plain")), text("plain"));
    assert_eq!(escape_quotes(&text("\"")), text("\\\""));
    assert_eq!(escape_quotes(&text("a\"b\"\"c")), text("a\\\"b\\\"\\\"c"));
    assert_eq!(escape_quotes(&text("back\\slash")), text("back\\slash"));
}

#[test]
fn config_is_made_from_valid_values_only() {
    assert_eq!(
        ClientConfig::new("http://host:9000/frame", "left"),
        Ok(config("http://host:9000/frame", MonitorSide::Left))
    );
    assert!(matches!(
        ClientConfig::new("http://host:9000/frame", "up"),
        Err(ValidationError::InvalidEnum { .. })
    ));
    assert_eq!(
        ClientConfig::new("host:9000/frame", "left"),
        Err(ValidationError::InvalidUrl { rule: UrlRule::Scheme })
    );
}

#[test]
fn config_reports_the_side_before_the_url() {
    assert!(matches!(
        ClientConfig::new("nonsense", "up"),
        Err(ValidationError::InvalidEnum { .. })
    ));
}
