use uiplay::progress::parse_time;

#[test]
fn parses_position() {
    assert_eq!(parse_time("12:34"), Some(754));
}
