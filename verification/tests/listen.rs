use uiplay::dacp::{parse_avahi_dacp_output, parse_uxplay_dacp, unescape_avahi_field};
use uiplay::progress::shairport_progress_message;

#[test]
fn converts_shairport_progress_timestamps() {
    assert_eq!(
        shairport_progress_message("1000/2647000/5293000").as_deref(),
        Some("audio progress (min:sec): 1:00; remaining: 1:00; track length 2:00")
    );
}

#[test]
fn converts_wrapped_shairport_progress_timestamps() {
    assert_eq!(
        shairport_progress_message("4294085295/1763999/4410999").as_deref(),
        Some("audio progress (min:sec): 1:00; remaining: 1:00; track length 2:00")
    );
}

#[test]
fn parses_uxplay_dacp_export() {
    let credentials = parse_uxplay_dacp("A1B2C3D4\n123456789\n").unwrap();
    assert_eq!(credentials.dacp_id, "A1B2C3D4");
    assert_eq!(credentials.active_remote, "123456789");
}

#[test]
fn parses_labeled_uxplay_dacp_export() {
    let credentials = parse_uxplay_dacp("DACP-ID: A1B2C3D4\nActive-Remote: 123456789\n").unwrap();
    assert_eq!(credentials.dacp_id, "A1B2C3D4");
    assert_eq!(credentials.active_remote, "123456789");
}

#[test]
fn parses_uxplay_dacp_export_with_equals() {
    let credentials = parse_uxplay_dacp("DACP-ID=A1B2C3D4\nActive-Remote=123456789\n").unwrap();
    assert_eq!(credentials.dacp_id, "A1B2C3D4");
    assert_eq!(credentials.active_remote, "123456789");
}

#[test]
fn rejects_incomplete_uxplay_dacp_export() {
    assert!(parse_uxplay_dacp("DACP-ID: A1B2C3D4\n").is_err());
}

#[test]
fn unescapes_avahi_fields() {
    assert_eq!(unescape_avahi_field("iTunes\\032Control"), "iTunes Control");
}

#[test]
fn parses_avahi_dacp_endpoint() {
    let output =
        "=;wlan0;IPv6;iTunes_Ctrl_A1B2C3D4;_dacp._tcp;local;phone.local;192.168.2.99;51197;\n";
    assert_eq!(
        parse_avahi_dacp_output(output, "iTunes_Ctrl_A1B2C3D4").unwrap(),
        ("192.168.2.99".into(), 51197)
    );
}
