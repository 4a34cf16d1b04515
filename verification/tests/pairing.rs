use dglab_audio_link::dglab::pairing::{
    auto_detect_lan_ws_url, build_qr_payload, build_ws_url, default_ws_url, parse_control_ws_url,
    parse_ws_url, replace_host_in_ws_url, replace_host_with_session, rotate_session_id_in_ws_url,
    rotate_session_to, ws_url_for_host_and_new_session, ws_url_uses_loopback,
};

#[test]
fn builds_expected_qr_payload_prefix() {
    let payload = build_qr_payload("ws://192.168.1.20:28846/abc");
    assert_eq!(
        payload,
        "https://www.dungeon-lab.com/app-download.php#DGLAB-SOCKET#ws://192.168.1.20:28846/abc"
    );
}

#[test]
fn rotates_only_session_id_segment() {
    let next = rotate_session_id_in_ws_url("ws://192.168.1.20:28846/old-session", None);
    assert!(next.starts_with("ws://192.168.1.20:28846/"));
    assert_ne!(next, "ws://192.168.1.20:28846/old-session");
}

#[test]
fn replaces_host_keeps_port_and_path() {
    let next = replace_host_in_ws_url("ws://192.168.1.20:28846/session-1", "10.0.0.66");
    assert_eq!(next, "ws://10.0.0.66:28846/session-1");
}

#[test]
fn loopback_check_works_for_localhost() {
    assert!(ws_url_uses_loopback("ws://localhost:28846/a"));
    assert!(ws_url_uses_loopback("ws://127.0.0.1:28846/a"));
    assert!(!ws_url_uses_loopback("ws://192.168.1.20:28846/a"));
}

#[test]
fn parses_control_ws_url_with_one_path_segment() {
    let parsed =
        parse_control_ws_url("ws://192.168.1.20:28846/7e04d0a7-b6c0-4fa1-b255-5055c47b3374")
            .expect("must parse");

    assert_eq!(parsed.scheme, "ws");
    assert_eq!(parsed.host, "192.168.1.20");
    assert_eq!(parsed.port, 28846);
    assert_eq!(parsed.session_id, "7e04d0a7-b6c0-4fa1-b255-5055c47b3374");
}

#[test]
fn rejects_multi_segment_path_for_qr_protocol() {
    assert!(parse_control_ws_url("ws://192.168.1.20:28846/a/b").is_none());
}

#[test]
fn addresses_are_taken_apart() {
    let parts = parse_ws_url("  wss://host/a/b/ ").expect("must parse");
    assert_eq!(parts.scheme, "wss");
    assert_eq!(parts.host, "host");
    assert_eq!(parts.port, None);
    assert_eq!(parts.path, "a/b/");
    let parts = parse_ws_url("ws://::1:99999").expect("must parse");
    assert_eq!(parts.host, "::1");
    assert_eq!(parts.port, None);
    assert_eq!(parts.path, "");
    assert!(parse_ws_url("http://host/a").is_none());
    assert!(parse_ws_url("ws:///a").is_none());
    assert!(parse_ws_url("ws://:80/a").is_none());
    assert!(parse_ws_url("").is_none());
}

#[test]
fn control_address_needs_a_session() {
    assert!(parse_control_ws_url("ws://host:1/").is_none());
    assert!(parse_control_ws_url("ws://host:1").is_none());
    assert!(parse_control_ws_url("host:1/a").is_none());
    let parsed = parse_control_ws_url("wss://host//abc//").expect("must parse");
    assert_eq!(parsed.session_id, "abc");
    assert_eq!(parsed.port, 28846);
    assert_eq!(parsed.scheme, "wss");
    assert_eq!(parsed.clone(), parsed);
}

#[test]
fn loopback_check_covers_all_forms() {
    assert!(ws_url_uses_loopback("ws://LocalHost/a"));
    assert!(ws_url_uses_loopback("ws://::1:28846/a"));
    assert!(ws_url_uses_loopback("not an address"));
    assert!(!ws_url_uses_loopback("ws://127.0.0.2:1/a"));
}

#[test]
fn written_address_is_read_back() {
    let url = build_ws_url("wss", " 10.1.2.3 ", 65535, " //p/q");
    assert_eq!(url, "wss://10.1.2.3:65535/p/q");
    let parts = parse_ws_url(&url).expect("must parse");
    assert_eq!(parts.host, "10.1.2.3");
    assert_eq!(parts.port, Some(65535));
    assert_eq!(parts.path, "p/q");
}

fn is_session_id(s: &str) -> bool {
    let chars: Vec<char> = s.chars().collect();
    chars.len() == 36
        && chars.iter().enumerate().all(|(i, c)| match i {
            8 | 13 | 18 | 23 => *c == '-',
            14 => *c == '4',
            19 => matches!(*c, '8' | '9' | 'a' | 'b'),
            _ => c.is_ascii_digit() || ('a'..='f').contains(c),
        })
}

#[test]
fn new_sessions_get_random_ids() {
    let one = ws_url_for_host_and_new_session("10.0.0.1");
    let two = ws_url_for_host_and_new_session("10.0.0.1");
    assert_ne!(one, two);
    let parsed = parse_control_ws_url(&one).expect("must parse");
    assert_eq!(parsed.host, "10.0.0.1");
    assert_eq!(parsed.port, 28846);
    assert!(is_session_id(&parsed.session_id));
}

#[test]
fn default_address_falls_back_to_loopback() {
    assert!(default_ws_url(None).starts_with("ws://127.0.0.1:28846/"));
    assert!(default_ws_url(Some("10.0.0.9")).starts_with("ws://10.0.0.9:28846/"));
}

#[test]
fn replacing_a_host_fills_in_what_is_missing() {
    assert_eq!(
        replace_host_with_session("wss://old", "new", "id"),
        "wss://new:28846/id"
    );
    assert_eq!(
        replace_host_with_session("nonsense", "new", "id"),
        "ws://new:28846/id"
    );
    assert_eq!(
        replace_host_with_session("ws://old:7/a/b", "new", "id"),
        "ws://new:7/a/b"
    );
    assert_eq!(auto_detect_lan_ws_url("ws://a:1/s", None), None);
    assert_eq!(
        auto_detect_lan_ws_url("ws://a:1/s", Some("b")),
        Some("ws://b:1/s".to_owned())
    );
}

#[test]
fn rotating_replaces_the_last_segment() {
    assert_eq!(
        rotate_session_to(" ws://h:1/a/old ", "new", None),
        "ws://h:1/a/new"
    );
    assert_eq!(
        rotate_session_to("wss://h:1/", "new", None),
        "wss://h:1/new"
    );
    assert_eq!(
        rotate_session_to("ws://h:1", "new", Some("10.0.0.2")),
        "ws://10.0.0.2:28846/new"
    );
    assert_eq!(
        rotate_session_to("", "new", None),
        "ws://127.0.0.1:28846/new"
    );
}
