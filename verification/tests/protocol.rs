use dglab_audio_link::dglab::protocol::{
    build_clear_message, build_pulse_message, build_pulse_message_from_items,
    build_strength_message, parse_strength_report, PacketType, SocketPacket, StrengthControlMode,
    StrengthReport,
};
use dglab_audio_link::types::DglabChannel;

#[test]
fn builds_strength_message() {
    let msg = build_strength_message(DglabChannel::A, StrengthControlMode::SetValue, 35);
    assert_eq!(msg, "strength-1+2+35");
}

#[test]
fn builds_clear_message() {
    let msg = build_clear_message(DglabChannel::B);
    assert_eq!(msg, "clear-2");
}

#[test]
fn builds_pulse_message_from_text() {
    let msg = build_pulse_message(DglabChannel::A, "0A0A0A0A00000000, a1b2c3d4e5f60718")
        .expect("must pass");
    assert_eq!(msg, "pulse-A:[\"0A0A0A0A00000000\",\"A1B2C3D4E5F60718\"]");
}

#[test]
fn rejects_invalid_pulse_item() {
    let err = build_pulse_message(DglabChannel::A, "123").expect_err("must fail");
    assert!(err.contains("invalid pulse item"));
}

#[test]
fn parses_strength_report() {
    let report = parse_strength_report("strength-11+7+100+35").expect("must parse");
    assert_eq!(report.a_strength, 11);
    assert_eq!(report.b_strength, 7);
    assert_eq!(report.a_soft_limit, 100);
    assert_eq!(report.b_soft_limit, 35);
}

#[test]
fn parses_strength_report_case_insensitive_prefix() {
    let report = parse_strength_report("StReNgTh-11+7+100+35").expect("must parse");
    assert_eq!(report.a_strength, 11);
    assert_eq!(report.b_strength, 7);
    assert_eq!(report.a_soft_limit, 100);
    assert_eq!(report.b_soft_limit, 35);
}

#[test]
fn strength_message_is_capped_and_names_its_mode() {
    assert_eq!(
        build_strength_message(DglabChannel::B, StrengthControlMode::Increase, 999),
        "strength-2+1+200"
    );
    assert_eq!(
        build_strength_message(DglabChannel::A, StrengthControlMode::Decrease, 0),
        "strength-1+0+0"
    );
}

#[test]
fn pulse_errors_say_what_is_wrong() {
    assert_eq!(
        build_pulse_message(DglabChannel::A, "123"),
        Err(
            "invalid pulse item `123`. each item must be 16 HEX chars, e.g. 0A0A0A0A00000000"
                .to_owned()
        )
    );
    assert_eq!(
        build_pulse_message(DglabChannel::A, " ,;| \n"),
        Err("no pulse item provided".to_owned())
    );
    let many = vec!["0A0A0A0A00000000".to_owned(); 101];
    assert_eq!(
        build_pulse_message_from_items(DglabChannel::A, &many),
        Err("too many pulse items: 101 (max 100)".to_owned())
    );
    let non_hex = vec!["0A0A0A0A0000000G".to_owned()];
    assert!(build_pulse_message_from_items(DglabChannel::A, &non_hex).is_err());
}

#[test]
fn the_first_bad_item_is_named() {
    let items = vec![
        "0A0A0A0A00000000".to_owned(),
        " zz".to_owned(),
        "yy".to_owned(),
    ];
    let err = build_pulse_message_from_items(DglabChannel::B, &items).expect_err("must fail");
    assert!(err.starts_with("invalid pulse item ` zz`"));
}

#[test]
fn a_hundred_items_are_accepted_and_padding_is_dropped() {
    let items = vec!["  0a0a0a0a0a0a0a0a ".to_owned(); 100];
    let message = build_pulse_message_from_items(DglabChannel::B, &items).expect("must pass");
    assert!(message.starts_with("pulse-B:[\"0A0A0A0A0A0A0A0A\",\"0A0A0A0A0A0A0A0A\""));
    assert_eq!(message.len(), 8 + 100 * 18 + 99 + 2);
}

#[test]
fn report_values_above_the_maximum_are_refused() {
    assert_eq!(parse_strength_report("strength-201+0+0+0"), None);
    assert_eq!(parse_strength_report("strength-1+2+3"), None);
    assert_eq!(parse_strength_report("strength-1+2+3+4+5"), None);
    assert_eq!(parse_strength_report("strength-1+2+3+"), None);
    assert_eq!(parse_strength_report("strength-1+2+3+-4"), None);
    assert_eq!(parse_strength_report("strengtß-1+2+3+4"), None);
    assert_eq!(parse_strength_report("stren"), None);
    assert_eq!(parse_strength_report("strength-99999+2+3+4"), None);
}

#[test]
fn report_is_read_back_with_padding_and_leading_zeros() {
    assert_eq!(
        parse_strength_report("  STRENGTH-200+000+07+1 \r\n"),
        Some(StrengthReport {
            a_strength: 200,
            b_strength: 0,
            a_soft_limit: 7,
            b_soft_limit: 1,
        })
    );
}

#[test]
fn packet_kinds_are_found_by_their_names() {
    let kinds = [
        PacketType::Heartbeat,
        PacketType::Bind,
        PacketType::Msg,
        PacketType::Break,
        PacketType::Error,
    ];
    for kind in kinds {
        assert_eq!(PacketType::parse(kind.as_str()), Some(kind));
        assert_eq!(SocketPacket::from_type(kind, "a", "b", "c").kind(), Some(kind));
    }
    assert_eq!(PacketType::parse("Bind"), None);
    assert_eq!(SocketPacket::new(" bind ", "a", "b", "c").kind(), Some(PacketType::Bind));
    assert_eq!(SocketPacket::new("hello", "a", "b", "c").kind(), None);
}

#[test]
fn packets_carry_what_they_are_given() {
    let packet = SocketPacket::bind_assign_current_id("id-1");
    assert_eq!(packet, SocketPacket::new("bind", "id-1", "", "targetId"));
    assert!(!packet.has_required_non_empty_values());
    assert!(SocketPacket::msg("a", "b", "c").has_required_non_empty_values());
    assert!(!SocketPacket::msg("a", " \t", "c").has_required_non_empty_values());
    assert_eq!(
        SocketPacket::break_packet("a", "b", "c"),
        SocketPacket::new("break", "a", "b", "c")
    );
    assert_eq!(
        SocketPacket::heartbeat("a", "b", "200").clone(),
        SocketPacket::new("heartbeat", "a", "b", "200")
    );
    assert_eq!(
        SocketPacket::error("a", "b", "403"),
        SocketPacket::new("error", "a", "b", "403")
    );
    assert_eq!(
        SocketPacket::bind_result("a", "b", "200"),
        SocketPacket::new("bind", "a", "b", "200")
    );
}

#[test]
fn packet_text_is_compact_json_in_field_order() {
    let packet = SocketPacket::msg("c\"1", "t\\2", "line\n\u{1}\u{1f}\té");
    assert_eq!(
        packet.to_json().expect("must serialise"),
        "{\"type\":\"msg\",\"clientId\":\"c\\\"1\",\"targetId\":\"t\\\\2\",\"message\":\"line\\n\\u0001\\u001f\\té\"}"
    );
}

#[test]
fn packet_text_is_read_by_the_json_parser() {
    let packet = SocketPacket::msg("c\u{8}\u{c}\r", "t/2", "strength-1+2+3 \u{7f}\u{2028}");
    let value: serde_json::Value =
        serde_json::from_str(&packet.to_json().expect("must serialise")).expect("must parse");
    assert_eq!(value["type"], "msg");
    assert_eq!(value["clientId"], packet.client_id.as_str());
    assert_eq!(value["targetId"], "t/2");
    assert_eq!(value["message"], packet.message.as_str());
}

#[test]
fn control_modes_have_labels_and_codes() {
    assert_eq!(StrengthControlMode::Decrease.label(), "Decrease");
    assert_eq!(StrengthControlMode::Increase.label(), "Increase");
    assert_eq!(StrengthControlMode::SetValue.label(), "Set");
    assert_eq!(StrengthControlMode::default().opcode(), 2);
}
