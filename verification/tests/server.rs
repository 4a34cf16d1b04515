use dglab_audio_link::dglab::protocol::SocketPacket;
use dglab_audio_link::dglab::server::{
    AppConnection, DglabWsServer, DglabWsServerConfig, DglabWsServerEvent, SendFailure,
    ServerAction, ServerInput, ServerStep,
};

fn server() -> DglabWsServer {
    DglabWsServer::new(DglabWsServerConfig::new("0.0.0.0:28846", "ctrl"))
}

fn connection(bound: bool) -> AppConnection {
    AppConnection { app_id: "app".to_owned(), bound }
}

fn text(packet: SocketPacket) -> ServerInput {
    ServerInput::Text { text: "{}".to_owned(), packet: Some(packet) }
}

fn sent(step: &ServerStep) -> Vec<SocketPacket> {
    step.actions
        .iter()
        .filter_map(|action| match action {
            ServerAction::Send(packet) => Some(packet.clone()),
            _ => None,
        })
        .collect()
}

fn reply(bound: bool, input: ServerInput) -> SocketPacket {
    let mut conn = connection(bound);
    let step = server().serve_connection(&mut conn, input);
    assert!(step.keep);
    assert_eq!(step.actions.len(), 1);
    assert_eq!(conn.bound, bound);
    sent(&step).remove(0)
}

#[test]
fn a_new_server_is_not_listening() {
    let mut server = server();
    assert!(!server.status.listening);
    assert_eq!(server.status.last_info, "init");
    assert_eq!(server.config.max_json_chars, 1950);
    server.set_listening();
    assert!(server.status.listening);
    assert_eq!(server.status.last_info, "listening");
    server.set_connection_error("boom");
    assert_eq!(server.status.last_info, "connection error: boom");
    assert!(server.status.listening);
    assert_eq!(server.config.clone().bind_addr, "0.0.0.0:28846");
}

#[test]
fn the_right_session_is_taken_up() {
    let mut server = server();
    let opening = server.open_connection_as("app", "/ctrl/", "1.2.3.4:5");
    assert!(opening.accepted);
    assert!(!opening.connection.bound);
    assert_eq!(opening.actions.len(), 3);
    match &opening.actions[0] {
        ServerAction::Emit(DglabWsServerEvent::Connected { app_id, requested_path, peer_addr }) => {
            assert_eq!(app_id, "app");
            assert_eq!(requested_path, "/ctrl/");
            assert_eq!(peer_addr, "1.2.3.4:5");
        }
        other => panic!("unexpected {other:?}"),
    }
    match &opening.actions[1] {
        ServerAction::Publish(status) => {
            assert_eq!(status.app_id.as_deref(), Some("app"));
            assert!(!status.app_bound);
            assert_eq!(status.last_info, "connected from 1.2.3.4:5");
            server.update_status(status.clone());
        }
        other => panic!("unexpected {other:?}"),
    }
    match &opening.actions[2] {
        ServerAction::Send(packet) => {
            assert_eq!(*packet, SocketPacket::new("bind", "app", "", "targetId"));
        }
        other => panic!("unexpected {other:?}"),
    }
    assert_eq!(server.status.app_id.as_deref(), Some("app"));
}

#[test]
fn another_session_is_turned_away() {
    let opening = server().open_connection_as("app", "/other", "peer");
    assert!(!opening.accepted);
    assert_eq!(opening.actions.len(), 6);
    match &opening.actions[3] {
        ServerAction::Send(packet) => {
            assert_eq!(*packet, SocketPacket::new("bind", "ctrl", "app", "210"));
        }
        other => panic!("unexpected {other:?}"),
    }
    assert!(matches!(opening.actions[4], ServerAction::Close));
    match &opening.actions[5] {
        ServerAction::Publish(status) => {
            assert_eq!(status.app_id, None);
            assert_eq!(status.last_info, "invalid session id (210)");
        }
        other => panic!("unexpected {other:?}"),
    }
}

#[test]
fn every_connection_gets_an_id_of_its_own() {
    let server = server();
    let one = server.open_connection("/ctrl", "peer").connection.app_id;
    let two = server.open_connection("/ctrl", "peer").connection.app_id;
    assert_ne!(one, two);
    assert_eq!(one.len(), 36);
}

#[test]
fn a_matching_bind_binds() {
    let server = server();
    for (client, target) in [("ctrl", "app"), ("app", "ctrl")] {
        let mut conn = connection(false);
        let step =
            server.serve_connection(&mut conn, text(SocketPacket::bind_result(client, target, "DGLAB")));
        assert!(conn.bound);
        assert!(step.keep);
        assert_eq!(step.on_send_failure, SendFailure::Fail);
        match &step.actions[0] {
            ServerAction::Publish(status) => {
                assert!(status.app_bound);
                assert_eq!(status.last_info, "bound (200)");
            }
            other => panic!("unexpected {other:?}"),
        }
        assert!(matches!(
            &step.actions[1],
            ServerAction::Emit(DglabWsServerEvent::Bound { app_id }) if app_id == "app"
        ));
        assert_eq!(sent(&step), vec![SocketPacket::new("bind", "ctrl", "app", "200")]);
    }
}

#[test]
fn other_binds_are_answered_with_a_code() {
    assert_eq!(
        reply(false, text(SocketPacket::bind_result("ctrl", "app", "dglab"))),
        SocketPacket::new("bind", "ctrl", "app", "210")
    );
    assert_eq!(
        reply(false, text(SocketPacket::bind_result("ctrl", "ctrl", "DGLAB"))),
        SocketPacket::new("bind", "ctrl", "app", "401")
    );
}

#[test]
fn malformed_frames_are_refused() {
    let refused = SocketPacket::new("error", "app", "ctrl", "403");
    assert_eq!(
        reply(true, ServerInput::Text { text: "nonsense".to_owned(), packet: None }),
        refused
    );
    assert_eq!(reply(true, text(SocketPacket::new("msg", "ctrl", "app", "  "))), refused);
    assert_eq!(reply(true, text(SocketPacket::new("hello", "ctrl", "app", "x"))), refused);
}

#[test]
fn long_frames_are_refused_unread() {
    let long = "é".repeat(1951);
    let packet = SocketPacket::bind_result("ctrl", "app", "DGLAB");
    assert_eq!(
        reply(false, ServerInput::Text { text: long, packet: Some(packet.clone()) }),
        SocketPacket::new("error", "app", "ctrl", "405")
    );
    let mut conn = connection(false);
    let fits = ServerInput::Text { text: "é".repeat(1950), packet: Some(packet) };
    server().serve_connection(&mut conn, fits);
    assert!(conn.bound);
}

#[test]
fn messages_need_a_binding_and_the_right_ids() {
    let refused = SocketPacket::new("bind", "ctrl", "app", "402");
    assert_eq!(reply(false, text(SocketPacket::msg("app", "ctrl", "hi"))), refused);
    assert_eq!(reply(true, text(SocketPacket::msg("app", "other", "hi"))), refused);
    let mut conn = connection(true);
    let step = server().serve_connection(&mut conn, text(SocketPacket::msg("app", "ctrl", " hi ")));
    assert!(step.keep);
    assert!(matches!(
        &step.actions[..],
        [ServerAction::Emit(DglabWsServerEvent::AppMessage { app_id, message })]
            if app_id == "app" && message == " hi "
    ));
}

#[test]
fn heartbeats_are_sent_and_answered() {
    let beat = SocketPacket::new("heartbeat", "app", "ctrl", "200");
    assert_eq!(reply(false, text(SocketPacket::heartbeat("app", "ctrl", "x"))), beat);
    assert_eq!(reply(false, ServerInput::Tick), beat);
}

#[test]
fn outbound_messages_go_to_a_bound_app_only() {
    let mut conn = connection(false);
    let step = server().serve_connection(&mut conn, ServerInput::Outbound("m".to_owned()));
    assert!(step.actions.is_empty() && step.keep);
    let mut conn = connection(true);
    let step = server().serve_connection(&mut conn, ServerInput::Outbound("m".to_owned()));
    assert_eq!(sent(&step), vec![SocketPacket::new("msg", "ctrl", "app", "m")]);
    assert_eq!(step.on_send_failure, SendFailure::Leave);
}

#[test]
fn connections_end_when_they_should() {
    let server = server();
    let ends = |input| {
        let mut conn = connection(true);
        let step = server.serve_connection(&mut conn, input);
        assert!(step.actions.is_empty());
        !step.keep
    };
    assert!(ends(text(SocketPacket::break_packet("app", "ctrl", "bye"))));
    assert!(ends(ServerInput::OutboundClosed));
    assert!(ends(ServerInput::Closed));
    assert!(ends(ServerInput::Lost));
    assert!(!ends(text(SocketPacket::error("app", "ctrl", "oops"))));
    assert!(!ends(ServerInput::Other));
    let mut conn = connection(true);
    let step = server.serve_connection(&mut conn, ServerInput::Ping);
    assert!(step.keep && matches!(step.actions[..], [ServerAction::Pong]));
}

#[test]
fn an_ended_connection_is_reported() {
    let actions = server().close_connection(&connection(true));
    assert!(matches!(
        &actions[0],
        ServerAction::Emit(DglabWsServerEvent::Disconnected { app_id }) if app_id == "app"
    ));
    match &actions[1] {
        ServerAction::Publish(status) => {
            assert_eq!(status.app_id, None);
            assert!(!status.app_bound);
            assert_eq!(status.last_info, "disconnected");
        }
        other => panic!("unexpected {other:?}"),
    }
}

#[test]
fn the_pairing_runs_through() {
    let mut server = server();
    let opening = server.open_connection_as("app", "/ctrl", "peer");
    let mut statuses = Vec::new();
    for action in opening.actions {
        if let ServerAction::Publish(status) = action {
            statuses.push((status.app_id.clone(), status.app_bound));
            server.update_status(status);
        }
    }
    let mut conn = opening.connection;
    let step = server.serve_connection(
        &mut conn,
        text(SocketPacket::bind_result("ctrl", "app", "DGLAB")),
    );
    assert!(conn.bound && step.keep);
    for action in step.actions {
        if let ServerAction::Publish(status) = action {
            statuses.push((status.app_id.clone(), status.app_bound));
            server.update_status(status);
        }
    }
    for action in server.close_connection(&conn) {
        if let ServerAction::Publish(status) = action {
            statuses.push((status.app_id, status.app_bound));
        }
    }
    assert_eq!(
        statuses,
        vec![
            (Some("app".to_owned()), false),
            (Some("app".to_owned()), true),
            (None, false)
        ]
    );
}

#[test]
fn a_binding_lasts() {
    let server = server();
    let mut conn = connection(true);
    server.serve_connection(&mut conn, text(SocketPacket::bind_result("x", "y", "DGLAB")));
    server.serve_connection(&mut conn, ServerInput::Tick);
    assert!(conn.bound);
    assert!(server.is_controller_app_pair("app", "ctrl", "app"));
    assert!(!server.is_controller_app_pair("app", "app", "app"));
}
