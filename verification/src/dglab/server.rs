//! The websocket server's decisions: what it answers, what it reports and when
//! a connection ends. The caller moves the frames.

use vstd::prelude::*;

use crate::dglab::pairing;
use crate::dglab::protocol;
use crate::dglab::protocol::{
    PacketType, PacketView, SocketPacket, CODE_BIND_TARGET_NOT_FOUND, CODE_INVALID_JSON,
    CODE_MESSAGE_TOO_LONG, CODE_NOT_BOUND, CODE_OK, CODE_QR_CLIENT_ID_INVALID, MAX_JSON_CHARS,
    MESSAGE_DGLAB,
};
use crate::session_id;
use crate::session_id::new_session_id;
use crate::text;
use crate::text::{same_text, trim_matches, CharClass};

verus! {

#[derive(Debug)]
pub struct DglabWsServerConfig {
    pub bind_addr: String,
    pub controller_id: String,
    pub max_json_chars: usize,
}

impl Clone for DglabWsServerConfig {
    fn clone(&self) -> (r: DglabWsServerConfig)
        ensures
            r.bind_addr@ == self.bind_addr@,
            r.controller_id@ == self.controller_id@,
            r.max_json_chars == self.max_json_chars,
    {
        DglabWsServerConfig {
            bind_addr: self.bind_addr.clone(),
            controller_id: self.controller_id.clone(),
            max_json_chars: self.max_json_chars,
        }
    }
}

impl DglabWsServerConfig {
    pub fn new(bind_addr: &str, controller_id: &str) -> (r: DglabWsServerConfig)
        ensures
            r.bind_addr@ == bind_addr@,
            r.controller_id@ == controller_id@,
            r.max_json_chars == MAX_JSON_CHARS,
    {
        DglabWsServerConfig {
            bind_addr: bind_addr.to_owned(),
            controller_id: controller_id.to_owned(),
            max_json_chars: MAX_JSON_CHARS,
        }
    }
}

#[derive(Debug)]
pub struct DglabWsServerStatus {
    pub listening: bool,
    pub bind_addr: String,
    pub controller_id: String,
    pub app_id: Option<String>,
    pub app_bound: bool,
    pub last_info: String,
}

/// What a status says.
#[verifier::ext_equal]
pub struct StatusView {
    pub listening: bool,
    pub bind_addr: Seq<char>,
    pub controller_id: Seq<char>,
    pub app_id: Option<Seq<char>>,
    pub app_bound: bool,
    pub last_info: Seq<char>,
}

impl StatusView {
    /// The status with another app, binding and message.
    pub open spec fn with(self, app_id: Option<Seq<char>>, app_bound: bool, last_info: Seq<char>) -> StatusView {
        StatusView { app_id, app_bound, last_info, ..self }
    }
}

impl View for DglabWsServerStatus {
    type V = StatusView;

    open spec fn view(&self) -> StatusView {
        StatusView {
            listening: self.listening,
            bind_addr: self.bind_addr@,
            controller_id: self.controller_id@,
            app_id: text::optional_text(self.app_id),
            app_bound: self.app_bound,
            last_info: self.last_info@,
        }
    }
}

impl Clone for DglabWsServerStatus {
    fn clone(&self) -> (r: DglabWsServerStatus)
        ensures
            r@ == self@,
    {
        DglabWsServerStatus {
            listening: self.listening,
            bind_addr: self.bind_addr.clone(),
            controller_id: self.controller_id.clone(),
            app_id: match &self.app_id {
                Some(id) => Some(id.clone()),
                None => None,
            },
            app_bound: self.app_bound,
            last_info: self.last_info.clone(),
        }
    }
}

impl DglabWsServerStatus {
    /// The status of a server that has not been started.
    pub fn new(config: &DglabWsServerConfig) -> (r: DglabWsServerStatus)
        ensures
            r@ == (StatusView {
                listening: false,
                bind_addr: config.bind_addr@,
                controller_id: config.controller_id@,
                app_id: None,
                app_bound: false,
                last_info: "init"@,
            }),
    {
        DglabWsServerStatus {
            listening: false,
            bind_addr: config.bind_addr.clone(),
            controller_id: config.controller_id.clone(),
            app_id: None,
            app_bound: false,
            last_info: "init".to_owned(),
        }
    }

    fn changed(&self, app_id: Option<&str>, app_bound: bool, last_info: String) -> (r:
        DglabWsServerStatus)
        ensures
            r@ == self@.with(text::some_text(app_id), app_bound, last_info@),
    {
        DglabWsServerStatus {
            listening: self.listening,
            bind_addr: self.bind_addr.clone(),
            controller_id: self.controller_id.clone(),
            app_id: match app_id {
                Some(id) => Some(id.to_owned()),
                None => None,
            },
            app_bound,
            last_info,
        }
    }
}

/// What the server tells its owner.
#[derive(Debug)]
pub enum DglabWsServerEvent {
    Connected { app_id: String, requested_path: String, peer_addr: String },
    Bound { app_id: String },
    AppMessage { app_id: String, message: String },
    Disconnected { app_id: String },
}

pub enum EventView {
    Connected { app_id: Seq<char>, requested_path: Seq<char>, peer_addr: Seq<char> },
    Bound { app_id: Seq<char> },
    AppMessage { app_id: Seq<char>, message: Seq<char> },
    Disconnected { app_id: Seq<char> },
}

impl View for DglabWsServerEvent {
    type V = EventView;

    open spec fn view(&self) -> EventView {
        match self {
            DglabWsServerEvent::Connected { app_id, requested_path, peer_addr } => {
                EventView::Connected {
                    app_id: app_id@,
                    requested_path: requested_path@,
                    peer_addr: peer_addr@,
                }
            },
            DglabWsServerEvent::Bound { app_id } => EventView::Bound { app_id: app_id@ },
            DglabWsServerEvent::AppMessage { app_id, message } => EventView::AppMessage {
                app_id: app_id@,
                message: message@,
            },
            DglabWsServerEvent::Disconnected { app_id } => EventView::Disconnected {
                app_id: app_id@,
            },
        }
    }
}

/// One thing to do on behalf of the server, in the order given.
#[derive(Debug)]
pub enum ServerAction {
    /// Make this the server's status and publish it.
    Publish(DglabWsServerStatus),
    Emit(DglabWsServerEvent),
    Send(SocketPacket),
    /// Answer the ping with its own payload.
    Pong,
    /// Send a close frame; a failure is of no consequence.
    Close,
}

pub enum ActionView {
    Publish(StatusView),
    Emit(EventView),
    Send(PacketView),
    Pong,
    Close,
}

impl View for ServerAction {
    type V = ActionView;

    open spec fn view(&self) -> ActionView {
        match self {
            ServerAction::Publish(status) => ActionView::Publish(status@),
            ServerAction::Emit(event) => ActionView::Emit(event@),
            ServerAction::Send(packet) => ActionView::Send(packet@),
            ServerAction::Pong => ActionView::Pong,
            ServerAction::Close => ActionView::Close,
        }
    }
}

pub open spec fn action_views(actions: Seq<ServerAction>) -> Seq<ActionView> {
    Seq::new(actions.len(), |i: int| actions[i]@)
}

/// The connection of one app.
#[derive(Debug)]
pub struct AppConnection {
    pub app_id: String,
    pub bound: bool,
}

/// What happens to a connection.
#[derive(Debug)]
pub enum ServerInput {
    /// The heartbeat is due.
    Tick,
    /// The owner has a message for the app.
    Outbound(String),
    /// No more messages can come from the owner.
    OutboundClosed,
    /// A text frame, with the packet in it if it is one.
    Text { text: String, packet: Option<SocketPacket> },
    Ping,
    /// A close frame.
    Closed,
    /// A binary, pong or raw frame.
    Other,
    /// Reading failed or came to an end.
    Lost,
}

pub enum InputView {
    Tick,
    Outbound(Seq<char>),
    OutboundClosed,
    Text { text: Seq<char>, packet: Option<PacketView> },
    Ping,
    Closed,
    Other,
    Lost,
}

pub open spec fn optional_packet(packet: Option<SocketPacket>) -> Option<PacketView> {
    match packet {
        Some(p) => Some(p@),
        None => None,
    }
}

impl View for ServerInput {
    type V = InputView;

    open spec fn view(&self) -> InputView {
        match self {
            ServerInput::Tick => InputView::Tick,
            ServerInput::Outbound(message) => InputView::Outbound(message@),
            ServerInput::OutboundClosed => InputView::OutboundClosed,
            ServerInput::Text { text, packet } => InputView::Text {
                text: text@,
                packet: optional_packet(*packet),
            },
            ServerInput::Ping => InputView::Ping,
            ServerInput::Closed => InputView::Closed,
            ServerInput::Other => InputView::Other,
            ServerInput::Lost => InputView::Lost,
        }
    }
}

/// What a failed send means for the connection.
#[derive(Debug, Clone, Copy, PartialEq, Eq, Structural)]
pub enum SendFailure {
    /// The connection ends as if the app had left.
    Leave,
    /// The connection ends with the error.
    Fail,
}

/// What to do about an input, and whether to go on.
#[derive(Debug)]
pub struct ServerStep {
    pub actions: Vec<ServerAction>,
    pub keep: bool,
    pub on_send_failure: SendFailure,
}

/// A step, with the binding that it leaves behind.
#[verifier::ext_equal]
pub struct StepView {
    pub actions: Seq<ActionView>,
    pub keep: bool,
    pub on_send_failure: SendFailure,
    pub bound: bool,
}

/// What the decisions depend on besides the input.
pub struct Session {
    pub controller_id: Seq<char>,
    pub max_json_chars: nat,
    pub status: StatusView,
    pub app_id: Seq<char>,
    pub bound: bool,
}

impl Session {
    /// The packet goes between the controller and the app, in either direction.
    pub open spec fn is_pair(self, client_id: Seq<char>, target_id: Seq<char>) -> bool {
        (client_id == self.controller_id && target_id == self.app_id) || (client_id == self.app_id
            && target_id == self.controller_id)
    }

    pub open spec fn answer(self, packet: PacketView) -> StepView {
        StepView {
            actions: seq![ActionView::Send(packet)],
            keep: true,
            on_send_failure: SendFailure::Fail,
            bound: self.bound,
        }
    }

    /// An error packet with the code.
    pub open spec fn refuse(self, code: Seq<char>) -> StepView {
        self.answer(PacketView::of(PacketType::Error, self.app_id, self.controller_id, code))
    }

    /// A bind packet with the code.
    pub open spec fn bind_code(self, code: Seq<char>) -> StepView {
        self.answer(PacketView::of(PacketType::Bind, self.controller_id, self.app_id, code))
    }

    pub open spec fn quiet(self, keep: bool, on_send_failure: SendFailure) -> StepView {
        StepView { actions: seq![], keep, on_send_failure, bound: self.bound }
    }

    pub open spec fn heartbeat(self) -> PacketView {
        PacketView::of(PacketType::Heartbeat, self.app_id, self.controller_id, "200"@)
    }

    /// The step on a complete packet.
    pub open spec fn on_packet(self, packet: PacketView) -> StepView {
        let pair = self.is_pair(packet.client_id, packet.target_id);
        match packet.kind() {
            Some(PacketType::Bind) => if packet.message != "DGLAB"@ {
                self.bind_code("210"@)
            } else if !pair {
                self.bind_code("401"@)
            } else {
                StepView {
                    actions: seq![
                        ActionView::Publish(
                            self.status.with(self.status.app_id, true, "bound (200)"@),
                        ),
                        ActionView::Emit(EventView::Bound { app_id: self.app_id }),
                        ActionView::Send(
                            PacketView::of(
                                PacketType::Bind,
                                self.controller_id,
                                self.app_id,
                                "200"@,
                            ),
                        ),
                    ],
                    keep: true,
                    on_send_failure: SendFailure::Fail,
                    bound: true,
                }
            },
            Some(PacketType::Heartbeat) => self.answer(self.heartbeat()),
            Some(PacketType::Msg) => if !self.bound || !pair {
                self.bind_code("402"@)
            } else {
                StepView {
                    actions: seq![
                        ActionView::Emit(
                            EventView::AppMessage { app_id: self.app_id, message: packet.message },
                        ),
                    ],
                    ..self.quiet(true, SendFailure::Fail)
                }
            },
            Some(PacketType::Break) => self.quiet(false, SendFailure::Fail),
            Some(PacketType::Error) => self.quiet(true, SendFailure::Fail),
            None => self.refuse("403"@),
        }
    }

    /// The step on a text frame: too long a text is refused before it is
    /// looked at, then what is no packet or has a blank part.
    pub open spec fn on_text(self, text: Seq<char>, packet: Option<PacketView>) -> StepView {
        if text.len() > self.max_json_chars {
            self.refuse("405"@)
        } else {
            match packet {
                Some(p) => if p.complete() {
                    self.on_packet(p)
                } else {
                    self.refuse("403"@)
                },
                None => self.refuse("403"@),
            }
        }
    }

    /// The step on any input.
    pub open spec fn on_input(self, input: InputView) -> StepView {
        match input {
            InputView::Tick => StepView {
                actions: seq![ActionView::Send(self.heartbeat())],
                ..self.quiet(true, SendFailure::Leave)
            },
            InputView::Outbound(message) => if self.bound {
                StepView {
                    actions: seq![
                        ActionView::Send(
                            PacketView::of(
                                PacketType::Msg,
                                self.controller_id,
                                self.app_id,
                                message,
                            ),
                        ),
                    ],
                    ..self.quiet(true, SendFailure::Leave)
                }
            } else {
                self.quiet(true, SendFailure::Leave)
            },
            InputView::OutboundClosed => self.quiet(false, SendFailure::Leave),
            InputView::Text { text, packet } => self.on_text(text, packet),
            InputView::Ping => StepView {
                actions: seq![ActionView::Pong],
                ..self.quiet(true, SendFailure::Fail)
            },
            InputView::Closed => self.quiet(false, SendFailure::Leave),
            InputView::Other => self.quiet(true, SendFailure::Leave),
            InputView::Lost => self.quiet(false, SendFailure::Leave),
        }
    }

    /// What follows the handshake: the app is reported and told its id; one
    /// that asked for another session is turned away.
    pub open spec fn opening(self, requested_path: Seq<char>, peer_addr: Seq<char>) -> Seq<
        ActionView,
    > {
        let greeting = seq![
            ActionView::Emit(
                EventView::Connected { app_id: self.app_id, requested_path, peer_addr },
            ),
            ActionView::Publish(
                self.status.with(Some(self.app_id), false, "connected from "@ + peer_addr),
            ),
            ActionView::Send(PacketView::of(PacketType::Bind, self.app_id, ""@, "targetId"@)),
        ];
        if self.asked_for_this(requested_path) {
            greeting
        } else {
            greeting + seq![
                ActionView::Send(
                    PacketView::of(PacketType::Bind, self.controller_id, self.app_id, "210"@),
                ),
                ActionView::Close,
                ActionView::Publish(self.status.with(None, false, "invalid session id (210)"@)),
            ]
        }
    }

    /// The path names the controller's session, slashes around it aside.
    pub open spec fn asked_for_this(self, requested_path: Seq<char>) -> bool {
        text::trim(requested_path, CharClass::Only('/')) == self.controller_id
    }

    /// What follows the end of a connection.
    pub open spec fn closing(self) -> Seq<ActionView> {
        seq![
            ActionView::Emit(EventView::Disconnected { app_id: self.app_id }),
            ActionView::Publish(self.status.with(None, false, "disconnected"@)),
        ]
    }
}

/// A connection after the handshake.
#[derive(Debug)]
pub struct Opening {
    pub connection: AppConnection,
    /// Whether the connection is to be served.
    pub accepted: bool,
    pub actions: Vec<ServerAction>,
}

/// The server: its settings and its status.
#[derive(Debug)]
pub struct DglabWsServer {
    pub config: DglabWsServerConfig,
    pub status: DglabWsServerStatus,
}

impl DglabWsServer {
    /// What the server's decisions about a connection depend on.
    pub open spec fn session(self, app_id: Seq<char>, bound: bool) -> Session {
        Session {
            controller_id: self.config.controller_id@,
            max_json_chars: self.config.max_json_chars as nat,
            status: self.status@,
            app_id,
            bound,
        }
    }

    pub fn new(config: DglabWsServerConfig) -> (r: DglabWsServer)
        ensures
            r.config == config,
            r.status@ == (StatusView {
                listening: false,
                bind_addr: config.bind_addr@,
                controller_id: config.controller_id@,
                app_id: None,
                app_bound: false,
                last_info: "init"@,
            }),
    {
        let status = DglabWsServerStatus::new(&config);
        DglabWsServer { config, status }
    }

    /// The listening socket is open.
    pub fn set_listening(&mut self)
        ensures
            final(self).config == old(self).config,
            final(self).status@ == (StatusView {
                listening: true,
                last_info: "listening"@,
                ..old(self).status@
            }),
    {
        self.status.listening = true;
        self.status.last_info = "listening".to_owned();
    }

    /// A connection has ended with an error.
    pub fn set_connection_error(&mut self, error: &str)
        ensures
            final(self).config == old(self).config,
            final(self).status@ == (StatusView {
                last_info: "connection error: "@ + error@,
                ..old(self).status@
            }),
    {
        let mut info = "connection error: ".to_owned();
        info.append(error);
        self.status.last_info = info;
    }

    /// Makes a status that an action carries the server's own.
    pub fn update_status(&mut self, status: DglabWsServerStatus)
        ensures
            final(self).config == old(self).config,
            final(self).status@ == status@,
    {
        self.status = status;
    }

    pub fn is_controller_app_pair(&self, client_id: &str, target_id: &str, app_id: &str) -> (r: bool)
        ensures
            r == self.session(app_id@, false).is_pair(client_id@, target_id@),
    {
        let controller_id = self.config.controller_id.as_str();
        (same_text(client_id, controller_id) && same_text(target_id, app_id)) || (same_text(
            client_id,
            app_id,
        ) && same_text(target_id, controller_id))
    }

    /// Takes up a connection under the given id.
    pub fn open_connection_as(&self, app_id: &str, requested_path: &str, peer_addr: &str) -> (r:
        Opening)
        ensures
            r.connection.app_id@ == app_id@,
            !r.connection.bound,
            r.accepted == self.session(app_id@, false).asked_for_this(requested_path@),
            action_views(r.actions@) == self.session(app_id@, false).opening(
                requested_path@,
                peer_addr@,
            ),
    {
        let controller_id = self.config.controller_id.as_str();
        let accepted = same_text(
            trim_matches(requested_path, CharClass::Only('/')),
            controller_id,
        );
        let mut info = "connected from ".to_owned();
        info.append(peer_addr);
        let mut actions: Vec<ServerAction> = Vec::new();
        actions.push(
            ServerAction::Emit(
                DglabWsServerEvent::Connected {
                    app_id: app_id.to_owned(),
                    requested_path: requested_path.to_owned(),
                    peer_addr: peer_addr.to_owned(),
                },
            ),
        );
        actions.push(ServerAction::Publish(self.status.changed(Some(app_id), false, info)));
        actions.push(ServerAction::Send(SocketPacket::bind_assign_current_id(app_id)));
        if !accepted {
            actions.push(
                ServerAction::Send(
                    SocketPacket::bind_result(controller_id, app_id, CODE_QR_CLIENT_ID_INVALID),
                ),
            );
            actions.push(ServerAction::Close);
            actions.push(
                ServerAction::Publish(
                    self.status.changed(None, false, "invalid session id (210)".to_owned()),
                ),
            );
        }
        let r = Opening {
            connection: AppConnection { app_id: app_id.to_owned(), bound: false },
            accepted,
            actions,
        };
        assert(action_views(r.actions@) =~= self.session(app_id@, false).opening(
            requested_path@,
            peer_addr@,
        ));
        r
    }

    /// Takes up a connection under a new id.
    pub fn open_connection(&self, requested_path: &str, peer_addr: &str) -> (r: Opening)
        ensures
            session_id::is_session_id(r.connection.app_id@),
            !r.connection.bound,
            r.accepted == self.session(r.connection.app_id@, false).asked_for_this(requested_path@),
            action_views(r.actions@) == self.session(r.connection.app_id@, false).opening(
                requested_path@,
                peer_addr@,
            ),
    {
        let app_id = new_session_id();
        self.open_connection_as(app_id.as_str(), requested_path, peer_addr)
    }

    /// Lets a connection go.
    pub fn close_connection(&self, connection: &AppConnection) -> (r: Vec<ServerAction>)
        ensures
            action_views(r@) == self.session(connection.app_id@, connection.bound).closing(),
    {
        let mut actions: Vec<ServerAction> = Vec::new();
        actions.push(
            ServerAction::Emit(
                DglabWsServerEvent::Disconnected { app_id: connection.app_id.clone() },
            ),
        );
        actions.push(
            ServerAction::Publish(self.status.changed(None, false, "disconnected".to_owned())),
        );
        assert(action_views(actions@) =~= self.session(
            connection.app_id@,
            connection.bound,
        ).closing());
        actions
    }
}

/// One packet to send, and on with the connection.
fn answer(packet: SocketPacket, on_send_failure: SendFailure) -> (r: ServerStep)
    ensures
        action_views(r.actions@) == seq![ActionView::Send(packet@)],
        r.keep,
        r.on_send_failure == on_send_failure,
{
    let mut actions: Vec<ServerAction> = Vec::new();
    actions.push(ServerAction::Send(packet));
    assert(action_views(actions@) =~= seq![ActionView::Send(packet@)]);
    ServerStep { actions, keep: true, on_send_failure }
}

/// Nothing to do.
fn quiet(keep: bool, on_send_failure: SendFailure) -> (r: ServerStep)
    ensures
        action_views(r.actions@) == Seq::<ActionView>::empty(),
        r.keep == keep,
        r.on_send_failure == on_send_failure,
{
    let actions: Vec<ServerAction> = Vec::new();
    assert(action_views(actions@) =~= Seq::<ActionView>::empty());
    ServerStep { actions, keep, on_send_failure }
}

/// Whether a step is the expected one.
pub open spec fn is_step(step: ServerStep, bound: bool, expected: StepView) -> bool {
    &&& action_views(step.actions@) == expected.actions
    &&& step.keep == expected.keep
    &&& step.on_send_failure == expected.on_send_failure
    &&& bound == expected.bound
}

impl DglabWsServer {
    fn handle_packet(&self, connection: &mut AppConnection, packet: SocketPacket) -> (r: ServerStep)
        ensures
            final(connection).app_id@ == old(connection).app_id@,
            is_step(
                r,
                final(connection).bound,
                self.session(old(connection).app_id@, old(connection).bound).on_packet(packet@),
            ),
    {
        let ghost session = self.session(connection.app_id@, connection.bound);
        let controller_id = self.config.controller_id.as_str();
        let pair = self.is_controller_app_pair(
            packet.client_id.as_str(),
            packet.target_id.as_str(),
            connection.app_id.as_str(),
        );
        let kind = packet.kind();
        match kind {
            Some(PacketType::Bind) => {
                let app_id = connection.app_id.as_str();
                if !same_text(packet.message.as_str(), MESSAGE_DGLAB) {
                    return answer(
                        SocketPacket::bind_result(controller_id, app_id, CODE_QR_CLIENT_ID_INVALID),
                        SendFailure::Fail,
                    );
                }
                if !pair {
                    return answer(
                        SocketPacket::bind_result(controller_id, app_id, CODE_BIND_TARGET_NOT_FOUND),
                        SendFailure::Fail,
                    );
                }
                let mut actions: Vec<ServerAction> = Vec::new();
                let mut status = self.status.clone();
                status.app_bound = true;
                status.last_info = "bound (200)".to_owned();
                actions.push(ServerAction::Publish(status));
                actions.push(
                    ServerAction::Emit(DglabWsServerEvent::Bound { app_id: app_id.to_owned() }),
                );
                actions.push(
                    ServerAction::Send(SocketPacket::bind_result(controller_id, app_id, CODE_OK)),
                );
                assert(action_views(actions@) =~= session.on_packet(packet@).actions);
                connection.bound = true;
                ServerStep { actions, keep: true, on_send_failure: SendFailure::Fail }
            },
            Some(PacketType::Heartbeat) => answer(
                SocketPacket::heartbeat(connection.app_id.as_str(), controller_id, CODE_OK),
                SendFailure::Fail,
            ),
            Some(PacketType::Msg) => {
                if !connection.bound || !pair {
                    return answer(
                        SocketPacket::bind_result(
                            controller_id,
                            connection.app_id.as_str(),
                            CODE_NOT_BOUND,
                        ),
                        SendFailure::Fail,
                    );
                }
                let mut actions: Vec<ServerAction> = Vec::new();
                actions.push(
                    ServerAction::Emit(
                        DglabWsServerEvent::AppMessage {
                            app_id: connection.app_id.clone(),
                            message: packet.message.clone(),
                        },
                    ),
                );
                assert(action_views(actions@) =~= session.on_packet(packet@).actions);
                ServerStep { actions, keep: true, on_send_failure: SendFailure::Fail }
            },
            Some(PacketType::Break) => quiet(false, SendFailure::Fail),
            Some(PacketType::Error) => quiet(true, SendFailure::Fail),
            None => answer(
                SocketPacket::error(connection.app_id.as_str(), controller_id, CODE_INVALID_JSON),
                SendFailure::Fail,
            ),
        }
    }

    /// Handles a text frame; `packet` is the packet in it, if it is one.
    pub fn handle_text_frame(
        &self,
        connection: &mut AppConnection,
        text: &str,
        packet: Option<SocketPacket>,
    ) -> (r: ServerStep)
        ensures
            final(connection).app_id@ == old(connection).app_id@,
            is_step(
                r,
                final(connection).bound,
                self.session(old(connection).app_id@, old(connection).bound).on_text(
                    text@,
                    optional_packet(packet),
                ),
            ),
    {
        let controller_id = self.config.controller_id.as_str();
        if text.unicode_len() > self.config.max_json_chars {
            return answer(
                SocketPacket::error(connection.app_id.as_str(), controller_id, CODE_MESSAGE_TOO_LONG),
                SendFailure::Fail,
            );
        }
        match packet {
            Some(p) => if p.has_required_non_empty_values() {
                self.handle_packet(connection, p)
            } else {
                answer(
                    SocketPacket::error(
                        connection.app_id.as_str(),
                        controller_id,
                        CODE_INVALID_JSON,
                    ),
                    SendFailure::Fail,
                )
            },
            None => answer(
                SocketPacket::error(connection.app_id.as_str(), controller_id, CODE_INVALID_JSON),
                SendFailure::Fail,
            ),
        }
    }

    /// Serves one input of an open connection.
    pub fn serve_connection(&self, connection: &mut AppConnection, input: ServerInput) -> (r:
        ServerStep)
        ensures
            final(connection).app_id@ == old(connection).app_id@,
            is_step(
                r,
                final(connection).bound,
                self.session(old(connection).app_id@, old(connection).bound).on_input(input@),
            ),
    {
        let controller_id = self.config.controller_id.as_str();
        match input {
            ServerInput::Tick => answer(
                SocketPacket::heartbeat(connection.app_id.as_str(), controller_id, CODE_OK),
                SendFailure::Leave,
            ),
            ServerInput::Outbound(message) => if connection.bound {
                answer(
                    SocketPacket::msg(
                        controller_id,
                        connection.app_id.as_str(),
                        message.as_str(),
                    ),
                    SendFailure::Leave,
                )
            } else {
                quiet(true, SendFailure::Leave)
            },
            ServerInput::OutboundClosed => quiet(false, SendFailure::Leave),
            ServerInput::Text { text, packet } => self.handle_text_frame(
                connection,
                text.as_str(),
                packet,
            ),
            ServerInput::Ping => {
                let mut actions: Vec<ServerAction> = Vec::new();
                actions.push(ServerAction::Pong);
                assert(action_views(actions@) =~= seq![ActionView::Pong]);
                ServerStep { actions, keep: true, on_send_failure: SendFailure::Fail }
            },
            ServerInput::Closed => quiet(false, SendFailure::Leave),
            ServerInput::Other => quiet(true, SendFailure::Leave),
            ServerInput::Lost => quiet(false, SendFailure::Leave),
        }
    }
}

/// An app gets bound by one thing only: a complete bind packet, not too long,
/// with the right message and the ids of the controller and the app.
pub proof fn law_only_a_matching_bind_binds(session: Session, input: InputView)
    requires
        !session.bound,
    ensures
        session.on_input(input).bound <==> {
            &&& input matches InputView::Text { text, packet: Some(p) }
            &&& text.len() <= session.max_json_chars
            &&& p.complete()
            &&& p.kind() == Some(PacketType::Bind)
            &&& p.message == "DGLAB"@
            &&& session.is_pair(p.client_id, p.target_id)
        },
{
}

/// A bound app stays bound for as long as its connection lasts.
pub proof fn law_binding_lasts(session: Session, input: InputView)
    requires
        session.bound,
    ensures
        session.on_input(input).bound,
{
}

/// A complete bind packet is answered 200 if it asks for the pairing and names
/// both ends, 401 if it names others, and 210 if it asks for anything else.
pub proof fn law_bind_is_answered(session: Session, text: Seq<char>, packet: PacketView)
    requires
        text.len() <= session.max_json_chars,
        packet.complete(),
        packet.kind() == Some(PacketType::Bind),
    ensures
        ({
            let step = session.on_text(text, Some(packet));
            let code = if packet.message != "DGLAB"@ {
                "210"@
            } else if !session.is_pair(packet.client_id, packet.target_id) {
                "401"@
            } else {
                "200"@
            };
            &&& step.keep
            &&& step.actions.len() > 0
            &&& step.actions.last() == ActionView::Send(
                PacketView::of(PacketType::Bind, session.controller_id, session.app_id, code),
            )
        }),
{
}

/// A heartbeat is answered with a heartbeat, whether or not the app is bound.
pub proof fn law_heartbeat_is_answered(session: Session, text: Seq<char>, packet: PacketView)
    requires
        text.len() <= session.max_json_chars,
        packet.complete(),
        packet.kind() == Some(PacketType::Heartbeat),
    ensures
        session.on_text(text, Some(packet)) == session.answer(
            PacketView::of(
                PacketType::Heartbeat,
                session.app_id,
                session.controller_id,
                "200"@,
            ),
        ),
{
}

/// The pairing runs through: an app that asks for the right session is told its
/// id, and once it answers with that id and the session's it is bound and told
/// so.
pub proof fn law_pairing_runs_through(
    session: Session,
    requested_path: Seq<char>,
    peer_addr: Seq<char>,
    text: Seq<char>,
)
    requires
        session.asked_for_this(requested_path),
        text.len() <= session.max_json_chars,
        text::trimmed(session.controller_id).len() > 0,
        text::trimmed(session.app_id).len() > 0,
    ensures
        session.opening(requested_path, peer_addr).last() == ActionView::Send(
            PacketView::of(PacketType::Bind, session.app_id, ""@, "targetId"@),
        ),
        ({
            let reply = PacketView::of(
                PacketType::Bind,
                session.controller_id,
                session.app_id,
                "DGLAB"@,
            );
            let step = session.on_text(text, Some(reply));
            &&& step.bound
            &&& step.keep
            &&& step.actions.last() == ActionView::Send(
                PacketView::of(PacketType::Bind, session.controller_id, session.app_id, "200"@),
            )
        }),
{
    let reply = PacketView::of(PacketType::Bind, session.controller_id, session.app_id, "DGLAB"@);
    protocol::law_packet_kind(
        PacketType::Bind,
        session.controller_id,
        session.app_id,
        "DGLAB"@,
    );
    reveal_strlit("bind");
    reveal_strlit("DGLAB");
    let name = "bind"@;
    let message = "DGLAB"@;
    assert(!text::is_space(name[0]) && !text::is_space(name.last()));
    assert(text::trimmed(name) == name);
    assert(!text::is_space(message[0]) && !text::is_space(message.last()));
    assert(text::trimmed(message) == message);
    assert(reply.complete());
    law_bind_is_answered(session, text, reply);
}

/// While an app is connected, a published status names it and says that it is
/// bound; the status after its leaving names none.
pub proof fn law_status_tells_the_binding(session: Session, input: InputView, i: int)
    requires
        session.status.app_id == Some(session.app_id),
        0 <= i < session.on_input(input).actions.len(),
    ensures
        session.on_input(input).actions[i] matches ActionView::Publish(status) ==> {
            &&& status.app_id == Some(session.app_id)
            &&& status.app_bound
            &&& session.on_input(input).bound
        },
        session.closing().last() matches ActionView::Publish(status) && status.app_id is None
            && !status.app_bound,
{
}

/// A message of an app that is not bound, or with other ids, is answered 402
/// and goes no further.
pub proof fn law_unbound_message_is_refused(session: Session, text: Seq<char>, packet: PacketView)
    requires
        text.len() <= session.max_json_chars,
        packet.complete(),
        packet.kind() == Some(PacketType::Msg),
        !session.bound || !session.is_pair(packet.client_id, packet.target_id),
    ensures
        session.on_text(text, Some(packet)) == session.bind_code("402"@),
{
}

/// Too long a frame is answered 405, whatever it holds.
pub proof fn law_long_frame_is_refused(session: Session, text: Seq<char>, packet: Option<PacketView>)
    requires
        text.len() > session.max_json_chars,
    ensures
        session.on_text(text, packet) == session.refuse("405"@),
{
}

/// A frame that is no packet, has a blank part or is of no known kind is
/// answered 403.
pub proof fn law_malformed_frame_is_refused(
    session: Session,
    text: Seq<char>,
    packet: Option<PacketView>,
)
    requires
        text.len() <= session.max_json_chars,
        packet matches Some(p) ==> !p.complete() || p.kind() is None,
    ensures
        session.on_text(text, packet) == session.refuse("403"@),
{
}

/// The owner hears of app messages only from a bound app, and sends messages
/// only to one.
pub proof fn law_messages_need_a_binding(session: Session, input: InputView, i: int)
    requires
        0 <= i < session.on_input(input).actions.len(),
        !session.bound,
    ensures
        match session.on_input(input).actions[i] {
            ActionView::Emit(event) => !(event is AppMessage),
            ActionView::Send(packet) => packet.packet_type != PacketType::Msg.name(),
            _ => true,
        },
{
    reveal_strlit("heartbeat");
    reveal_strlit("bind");
    reveal_strlit("msg");
    reveal_strlit("error");
    assert("heartbeat"@.len() == 9 && "bind"@.len() == 4 && "msg"@.len() == 3 && "error"@.len() == 5);
}

/// Whatever comes, a packet goes to the app and names it and the controller.
pub proof fn law_packets_name_both_ends(session: Session, input: InputView, i: int)
    requires
        0 <= i < session.on_input(input).actions.len(),
    ensures
        session.on_input(input).actions[i] matches ActionView::Send(packet) ==> session.is_pair(
            packet.client_id,
            packet.target_id,
        ),
{
}

/// A text frame ends the connection exactly when it holds a complete break
/// packet that is not too long.
pub proof fn law_only_a_break_ends(session: Session, text: Seq<char>, packet: Option<PacketView>)
    ensures
        !session.on_text(text, packet).keep <==> {
            &&& text.len() <= session.max_json_chars
            &&& packet matches Some(p)
            &&& p.complete()
            &&& p.kind() == Some(PacketType::Break)
        },
{
}

/// The path that a control address names is accepted by the server of that
/// session.
pub proof fn law_paired_path_is_accepted(session: Session, ws_url: Seq<char>)
    requires
        pairing::control_url_in(ws_url) is Some,
        session.controller_id == pairing::control_url_in(ws_url)->0.session_id,
    ensures
        session.asked_for_this("/"@ + pairing::url_in(ws_url)->0.path),
{
    reveal_strlit("/");
    let path = pairing::url_in(ws_url)->0.path;
    let requested = "/"@ + path;
    assert(requested[0] == '/');
    assert(requested.drop_first() =~= path);
}

/// A complete message packet that is not too long, on a bound connection and with
/// the ids of the controller and the app in either order, is handed on as it is
/// and nothing else happens.
pub proof fn law_app_message_is_handed_on(session: Session, text: Seq<char>, packet: PacketView)
    requires
        session.bound,
        text.len() <= session.max_json_chars,
        packet.complete(),
        text::trimmed(packet.packet_type) == "msg"@,
        (packet.client_id == session.controller_id && packet.target_id == session.app_id) || (
        packet.client_id == session.app_id && packet.target_id == session.controller_id),
    ensures
        ({
            let step = session.on_input(InputView::Text { text, packet: Some(packet) });
            &&& step.actions == seq![
                ActionView::Emit(
                    EventView::AppMessage { app_id: session.app_id, message: packet.message },
                ),
            ]
            &&& step.keep
            &&& step.bound
            &&& step.on_send_failure == SendFailure::Fail
        }),
{
    protocol::law_kinds_have_their_words(packet);
}

/// A complete message packet from elsewhere, or before the binding, is answered
/// 402 under the two ids and goes no further.
pub proof fn law_other_messages_are_answered_402(
    session: Session,
    text: Seq<char>,
    packet: PacketView,
)
    requires
        text.len() <= session.max_json_chars,
        packet.complete(),
        text::trimmed(packet.packet_type) == "msg"@,
        !session.bound || !((packet.client_id == session.controller_id && packet.target_id
            == session.app_id) || (packet.client_id == session.app_id && packet.target_id
            == session.controller_id)),
    ensures
        ({
            let step = session.on_input(InputView::Text { text, packet: Some(packet) });
            &&& step.actions == seq![
                ActionView::Send(
                    PacketView {
                        packet_type: "bind"@,
                        client_id: session.controller_id,
                        target_id: session.app_id,
                        message: "402"@,
                    },
                ),
            ]
            &&& step.keep
            &&& step.bound == session.bound
            &&& step.on_send_failure == SendFailure::Fail
        }),
{
    protocol::law_kinds_have_their_words(packet);
}

/// A complete bind packet that asks for the pairing, with both ids in either
/// order, binds: the status is published with the binding and nothing else
/// changed, the owner is told, and the app is answered 200.
pub proof fn law_matching_bind_tells_everybody(
    session: Session,
    text: Seq<char>,
    packet: PacketView,
)
    requires
        text.len() <= session.max_json_chars,
        packet.complete(),
        text::trimmed(packet.packet_type) == "bind"@,
        packet.message == "DGLAB"@,
        (packet.client_id == session.controller_id && packet.target_id == session.app_id) || (
        packet.client_id == session.app_id && packet.target_id == session.controller_id),
    ensures
        ({
            let step = session.on_input(InputView::Text { text, packet: Some(packet) });
            &&& step.actions == seq![
                ActionView::Publish(
                    StatusView {
                        listening: session.status.listening,
                        bind_addr: session.status.bind_addr,
                        controller_id: session.status.controller_id,
                        app_id: session.status.app_id,
                        app_bound: true,
                        last_info: "bound (200)"@,
                    },
                ),
                ActionView::Emit(EventView::Bound { app_id: session.app_id }),
                ActionView::Send(
                    PacketView {
                        packet_type: "bind"@,
                        client_id: session.controller_id,
                        target_id: session.app_id,
                        message: "200"@,
                    },
                ),
            ]
            &&& step.keep
            &&& step.bound
            &&& step.on_send_failure == SendFailure::Fail
        }),
{
    protocol::law_kinds_have_their_words(packet);
}

/// A complete bind packet that asks for anything else is answered 210, one with
/// other ids 401; neither changes the binding.
pub proof fn law_other_binds_change_nothing(session: Session, text: Seq<char>, packet: PacketView)
    requires
        text.len() <= session.max_json_chars,
        packet.complete(),
        text::trimmed(packet.packet_type) == "bind"@,
        packet.message != "DGLAB"@ || !((packet.client_id == session.controller_id
            && packet.target_id == session.app_id) || (packet.client_id == session.app_id
            && packet.target_id == session.controller_id)),
    ensures
        ({
            let step = session.on_input(InputView::Text { text, packet: Some(packet) });
            &&& step.actions == seq![
                ActionView::Send(
                    PacketView {
                        packet_type: "bind"@,
                        client_id: session.controller_id,
                        target_id: session.app_id,
                        message: if packet.message != "DGLAB"@ {
                            "210"@
                        } else {
                            "401"@
                        },
                    },
                ),
            ]
            &&& step.keep
            &&& step.bound == session.bound
            &&& step.on_send_failure == SendFailure::Fail
        }),
{
    protocol::law_kinds_have_their_words(packet);
}

/// A complete heartbeat is answered with a heartbeat, an error packet with
/// nothing, and a break ends the connection without a word.
pub proof fn law_plain_packets_are_served(session: Session, text: Seq<char>, packet: PacketView)
    requires
        text.len() <= session.max_json_chars,
        packet.complete(),
    ensures
        ({
            let step = session.on_input(InputView::Text { text, packet: Some(packet) });
            let word = text::trimmed(packet.packet_type);
            &&& word == "heartbeat"@ ==> step.keep && step.actions == seq![
                ActionView::Send(
                    PacketView {
                        packet_type: "heartbeat"@,
                        client_id: session.app_id,
                        target_id: session.controller_id,
                        message: "200"@,
                    },
                ),
            ]
            &&& word == "error"@ ==> step.keep && step.actions.len() == 0
            &&& word == "break"@ ==> !step.keep && step.actions.len() == 0
            &&& word == "heartbeat"@ || word == "error"@ || word == "break"@ ==> step.bound
                == session.bound && step.on_send_failure == SendFailure::Fail
        }),
{
    protocol::law_kinds_have_their_words(packet);
}

/// A frame that is too long is answered 405 before anything else, one that is no
/// packet, has a blank part or an unknown kind 403; the connection goes on as it
/// was.
pub proof fn law_bad_frames_are_answered(
    session: Session,
    text: Seq<char>,
    packet: Option<PacketView>,
)
    requires
        text.len() > session.max_json_chars || packet is None || !packet->0.complete() || ({
            let word = text::trimmed(packet->0.packet_type);
            word != "heartbeat"@ && word != "bind"@ && word != "msg"@ && word != "break"@ && word
                != "error"@
        }),
    ensures
        ({
            let step = session.on_input(InputView::Text { text, packet });
            &&& step.actions == seq![
                ActionView::Send(
                    PacketView {
                        packet_type: "error"@,
                        client_id: session.app_id,
                        target_id: session.controller_id,
                        message: if text.len() > session.max_json_chars {
                            "405"@
                        } else {
                            "403"@
                        },
                    },
                ),
            ]
            &&& step.keep
            &&& step.bound == session.bound
            &&& step.on_send_failure == SendFailure::Fail
        }),
{
    if packet is Some {
        protocol::law_kinds_have_their_words(packet->0);
    }
}

/// Without a frame of text: the heartbeat goes out when it is due, a message of
/// the owner goes to a bound app as it is and to no other, a ping is answered,
/// and the connection ends when the app closes it, reading fails or the owner is
/// gone.
pub proof fn law_other_inputs_are_served(session: Session, message: Seq<char>)
    ensures
        session.on_input(InputView::Tick).actions == seq![
            ActionView::Send(
                PacketView {
                    packet_type: "heartbeat"@,
                    client_id: session.app_id,
                    target_id: session.controller_id,
                    message: "200"@,
                },
            ),
        ],
        session.bound ==> session.on_input(InputView::Outbound(message)).actions == seq![
            ActionView::Send(
                PacketView {
                    packet_type: "msg"@,
                    client_id: session.controller_id,
                    target_id: session.app_id,
                    message,
                },
            ),
        ],
        !session.bound ==> session.on_input(InputView::Outbound(message)).actions.len() == 0,
        session.on_input(InputView::Ping).actions == seq![ActionView::Pong],
        session.on_input(InputView::Other).actions.len() == 0,
        session.on_input(InputView::OutboundClosed).actions.len() == 0,
        session.on_input(InputView::Closed).actions.len() == 0,
        session.on_input(InputView::Lost).actions.len() == 0,
        session.on_input(InputView::Tick).keep,
        session.on_input(InputView::Outbound(message)).keep,
        session.on_input(InputView::Ping).keep,
        session.on_input(InputView::Other).keep,
        !session.on_input(InputView::OutboundClosed).keep,
        !session.on_input(InputView::Closed).keep,
        !session.on_input(InputView::Lost).keep,
        session.on_input(InputView::Tick).on_send_failure == SendFailure::Leave,
        session.on_input(InputView::Outbound(message)).on_send_failure == SendFailure::Leave,
        session.on_input(InputView::Ping).on_send_failure == SendFailure::Fail,
{
}

/// A new connection is reported, shown as connected but not bound, and told its
/// id. One that asked for another session is told 210 and closed, and the status
/// names no app any more.
pub proof fn law_openings_are_told(
    session: Session,
    requested_path: Seq<char>,
    peer_addr: Seq<char>,
)
    ensures
        ({
            let shown = StatusView {
                listening: session.status.listening,
                bind_addr: session.status.bind_addr,
                controller_id: session.status.controller_id,
                app_id: Some(session.app_id),
                app_bound: false,
                last_info: "connected from "@ + peer_addr,
            };
            let actions = session.opening(requested_path, peer_addr);
            let refused = text::trim(requested_path, CharClass::Only('/')) != session.controller_id;
            &&& actions.len() == if refused {
                6int
            } else {
                3
            }
            &&& actions[0] == ActionView::Emit(
                EventView::Connected { app_id: session.app_id, requested_path, peer_addr },
            )
            &&& actions[1] == ActionView::Publish(shown)
            &&& actions[2] == ActionView::Send(
                PacketView {
                    packet_type: "bind"@,
                    client_id: session.app_id,
                    target_id: ""@,
                    message: "targetId"@,
                },
            )
            &&& refused ==> actions[3] == ActionView::Send(
                PacketView {
                    packet_type: "bind"@,
                    client_id: session.controller_id,
                    target_id: session.app_id,
                    message: "210"@,
                },
            )
            &&& refused ==> actions[4] == ActionView::Close
            &&& refused ==> actions[5] == ActionView::Publish(
                StatusView { app_id: None, last_info: "invalid session id (210)"@, ..shown },
            )
        }),
{
}

/// A connection is served exactly where the path is the session's id with any
/// slashes around it.
pub proof fn law_slashes_around_the_session_do_not_count(
    session: Session,
    before: Seq<char>,
    id: Seq<char>,
    after: Seq<char>,
)
    requires
        forall|i: int| 0 <= i < before.len() ==> #[trigger] before[i] == '/',
        forall|i: int| 0 <= i < after.len() ==> #[trigger] after[i] == '/',
        id.len() > 0,
        id[0] != '/',
        id.last() != '/',
    ensures
        session.asked_for_this(before + id + after) <==> id == session.controller_id,
{
    let s = before + id + after;
    let k = CharClass::Only('/');
    let from = before.len() as int;
    let to = from + id.len();
    assert forall|i: int| 0 <= i < from implies k.has(#[trigger] s[i]) by {
        assert(s[i] == before[i]);
    }
    assert forall|i: int| to <= i < s.len() implies k.has(#[trigger] s[i]) by {
        assert(s[i] == after[i - to]);
    }
    assert(s[from] == id[0] && s[to - 1] == id.last());
    text::law_trim_leaves_the_middle(s, k, from, to);
    assert(s.subrange(from, to) =~= id);
}

/// The end of a connection is reported, and the status names no app any more.
pub proof fn law_endings_are_told(session: Session)
    ensures
        session.closing() == seq![
            ActionView::Emit(EventView::Disconnected { app_id: session.app_id }),
            ActionView::Publish(
                StatusView {
                    listening: session.status.listening,
                    bind_addr: session.status.bind_addr,
                    controller_id: session.status.controller_id,
                    app_id: None,
                    app_bound: false,
                    last_info: "disconnected"@,
                },
            ),
        ],
{
}

/// The two ends are told apart from everybody else, in either order.
pub proof fn law_the_pair_is_the_controller_and_the_app(
    session: Session,
    client_id: Seq<char>,
    target_id: Seq<char>,
)
    ensures
        session.is_pair(client_id, target_id) == session.is_pair(target_id, client_id),
        session.is_pair(session.controller_id, session.app_id),
        session.is_pair(client_id, target_id) && client_id != session.app_id ==> client_id
            == session.controller_id && target_id == session.app_id,
        session.is_pair(session.app_id, target_id) && session.app_id != session.controller_id
            ==> target_id == session.controller_id,
{
}

/// A connection is judged by the server's own controller and limit, by the app
/// that was given to it, and by whether that one is bound.
pub proof fn law_a_session_is_of_its_server(
    server: DglabWsServer,
    app_id: Seq<char>,
    bound: bool,
)
    ensures
        server.session(app_id, bound).controller_id == server.config.controller_id@,
        server.session(app_id, bound).max_json_chars == server.config.max_json_chars,
        server.session(app_id, bound).status == server.status@,
        server.session(app_id, bound).app_id == app_id,
        server.session(app_id, bound).bound == bound,
{
}

} // verus!
