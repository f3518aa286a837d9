//! The client-side state of a connection to the kernel, the events of the
//! user interface, and the roles a user can pick, with their texts.
use vstd::prelude::*;
use crate::logging::{LogLevel, level_name};
use crate::networking::messages::{UserRole, role_name, HandshakeResponse, TcpClientMessage, TcpServerMessage};
use crate::networking::subscription::{SubscribeTopic, UpdateMode, TopicPayload, DMXConfigurationForClient};
use crate::text::{join, decimal, decimal_string};

verus! {

/// The login state within a connection.
#[derive(Debug)]
pub enum SessionState {
    /// A login request was sent.
    LoginPending,
    /// Connected, nobody logged in.
    LoggedOut,
    /// Logged in.
    LoggedIn,
    /// The login failed, for this reason.
    LoginFailed(String),
}

/// The connection to the kernel.
#[derive(Debug)]
pub enum ConnectionState {
    /// Connected, with the login state.
    Connected { session_state: SessionState },
    /// Not connected.
    Disconnected,
    /// The connection failed.
    Error,
    /// Connecting.
    ConnectionPending,
}

pub open spec fn session_text(s: SessionState) -> Seq<char> {
    match s {
        SessionState::LoginPending => "Login"@,
        SessionState::LoggedOut => "Logout"@,
        SessionState::LoggedIn => "Log in"@,
        SessionState::LoginFailed(m) => "LoginFailed("@ + m@ + ")"@,
    }
}

pub open spec fn connection_text(c: ConnectionState) -> Seq<char> {
    match c {
        ConnectionState::Connected { session_state } => "Connected and "@ + session_text(session_state),
        ConnectionState::Disconnected => "Disconnected"@,
        ConnectionState::Error => "Error"@,
        ConnectionState::ConnectionPending => "Connection Pending"@,
    }
}

impl SessionState {
    /// The state as the interface shows it.
    pub fn text(&self) -> (r: String)
        ensures
            r@ == session_text(*self),
    {
        match self {
            SessionState::LoginPending => "Login".to_owned(),
            SessionState::LoggedOut => "Logout".to_owned(),
            SessionState::LoggedIn => "Log in".to_owned(),
            SessionState::LoginFailed(m) => join(join("LoginFailed(".to_owned(), m.as_str()), ")"),
        }
    }
}

impl ConnectionState {
    /// The state as the interface shows it.
    pub fn text(&self) -> (r: String)
        ensures
            r@ == connection_text(*self),
    {
        match self {
            ConnectionState::Connected { session_state } =>
                join("Connected and ".to_owned(), session_state.text().as_str()),
            ConnectionState::Disconnected => "Disconnected".to_owned(),
            ConnectionState::Error => "Error".to_owned(),
            ConnectionState::ConnectionPending => "Connection Pending".to_owned(),
        }
    }
}

/// An event of the user interface.
#[derive(Debug)]
pub enum UiEvent {
    /// Send a command typed in terminal `id`.
    SendTerminalCommand { id: u32, command: String },
    /// Log in.
    LoginRequest { password: String, user_name: String, user_role: UserRole },
    /// Set the connection state.
    SetConnectionState { state: ConnectionState },
    /// Log out.
    LogoutRequest,
    /// Close the connection.
    DisconnectRequest,
    /// Subscribe to a topic.
    SubscribeRequest { topic: SubscribeTopic },
}

pub open spec fn topic_name(t: SubscribeTopic) -> Seq<char> {
    match t {
        SubscribeTopic::DMXConfiguration => "DMXConfiguration"@,
    }
}

pub open spec fn event_text(e: UiEvent) -> Seq<char> {
    match e {
        UiEvent::SendTerminalCommand { id, command } =>
            "SendTerminalCommand, id: "@ + decimal(id as nat) + ", command: "@ + command@,
        UiEvent::LoginRequest { password, user_name, user_role } =>
            "LoginRequest, username: "@ + user_name@ + ",password: "@ + password@ + ", role: "@ + role_name(user_role),
        UiEvent::SetConnectionState { state } => "SetConnectionState: "@ + connection_text(state),
        UiEvent::LogoutRequest => "LogoutRequest"@,
        UiEvent::DisconnectRequest => "DisconnectRequest"@,
        UiEvent::SubscribeRequest { topic } => "SubscribeRequest, topic: "@ + topic_name(topic),
    }
}

impl UiEvent {
    /// The event as it is logged.
    pub fn text(&self) -> (r: String)
        ensures
            r@ == event_text(*self),
    {
        match self {
            UiEvent::SendTerminalCommand { id, command } => join(join(join("SendTerminalCommand, id: ".to_owned(),
                decimal_string(*id as u64).as_str()), ", command: "), command.as_str()),
            UiEvent::LoginRequest { password, user_name, user_role } => join(join(join(join(join(
                "LoginRequest, username: ".to_owned(), user_name.as_str()), ",password: "), password.as_str()),
                ", role: "), user_role.name()),
            UiEvent::SetConnectionState { state } => join("SetConnectionState: ".to_owned(), state.text().as_str()),
            UiEvent::LogoutRequest => "LogoutRequest".to_owned(),
            UiEvent::DisconnectRequest => "DisconnectRequest".to_owned(),
            UiEvent::SubscribeRequest { topic } => match topic {
                SubscribeTopic::DMXConfiguration => join("SubscribeRequest, topic: ".to_owned(), "DMXConfiguration"),
            },
        }
    }
}

/// The roles a user can be started with.
#[derive(Debug, PartialEq, Eq, Structural, Copy, Clone)]
pub enum Roles {
    Programmer,
    BlindProgrammer,
    Operator,
    Interface,
}

pub open spec fn roles_name(r: Roles) -> Seq<char> {
    match r {
        Roles::Programmer => "Programmer"@,
        Roles::BlindProgrammer => "blind Programmer"@,
        Roles::Operator => "Operator"@,
        Roles::Interface => "Interface"@,
    }
}

impl Roles {
    /// The role's name.
    pub fn as_str(&self) -> (r: &'static str)
        ensures
            r@ == roles_name(*self),
    {
        match self {
            Roles::Programmer => "Programmer",
            Roles::BlindProgrammer => "blind Programmer",
            Roles::Operator => "Operator",
            Roles::Interface => "Interface",
        }
    }
}

/// Whether a connection state is "connected and logged in".
pub open spec fn is_logged_in(c: ConnectionState) -> bool {
    c matches ConnectionState::Connected { session_state: SessionState::LoggedIn }
}

/// How the client goes on after the kernel answered its handshake: accepted,
/// it is connected and logged out; refused, it is in error. With the line to log.
pub open spec fn handshake_step(response: HandshakeResponse, client_version: Seq<char>)
    -> (ConnectionState, LogLevel, Seq<char>) {
    match response {
        HandshakeResponse::Accepted => (ConnectionState::Connected { session_state: SessionState::LoggedOut },
            LogLevel::SuccessEvent, "Version "@ + client_version + " verified!"@),
        HandshakeResponse::Mismatch { server_version } => (ConnectionState::Error, LogLevel::Error,
            "Version mismatch! this client has the version "@ + client_version + ". Kernel has the version "@
                + server_version@),
    }
}

/// The client's side of the handshake: see [`handshake_step`].
pub fn handshake_outcome(response: &HandshakeResponse, client_version: &str) -> (r: (ConnectionState, LogLevel, String))
    ensures
        (r.0, r.1, r.2@) == handshake_step(*response, client_version@),
{
    match response {
        HandshakeResponse::Accepted => (ConnectionState::Connected { session_state: SessionState::LoggedOut },
            LogLevel::SuccessEvent, join(join("Version ".to_owned(), client_version), " verified!")),
        HandshakeResponse::Mismatch { server_version } => (ConnectionState::Error, LogLevel::Error,
            join(join(join("Version mismatch! this client has the version ".to_owned(), client_version),
                ". Kernel has the version "), server_version.as_str())),
    }
}

/// What a message from the kernel makes the client do.
#[derive(Debug)]
pub enum ClientEffect {
    /// Show a line, of this level, on the terminal tab `tab_id`.
    TerminalOutput { tab_id: u32, level: LogLevel, text: String },
    /// Log a line, then change the connection state.
    ConnectionChange { level: LogLevel, log: String, state: ConnectionState },
    /// Show this channel allocation in the universe panels.
    Allocation(Vec<Vec<DMXConfigurationForClient>>),
    /// Nothing.
    Nothing,
}

/// The effect of a message from the kernel: a command's output goes to the
/// terminal that sent it as `[LEVEL]: text`; the login answers change the
/// session state; an allocation update is shown; the rest is ignored.
pub open spec fn message_effect_ok(m: TcpServerMessage, e: ClientEffect) -> bool {
    match m {
        TcpServerMessage::CommandOutput { answer, response_id } => e matches ClientEffect::TerminalOutput {
            tab_id, level, text } && tab_id == response_id && level == answer.0
            && text@ == "["@ + level_name(answer.0) + "]: "@ + answer.1@,
        TcpServerMessage::LoginOk { token } => e matches ClientEffect::ConnectionChange { level, log, state }
            && level == LogLevel::UserSuccess && log@ == "Login Successful! Token: "@ + decimal(token as nat)
            && state == (ConnectionState::Connected { session_state: SessionState::LoggedIn }),
        TcpServerMessage::LoginFailed { reason } => e matches ClientEffect::ConnectionChange { level, log, state }
            && level == LogLevel::UserError && log@ == "Login Failed: "@ + reason@
            && state == (ConnectionState::Connected { session_state: SessionState::LoginFailed(reason) }),
        TcpServerMessage::LogoutOk => e matches ClientEffect::ConnectionChange { level, log, state }
            && level == LogLevel::UserSuccess && log@ == "Logout Successful"@
            && (state matches ConnectionState::Connected { session_state: SessionState::LoggedOut }),
        TcpServerMessage::TopicUpdate { data: TopicPayload::DMXConfiguration(d) } =>
            e matches ClientEffect::Allocation(d2) && d2@ == d@,
        _ => e is Nothing,
    }
}

/// Decides what the client does with a message from the kernel; see [`message_effect_ok`].
pub fn server_message_effect(message: TcpServerMessage) -> (r: ClientEffect)
    ensures
        message_effect_ok(message, r),
{
    match message {
        TcpServerMessage::CommandOutput { answer, response_id } => {
            let (level, text) = answer;
            let line = join(join(join("[".to_owned(), level.name()), "]: "), text.as_str());
            ClientEffect::TerminalOutput { tab_id: response_id, level, text: line }
        }
        TcpServerMessage::LoginOk { token } => ClientEffect::ConnectionChange {
            level: LogLevel::UserSuccess,
            log: join("Login Successful! Token: ".to_owned(), decimal_string(token).as_str()),
            state: ConnectionState::Connected { session_state: SessionState::LoggedIn },
        },
        TcpServerMessage::LoginFailed { reason } => ClientEffect::ConnectionChange {
            level: LogLevel::UserError,
            log: join("Login Failed: ".to_owned(), reason.as_str()),
            state: ConnectionState::Connected { session_state: SessionState::LoginFailed(reason) },
        },
        TcpServerMessage::LogoutOk => ClientEffect::ConnectionChange {
            level: LogLevel::UserSuccess,
            log: "Logout Successful".to_owned(),
            state: ConnectionState::Connected { session_state: SessionState::LoggedOut },
        },
        TcpServerMessage::TopicUpdate { data: TopicPayload::DMXConfiguration(d) } => ClientEffect::Allocation(d),
        _ => ClientEffect::Nothing,
    }
}

/// What follows a message to the kernel that was sent without error.
#[derive(Debug)]
pub enum AfterSend {
    Nothing,
    /// The connection takes this state.
    SetState(ConnectionState),
    /// The terminals stop taking commands.
    DeactivateTerminals,
}

/// What the client does for an event of the user interface.
#[derive(Debug)]
pub enum UiStep {
    /// Send `message` to the kernel; then do `after` when sending worked,
    /// or log `failure` (with the send error) as an error when it did not.
    Send { message: TcpClientMessage, after: AfterSend, failure: String },
    /// There is no connection to send on: log this as an error (if any).
    NoConnection(Option<String>),
    /// Queue a logout request and show `notice` on every terminal.
    LocalLogout { notice: String },
    /// The connection takes `state`; the terminals take commands exactly when
    /// `logged_in`, and then show `notice` and the tabs refresh.
    ApplyState { state: ConnectionState, logged_in: bool, notice: String },
    /// Drop the connection; the connection state becomes disconnected.
    Disconnect,
}

pub open spec fn no_sender_message() -> Seq<char> {
    "Failed to send execute command: tcp sender doesn't exist"@
}

/// What the client does for a user-interface event, `has_connection` telling
/// whether there is a connection to the kernel: the terminal command `logout`
/// is handled locally, other terminal commands, logins, logouts and
/// subscriptions are sent; a new connection state is applied; a disconnect
/// drops the connection.
pub open spec fn ui_step_ok(event: UiEvent, has_connection: bool, step: UiStep) -> bool {
    match event {
        UiEvent::SendTerminalCommand { id, command } => if command@ == "logout"@ {
            step matches UiStep::LocalLogout { notice } && notice@ == "[SUCCESS] Logout successful, Terminal inactive!"@
        } else if has_connection {
            step matches UiStep::Send { message: TcpClientMessage::ExecuteCommand { command: c, response_id },
                after: AfterSend::Nothing, failure } && c@ == command@ && response_id == id
                && failure@ == "Failed to send execute command"@
        } else {
            step matches UiStep::NoConnection(Some(m)) && m@ == no_sender_message()
        },
        UiEvent::LoginRequest { password, user_name, user_role } => if has_connection {
            step matches UiStep::Send { message: TcpClientMessage::Login { password: p, user_name: u, user_role: r },
                after: AfterSend::SetState(ConnectionState::Connected { session_state: SessionState::LoginPending }),
                failure } && p@ == password@ && u@ == user_name@ && r == user_role
                && failure@ == "Failed to send login request"@
        } else {
            step matches UiStep::NoConnection(Some(m)) && m@ == no_sender_message()
        },
        UiEvent::SetConnectionState { state } => step matches UiStep::ApplyState { state: s2, logged_in, notice }
            && s2 == state && logged_in == is_logged_in(state)
            && notice@ == "[INFO] Logins successful, Terminal ready!"@,
        UiEvent::LogoutRequest => if has_connection {
            step matches UiStep::Send { message: TcpClientMessage::Logout, after: AfterSend::DeactivateTerminals, failure }
                && failure@ == "Failed to send logout request"@
        } else {
            step matches UiStep::NoConnection(Some(m)) && m@ == "Failed to send logout request: tcp sender doesn't exist"@
        },
        UiEvent::DisconnectRequest => step is Disconnect,
        UiEvent::SubscribeRequest { topic } => if has_connection {
            step matches UiStep::Send { message: TcpClientMessage::Subscribe { topic: t, update_mode: UpdateMode::OnChange },
                after: AfterSend::Nothing, failure } && t == topic && failure@ == "Failed to send subscribe request"@
        } else {
            step matches UiStep::NoConnection(None)
        },
    }
}

/// Decides what the client does for a user-interface event; see [`ui_step_ok`].
pub fn ui_event_step(event: UiEvent, has_connection: bool) -> (r: UiStep)
    ensures
        ui_step_ok(event, has_connection, r),
{
    match event {
        UiEvent::SendTerminalCommand { id, command } => {
            if crate::text::str_eq(command.as_str(), "logout") {
                UiStep::LocalLogout { notice: "[SUCCESS] Logout successful, Terminal inactive!".to_owned() }
            } else if has_connection {
                UiStep::Send {
                    message: TcpClientMessage::ExecuteCommand { command, response_id: id },
                    after: AfterSend::Nothing,
                    failure: "Failed to send execute command".to_owned(),
                }
            } else {
                UiStep::NoConnection(Some("Failed to send execute command: tcp sender doesn't exist".to_owned()))
            }
        }
        UiEvent::LoginRequest { password, user_name, user_role } => {
            if has_connection {
                UiStep::Send {
                    message: TcpClientMessage::Login { password, user_name, user_role },
                    after: AfterSend::SetState(ConnectionState::Connected { session_state: SessionState::LoginPending }),
                    failure: "Failed to send login request".to_owned(),
                }
            } else {
                UiStep::NoConnection(Some("Failed to send execute command: tcp sender doesn't exist".to_owned()))
            }
        }
        UiEvent::SetConnectionState { state } => {
            let logged_in = match &state {
                ConnectionState::Connected { session_state: SessionState::LoggedIn } => true,
                _ => false,
            };
            UiStep::ApplyState { state, logged_in, notice: "[INFO] Logins successful, Terminal ready!".to_owned() }
        }
        UiEvent::LogoutRequest => {
            if has_connection {
                UiStep::Send {
                    message: TcpClientMessage::Logout,
                    after: AfterSend::DeactivateTerminals,
                    failure: "Failed to send logout request".to_owned(),
                }
            } else {
                UiStep::NoConnection(Some("Failed to send logout request: tcp sender doesn't exist".to_owned()))
            }
        }
        UiEvent::DisconnectRequest => UiStep::Disconnect,
        UiEvent::SubscribeRequest { topic } => {
            if has_connection {
                UiStep::Send {
                    message: TcpClientMessage::Subscribe { topic, update_mode: UpdateMode::OnChange },
                    after: AfterSend::Nothing,
                    failure: "Failed to send subscribe request".to_owned(),
                }
            } else {
                UiStep::NoConnection(None)
            }
        }
    }
}

/// Law: an update of the channel allocation from the kernel is shown in the
/// universe panels, carrying exactly the data received.
pub proof fn law_allocation_update_shown(d: Vec<Vec<DMXConfigurationForClient>>, e: ClientEffect)
    requires
        message_effect_ok(TcpServerMessage::TopicUpdate { data: TopicPayload::DMXConfiguration(d) }, e),
    ensures
        e matches ClientEffect::Allocation(d2) && d2@ == d@,
{
}

/// Law: the answers to login and logout change the connection state as they
/// say: a granted login leaves the client logged in, a refused one records the
/// kernel's reason, a logout leaves it logged out; the output of a command goes
/// to the terminal tab of the request it answers, at the level it came with;
/// and any other message changes nothing.
pub proof fn law_session_answers_shown(m: TcpServerMessage, e: ClientEffect)
    requires
        message_effect_ok(m, e),
    ensures
        m is LoginOk ==> (e matches ClientEffect::ConnectionChange { level, state, .. }
            && level == LogLevel::UserSuccess
            && state == (ConnectionState::Connected { session_state: SessionState::LoggedIn })),
        m matches TcpServerMessage::LoginFailed { reason } ==> (e matches ClientEffect::ConnectionChange {
            level, state, .. } && level == LogLevel::UserError
            && state == (ConnectionState::Connected { session_state: SessionState::LoginFailed(reason) })),
        m is LogoutOk ==> (e matches ClientEffect::ConnectionChange { level, state, .. }
            && level == LogLevel::UserSuccess
            && (state matches ConnectionState::Connected { session_state: SessionState::LoggedOut })),
        m matches TcpServerMessage::CommandOutput { answer, response_id } ==> (e matches
            ClientEffect::TerminalOutput { tab_id, level, text } && tab_id == response_id
            && level == answer.0 && text@.len() >= answer.1@.len()
            && text@.subrange(text@.len() - answer.1@.len(), text@.len() as int) == answer.1@),
        !(m is LoginOk) && !(m is LoginFailed) && !(m is LogoutOk) && !(m is CommandOutput)
            && !(m matches TcpServerMessage::TopicUpdate { data: TopicPayload::DMXConfiguration(_) })
            ==> e is Nothing,
{
    if let TcpServerMessage::CommandOutput { answer, response_id } = m {
        if let ClientEffect::TerminalOutput { tab_id, level, text } = e {
            let pre = "["@ + level_name(answer.0) + "]: "@;
            assert(text@ == pre + answer.1@);
            assert(text@.subrange(pre.len() as int, text@.len() as int) =~= answer.1@);
        }
    }
}

} // verus!
