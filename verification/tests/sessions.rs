use rektal::networking::messages::{check_handshake, frame_header, frame_length, HandshakeError, HandshakeRequest,
    HandshakeResponse, TcpClientMessage, TcpServerMessage, UserRole};
use rektal::networking::session::{route_message, Cleanup, ContinuousBuffer, Route, ServerState};
use rektal::networking::subscription::{DMXConfigurationForClient, SubscribeTopic, TopicPayload, UpdateMode};
use rektal::cli::execute::Kernel;
use rektal::cli::{CliAction, CliActionResponse};
use rektal::logging::LogLevel;

fn request(magic: &str, hash: &str) -> HandshakeRequest {
    HandshakeRequest {
        magic_string: magic.to_string(),
        protocol_hash: hash.to_string(),
        client_version: "0.3.0".to_string(),
    }
}

fn login(state: &mut ServerState, conn: u64) -> u64 {
    let msg = TcpClientMessage::Login { password: String::new(), user_name: "u".to_string(),
        user_role: UserRole::Programmer };
    let (token, out) = state.update_login_status(&msg, None, conn);
    let token = token.expect("login succeeds");
    assert_eq!(out.len(), 1);
    assert_eq!(out[0].0, conn);
    assert!(matches!(out[0].1, TcpServerMessage::LoginOk { token: t } if t == token));
    token
}

fn one_universe(name: &str) -> Vec<Vec<DMXConfigurationForClient>> {
    vec![vec![DMXConfigurationForClient::Empty, DMXConfigurationForClient::Reserved {
        fixture_name: name.to_string(),
        property_type: rektal::fixture::PropertyType::Simple(rektal::fixture::SimplePropertyType::Dimmer),
        fine_degree: 0,
        fixture_type_hash: 3,
    }]]
}

#[test]
fn handshake_accepts_matching_hash() {
    let (resp, res) = check_handshake(&request("REKTAL", "abc"), "abc", "1.0");
    assert!(matches!(resp, Some(HandshakeResponse::Accepted)));
    assert!(res.is_ok());
}

#[test]
fn handshake_mismatch_reports_versions() {
    let (resp, res) = check_handshake(&request("REKTAL", "abc"), "abd", "1.0");
    assert!(matches!(resp, Some(HandshakeResponse::Mismatch { ref server_version }) if server_version == "1.0"));
    assert!(matches!(res, Err(HandshakeError::VersionMismatch { ref server_version, ref client_version })
        if server_version == "1.0" && client_version == "0.3.0"));
}

#[test]
fn handshake_wrong_magic_is_invalid_data() {
    let (resp, res) = check_handshake(&request("HELLO", "abc"), "abc", "1.0");
    assert!(resp.is_none());
    assert!(matches!(res, Err(HandshakeError::InvalidData(ref m)) if m == "Wrong magic string. Client is not an Rektal-Client"));
}

#[test]
fn frame_header_big_endian_round_trip() {
    assert_eq!(frame_header(0x0102_0304), [1, 2, 3, 4]);
    assert_eq!(frame_header(5), [0, 0, 0, 5]);
    for n in [0usize, 1, 255, 256, 65_535, 1 << 24, 0xFFFF_FFFF] {
        assert_eq!(frame_length(frame_header(n)) as usize, n);
    }
}

#[test]
fn login_with_wrong_password_is_refused_twice() {
    let mut state = ServerState::new();
    let msg = TcpClientMessage::Login { password: "secret".to_string(), user_name: "u".to_string(),
        user_role: UserRole::Showrunner };
    let (token, out) = state.update_login_status(&msg, None, 4);
    assert!(token.is_none());
    assert_eq!(out.len(), 2);
    for (c, m) in &out {
        assert_eq!(*c, 4);
        assert!(matches!(m, TcpServerMessage::LoginFailed { reason } if reason == "Wrong password"));
    }
    assert_eq!(state.len(), 0);
}

#[test]
fn tokens_are_distinct() {
    let mut state = ServerState::new();
    let mut tokens = Vec::new();
    for conn in 0..20 {
        tokens.push(login(&mut state, conn));
    }
    let mut sorted = tokens.clone();
    sorted.sort();
    sorted.dedup();
    assert_eq!(sorted.len(), 20);
    assert_eq!(state.len(), 20);
    for t in tokens {
        assert!(state.find_session(t).is_some());
    }
}

#[test]
fn relogin_moves_session_and_kicks_old_connection() {
    let mut state = ServerState::new();
    let token = login(&mut state, 1);
    let msg = TcpClientMessage::Relogin { user_id: token, clear_subscriptions: false };
    let (t, out) = state.update_login_status(&msg, None, 2);
    assert_eq!(t, Some(token));
    assert_eq!(out.len(), 2);
    assert_eq!(out[0].0, 1);
    assert!(matches!(out[0].1, TcpServerMessage::Kicked { ref reason }
        if reason == "Newer Connection relogged in with same token"));
    assert_eq!(out[1].0, 2);
    assert!(matches!(out[1].1, TcpServerMessage::ReloginOk { token: x } if x == token));
    // the old connection closing leaves the session on the new one
    assert_eq!(state.connection_closed(Some(token), 1), Cleanup::KeptNewConnection(2));
    assert_eq!(state.connection_closed(Some(token), 2), Cleanup::Sleeping);
    assert_eq!(state.connection_closed(Some(token), 2), Cleanup::AlreadySleeping);
    // a sleeping session is resumed without kicking anyone
    let (t, out) = state.update_login_status(&msg, None, 3);
    assert_eq!(t, Some(token));
    assert_eq!(out.len(), 1);
    assert!(matches!(out[0].1, TcpServerMessage::ReloginOk { .. }));
}

#[test]
fn relogin_failures() {
    let mut state = ServerState::new();
    let token = login(&mut state, 1);
    let msg = TcpClientMessage::Relogin { user_id: token, clear_subscriptions: true };
    let (t, out) = state.update_login_status(&msg, Some(token), 1);
    assert_eq!(t, Some(token));
    assert!(matches!(out[0].1, TcpServerMessage::ReloginFailed { ref reason } if reason == "Already logged in"));
    let other = TcpClientMessage::Relogin { user_id: token.wrapping_add(1), clear_subscriptions: true };
    let (t, out) = state.update_login_status(&other, None, 5);
    assert_eq!(t, None);
    assert!(matches!(out[0].1, TcpServerMessage::ReloginFailed { ref reason } if reason == "User doesnt exist"));
}

#[test]
fn logout_removes_session() {
    let mut state = ServerState::new();
    let token = login(&mut state, 1);
    let (t, out) = state.update_login_status(&TcpClientMessage::Logout, Some(token), 1);
    assert_eq!(t, None);
    assert!(matches!(out[0].1, TcpServerMessage::LogoutOk));
    assert_eq!(state.len(), 0);
    assert_eq!(state.connection_closed(Some(token), 1), Cleanup::NoSession);
    assert_eq!(state.connection_closed(None, 1), Cleanup::NoSession);
}

#[test]
fn routing() {
    let sub = TcpClientMessage::Subscribe { topic: SubscribeTopic::DMXConfiguration, update_mode: UpdateMode::OnChange };
    assert_eq!(route_message(None, &sub), Route::Unauthenticated);
    assert_eq!(route_message(Some(9), &sub), Route::Handle(9));
    assert_eq!(route_message(None, &TcpClientMessage::Logout), Route::Ignore);
    assert_eq!(route_message(Some(9), &TcpClientMessage::Logout), Route::Ignore);
}

#[test]
fn subscriptions_and_updates() {
    let mut state = ServerState::new();
    let a = login(&mut state, 10);
    let b = login(&mut state, 20);
    let _c = login(&mut state, 30);
    let mut buffer = ContinuousBuffer::new();
    assert_eq!(buffer.dmx_config.len(), 1);
    assert_eq!(buffer.dmx_config[0].len(), 0);
    // subscribing sends the latest data at once
    let out = state.add_subscription(a, SubscribeTopic::DMXConfiguration, UpdateMode::OnChange, &buffer);
    assert_eq!(out.len(), 1);
    assert_eq!(out[0].0, 10);
    assert!(matches!(out[0].1, TcpServerMessage::TopicUpdate { data: TopicPayload::DMXConfiguration(ref d) }
        if d.len() == 1 && d[0].is_empty()));
    state.add_subscription(b, SubscribeTopic::DMXConfiguration, UpdateMode::Continuous, &buffer);
    // every subscription to the topic is served, whatever its update mode
    let out = state.on_dmx_config_update(&mut buffer, one_universe("x"));
    assert_eq!(out.len(), 2);
    assert_eq!(out[0].0, 10);
    assert_eq!(out[1].0, 20);
    match &out[0].1 {
        TcpServerMessage::TopicUpdate { data: TopicPayload::DMXConfiguration(d) } => {
            assert!(matches!(d[0][1], DMXConfigurationForClient::Reserved { ref fixture_name, .. } if fixture_name == "x"));
        }
        other => panic!("{:?}", other),
    }
    assert!(matches!(buffer.dmx_config[0][1], DMXConfigurationForClient::Reserved { .. }));
    let out = state.send_updates(&buffer.dmx_config, UpdateMode::Continuous);
    assert_eq!(out.len(), 2);
    assert_eq!(out[0].0, 10);
    assert_eq!(out[1].0, 20);
    // unknown sessions get nothing
    let mut unknown = 0u64;
    while state.find_session(unknown).is_some() {
        unknown += 1;
    }
    let out = state.add_subscription(unknown, SubscribeTopic::DMXConfiguration, UpdateMode::OnChange, &buffer);
    assert!(out.is_empty());
    assert_eq!(state.len(), 3);
}

#[test]
fn sleeping_sessions_get_no_updates() {
    let mut state = ServerState::new();
    let a = login(&mut state, 10);
    let buffer = ContinuousBuffer::new();
    state.add_subscription(a, SubscribeTopic::DMXConfiguration, UpdateMode::Continuous, &buffer);
    assert_eq!(state.connection_closed(Some(a), 10), Cleanup::Sleeping);
    assert!(state.send_updates(&buffer.dmx_config, UpdateMode::Continuous).is_empty());
    let out = state.add_subscription(a, SubscribeTopic::DMXConfiguration, UpdateMode::OnChange, &buffer);
    assert!(out.is_empty());
}

#[test]
fn shutdown_announced_to_active_connections() {
    let mut state = ServerState::new();
    let a = login(&mut state, 10);
    let _b = login(&mut state, 20);
    state.connection_closed(Some(a), 10);
    let out = state.announce_shutdown();
    assert_eq!(out.len(), 1);
    assert_eq!(out[0].0, 20);
    assert!(matches!(out[0].1, TcpServerMessage::ShutdownAnnouncement));
}

#[test]
fn topic_of_payload() {
    let p = TopicPayload::DMXConfiguration(Vec::new());
    assert_eq!(p.get_topic(), SubscribeTopic::DMXConfiguration);
    assert_eq!(UserRole::BlindProgrammer.name(), "blind programmer");
}

fn no_percent(s: String) -> Result<u32, String> {
    Err(format!("Invalid percentage format {}", s))
}

fn same_color(input: rektal::fixture::ColorModelInput) -> (u32, u32, u32) {
    match input {
        rektal::fixture::ColorModelInput::Rgb(r, g, b) => (r, g, b),
        rektal::fixture::ColorModelInput::Hsv(h, s, v) => (h, s, v),
    }
}

#[test]
fn kernel_handles_client_messages() {
    let mut state = ServerState::new();
    let mut kernel = Kernel::new();
    let token = login(&mut state, 7);
    let buffer = ContinuousBuffer::new();
    let cmd = TcpClientMessage::ExecuteCommand { command: "new d dimmer 0".to_string(), response_id: 42 };
    let (reply, out) = state.handle_messages(&mut kernel, &buffer, cmd, token, false, &no_percent, &same_color);
    assert!(out.is_empty());
    match reply {
        Some(TcpServerMessage::CommandOutput { answer, response_id }) => {
            assert_eq!(response_id, 42);
            assert_eq!(answer, (LogLevel::UserSuccess, "d created successfully".to_string()));
        }
        other => panic!("{:?}", other),
    }
    // exit is refused to clients
    let cmd = TcpClientMessage::ExecuteCommand { command: "exit save".to_string(), response_id: 1 };
    let (reply, _) = state.handle_messages(&mut kernel, &buffer, cmd, token, false, &no_percent, &same_color);
    assert!(matches!(reply, Some(TcpServerMessage::CommandOutput { ref answer, .. })
        if answer.0 == LogLevel::UserError && answer.1 == "Only kernel can exit a session"));
    let act = TcpClientMessage::ExecuteImplicitCommand {
        command: CliAction::FixtureAdd { name: "d1".to_string(), fixture_type_name: "d".to_string(), universe: 0, channel: 3 },
        response_id: 9,
    };
    let (reply, _) = state.handle_messages(&mut kernel, &buffer, act, token, false, &no_percent, &same_color);
    assert!(matches!(reply, Some(TcpServerMessage::ImplicitCommandOutput { answer: CliActionResponse::Ack, response_id: 9 })));
    assert_eq!(kernel.engine.fixture_list().len(), 1);
    let sub = TcpClientMessage::Subscribe { topic: SubscribeTopic::DMXConfiguration, update_mode: UpdateMode::OnChange };
    let (reply, out) = state.handle_messages(&mut kernel, &buffer, sub, token, false, &no_percent, &same_color);
    assert!(reply.is_none());
    assert_eq!(out.len(), 1);
    assert_eq!(out[0].0, 7);
    let (reply, out) = state.handle_messages(&mut kernel, &buffer,
        TcpClientMessage::Unsubscribe { topic: SubscribeTopic::DMXConfiguration }, token, false, &no_percent, &same_color);
    assert!(reply.is_none() && out.is_empty());
}

#[test]
fn logout_after_login_restores_sessions() {
    let mut state = ServerState::new();
    let first = login(&mut state, 1);
    let second = login(&mut state, 2);
    assert_eq!(state.len(), 2);
    let (t, _) = state.update_login_status(&TcpClientMessage::Logout, Some(second), 2);
    assert_eq!(t, None);
    assert_eq!(state.len(), 1);
    assert!(state.find_session(first).is_some());
    assert!(state.find_session(second).is_none());
}
