use rektal::client_state::{ConnectionState, Roles, SessionState, UiEvent};
use rektal::dmx_output::{artnet_packet, enttec_label, enttec_packet, is_artnet_packet, read_artnet, ArtnetRead};
use rektal::logging::{LogLevel, TerminalSink};
use rektal::networking::messages::UserRole;
use rektal::networking::subscription::SubscribeTopic;
use rektal::client_state::handshake_outcome;
use rektal::networking::messages::HandshakeResponse;
use rektal::client_state::{server_message_effect, ClientEffect};
use rektal::networking::messages::TcpServerMessage;
use rektal::client_state::{ui_event_step, AfterSend, UiStep};
use rektal::networking::messages::TcpClientMessage;
use rektal::logging::file_line;

fn frame() -> [u8; 512] {
    let mut d = [0u8; 512];
    for (i, b) in d.iter_mut().enumerate() {
        *b = (i % 251) as u8;
    }
    d
}

#[test]
fn artnet_packet_layout() {
    let d = frame();
    let p = artnet_packet(0x0102, 9, &d);
    assert_eq!(p.len(), 18 + 512);
    assert_eq!(&p[0..8], b"Art-Net\0");
    assert_eq!(&p[8..18], &[0x00, 0x50, 0x00, 14, 9, 0, 0x02, 0x01, 0x02, 0x00]);
    assert_eq!(&p[18..], &d[..]);
}

#[test]
fn artnet_round_trip() {
    let d = frame();
    for u in [0u16, 3, 255] {
        match read_artnet(&artnet_packet(u, 1, &d)) {
            ArtnetRead::Frame(low, data) => {
                assert_eq!(low as u16, u);
                assert_eq!(data, d);
            }
            other => panic!("{:?}", other),
        }
    }
}

#[test]
fn artnet_reading_rejects() {
    assert!(matches!(read_artnet(b"hello world, this is not art-net"), ArtnetRead::NotArtnet));
    assert!(!is_artnet_packet(b"Art-Net"));
    let mut poll = b"Art-Net\0".to_vec();
    poll.extend_from_slice(&[0x00, 0x20, 0, 14, 0, 0, 0, 0, 0, 0]);
    assert!(is_artnet_packet(&poll));
    assert!(matches!(read_artnet(&poll), ArtnetRead::Ignored));
    let mut short = artnet_packet(0, 0, &frame());
    short.truncate(100);
    assert!(matches!(read_artnet(&short), ArtnetRead::Incomplete));
}

#[test]
fn artnet_short_frame_padded_with_zeros() {
    let mut p = b"Art-Net\0".to_vec();
    p.extend_from_slice(&[0x00, 0x50, 0, 14, 0, 0, 7, 0, 0x00, 0x03, 1, 2, 3]);
    match read_artnet(&p) {
        ArtnetRead::Frame(u, data) => {
            assert_eq!(u, 7);
            assert_eq!(&data[0..4], &[1, 2, 3, 0]);
            assert!(data[3..].iter().all(|b| *b == 0));
        }
        other => panic!("{:?}", other),
    }
}

#[test]
fn enttec_packets() {
    let d = frame();
    let p = enttec_packet(6, &d);
    assert_eq!(p.len(), 5 + 512 + 1);
    assert_eq!(&p[0..5], &[0x7E, 6, 0x01, 0x02, 0x00]);
    assert_eq!(&p[5..517], &d[..]);
    assert_eq!(p[517], 0xE7);
    assert_eq!(enttec_label(0), Some(6));
    assert_eq!(enttec_label(1), Some(202));
    assert_eq!(enttec_label(2), None);
}

#[test]
fn log_level_names_and_colors() {
    assert_eq!(LogLevel::SuccessEvent.name(), "Success");
    assert_eq!(LogLevel::UserSuccess.name(), "USER success");
    assert_eq!(LogLevel::Warning.color(), "\x1B[43m\x1B[30m");
    assert_eq!(LogLevel::UserError.color(), "\x1B[35m");
}

#[test]
fn terminal_lines() {
    let sink = TerminalSink { cli_prompt: None };
    let line = sink.line_for(LogLevel::Info, "12:00:01", "hi", 40, false, false).unwrap();
    let expected_raw = format!("({}) [{:-^12}] {}", "12:00:01", "INFO", "hi");
    assert_eq!(line, format!("{} {:<40} \x1B[0m", "\x1B[44m\x1B[30m", expected_raw));
    let user = sink.line_for(LogLevel::UserError, "t", "bad", 80, false, false).unwrap();
    assert_eq!(user, format!("\x1B[35m ({}) [{:-^12}] {} \x1B[0m", "t", "USER ERROR", "bad"));
    assert!(sink.line_for(LogLevel::Info, "t", "x", 80, true, false).is_none());
    assert!(sink.line_for(LogLevel::Info, "t", "x", 80, true, true).is_some());
    // a line longer than the width is not cut
    let long = sink.line_for(LogLevel::Error, "t", "0123456789", 5, false, false).unwrap();
    assert_eq!(long, format!("\x1B[41m\x1B[30m ({}) [{:-^12}] {} \x1B[0m", "t", "ERROR", "0123456789"));
}

#[test]
fn client_state_texts() {
    let connected = ConnectionState::Connected { session_state: SessionState::LoginFailed("nope".to_string()) };
    assert_eq!(connected.text(), "Connected and LoginFailed(nope)");
    assert_eq!(ConnectionState::ConnectionPending.text(), "Connection Pending");
    assert_eq!(SessionState::LoggedIn.text(), "Log in");
    let ev = UiEvent::SendTerminalCommand { id: 12, command: "help".to_string() };
    assert_eq!(ev.text(), "SendTerminalCommand, id: 12, command: help");
    let ev = UiEvent::LoginRequest { password: "p".to_string(), user_name: "ann".to_string(),
        user_role: UserRole::Programmer };
    assert_eq!(ev.text(), "LoginRequest, username: ann,password: p, role: programmer");
    let ev = UiEvent::SetConnectionState { state: ConnectionState::Disconnected };
    assert_eq!(ev.text(), "SetConnectionState: Disconnected");
    let ev = UiEvent::SubscribeRequest { topic: SubscribeTopic::DMXConfiguration };
    assert_eq!(ev.text(), "SubscribeRequest, topic: DMXConfiguration");
    assert_eq!(Roles::BlindProgrammer.as_str(), "blind Programmer");
}

#[test]
fn client_handshake_outcome() {
    let (state, level, text) = handshake_outcome(&HandshakeResponse::Accepted, "0.3.0");
    assert!(matches!(state, ConnectionState::Connected { session_state: SessionState::LoggedOut }));
    assert_eq!(level, LogLevel::SuccessEvent);
    assert_eq!(text, "Version 0.3.0 verified!");
    let (state, level, text) = handshake_outcome(&HandshakeResponse::Mismatch { server_version: "0.4.0".to_string() }, "0.3.0");
    assert!(matches!(state, ConnectionState::Error));
    assert_eq!(level, LogLevel::Error);
    assert_eq!(text, "Version mismatch! this client has the version 0.3.0. Kernel has the version 0.4.0");
}

#[test]
fn client_reacts_to_server_messages() {
    let e = server_message_effect(TcpServerMessage::CommandOutput {
        answer: (LogLevel::UserError, "no".to_string()), response_id: 3 });
    assert!(matches!(e, ClientEffect::TerminalOutput { tab_id: 3, level: LogLevel::UserError, ref text }
        if text == "[USER ERROR]: no"));
    let e = server_message_effect(TcpServerMessage::LoginOk { token: 77 });
    assert!(matches!(e, ClientEffect::ConnectionChange { level: LogLevel::UserSuccess, ref log,
        state: ConnectionState::Connected { session_state: SessionState::LoggedIn } } if log == "Login Successful! Token: 77"));
    let e = server_message_effect(TcpServerMessage::LoginFailed { reason: "Wrong password".to_string() });
    assert!(matches!(e, ClientEffect::ConnectionChange { level: LogLevel::UserError, ref log,
        state: ConnectionState::Connected { session_state: SessionState::LoginFailed(ref r) } }
        if log == "Login Failed: Wrong password" && r == "Wrong password"));
    let e = server_message_effect(TcpServerMessage::LogoutOk);
    assert!(matches!(e, ClientEffect::ConnectionChange { state: ConnectionState::Connected {
        session_state: SessionState::LoggedOut }, .. }));
    assert!(matches!(server_message_effect(TcpServerMessage::ShutdownAnnouncement), ClientEffect::Nothing));
}

#[test]
fn client_ui_events() {
    let s = ui_event_step(UiEvent::SendTerminalCommand { id: 2, command: "logout".to_string() }, true);
    assert!(matches!(s, UiStep::LocalLogout { ref notice } if notice == "[SUCCESS] Logout successful, Terminal inactive!"));
    let s = ui_event_step(UiEvent::SendTerminalCommand { id: 2, command: "help".to_string() }, true);
    assert!(matches!(s, UiStep::Send { message: TcpClientMessage::ExecuteCommand { ref command, response_id: 2 },
        after: AfterSend::Nothing, .. } if command == "help"));
    let s = ui_event_step(UiEvent::SendTerminalCommand { id: 2, command: "help".to_string() }, false);
    assert!(matches!(s, UiStep::NoConnection(Some(ref m)) if m == "Failed to send execute command: tcp sender doesn't exist"));
    let s = ui_event_step(UiEvent::LoginRequest { password: String::new(), user_name: "a".to_string(),
        user_role: UserRole::Showrunner }, true);
    assert!(matches!(s, UiStep::Send { message: TcpClientMessage::Login { .. },
        after: AfterSend::SetState(ConnectionState::Connected { session_state: SessionState::LoginPending }), .. }));
    let s = ui_event_step(UiEvent::SetConnectionState { state: ConnectionState::Connected {
        session_state: SessionState::LoggedIn } }, false);
    assert!(matches!(s, UiStep::ApplyState { logged_in: true, .. }));
    let s = ui_event_step(UiEvent::SetConnectionState { state: ConnectionState::Disconnected }, true);
    assert!(matches!(s, UiStep::ApplyState { logged_in: false, state: ConnectionState::Disconnected, .. }));
    let s = ui_event_step(UiEvent::LogoutRequest, true);
    assert!(matches!(s, UiStep::Send { message: TcpClientMessage::Logout, after: AfterSend::DeactivateTerminals, .. }));
    assert!(matches!(ui_event_step(UiEvent::DisconnectRequest, true), UiStep::Disconnect));
    assert!(matches!(ui_event_step(UiEvent::SubscribeRequest { topic: SubscribeTopic::DMXConfiguration }, false),
        UiStep::NoConnection(None)));
}

#[test]
fn log_file_lines() {
    assert_eq!(file_line(LogLevel::Warning, "01:02:03", "careful"), "(01:02:03) [----WARN----] careful\n");
    assert_eq!(file_line(LogLevel::UserSuccess, "t", "ok"), format!("(t) [{:-^12}] ok\n", "USER success"));
}
