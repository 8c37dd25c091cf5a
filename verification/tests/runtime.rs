use micro_gui::protocol::{AgentMessage, ClientMessage, InputEvent, WireError};
use micro_gui::renderer::Frame;
use micro_gui::runtime::{
    agent_action, agent_run_arguments, check_remote_size, command_succeeded, constant_time_eq,
    container_name_for, display_name_from_line, display_run_arguments, display_size_valid,
    fps_acceptable, ipc_reply_length, ipc_request, is_sway_ipc_socket, judge_authentication,
    loopback_endpoint, output_message, parse_published_port, port_failure_message,
    port_query_arguments, resize_command, token_acceptable, x11_socket_path, xvfb_arguments,
    AgentAction, AuthVerdict, FirecrabError, Handshake, RemoteState, IPC_RUN_COMMAND,
};

#[test]
fn token_comparison_handles_different_lengths() {
    assert!(constant_time_eq("secret", "secret"));
    assert!(!constant_time_eq("secret", "secrex"));
    assert!(!constant_time_eq("secret", "secret-long"));
}

#[test]
fn maps_only_the_private_x11_socket() {
    assert_eq!(x11_socket_path(":42"), "/tmp/.X11-unix/X42");
}

#[test]
fn parses_ipv4_and_ipv6_docker_ports() {
    assert_eq!(parse_published_port("127.0.0.1:49153\n"), Some(49153));
    assert_eq!(parse_published_port("[::1]:49154\n"), Some(49154));
    assert_eq!(parse_published_port(""), None);
}

#[test]
fn generated_container_names_are_distinct_and_scoped() {
    let first = container_name_for(4242, 1);
    let second = container_name_for(4242, 2);
    assert!(first.starts_with("microbox-"));
    assert_ne!(first, second);
    assert_eq!(first, "microbox-4242-1");
}

#[test]
fn builds_loopback_only_agent_container_command() {
    let mut arguments = agent_run_arguments("microbox-test", "secret", "example/gui-agent:1", true);
    arguments.push("--flag".to_string());
    assert!(arguments.windows(2).any(|pair| pair == ["--publish", "127.0.0.1::5943"]));
    assert!(arguments.contains(&"MICROBOX_AGENT_TOKEN=secret".into()));
    assert!(arguments.windows(2).any(|pair| pair == ["--", "--flag"]));
    let without = agent_run_arguments("microbox-test", "secret", "example/gui-agent:1", false);
    assert_eq!(without.last().map(String::as_str), Some("example/gui-agent:1"));
}

#[test]
fn rejects_empty_display_size_without_starting_xvfb() {
    assert!(!display_size_valid(0, 100));
    assert!(!display_size_valid(4097, 100));
    assert!(display_size_valid(4096, 1));
}

#[test]
fn rejects_invalid_display_size_without_starting_sway() {
    assert!(!display_size_valid(0, 100));
    assert!(!display_size_valid(4097, 100));
}

fn connected_state() -> RemoteState {
    RemoteState::new(Frame::new_rgb(2, 1, vec![0; 6]).unwrap(), 2, 1)
}

#[test]
fn preserves_structured_agent_exit_status() {
    let mut state = connected_state();
    state
        .receive(AgentMessage::Exit("application terminated by signal 11".into()))
        .unwrap();
    assert!(!state.running());
    assert_eq!(
        state.termination().map(String::as_str),
        Some("application terminated by signal 11")
    );
}

#[test]
fn reports_transport_close_without_exit_status() {
    let mut state = connected_state();
    state.end_of_stream();
    assert!(!state.running());
    assert_eq!(
        state.termination().map(String::as_str),
        Some("agent transport closed without an exit status")
    );
}

#[test]
fn remote_state_keeps_only_frames_of_the_current_size() {
    let mut state = connected_state();
    assert!(state.pending());
    assert_eq!(state.take_frame().pixels(), &[0; 6]);
    assert!(!state.pending());
    state.receive(AgentMessage::Frame(Frame::new_rgb(1, 1, vec![9; 3]).unwrap())).unwrap();
    assert!(!state.pending());
    state.begin_resize(3, 2);
    assert!(state.resize_status().is_none());
    state.receive(AgentMessage::Frame(Frame::new_rgb(3, 2, vec![7; 18]).unwrap())).unwrap();
    assert!(matches!(state.resize_status(), Some(Ok(()))));
    assert_eq!(state.take_frame().pixels(), &[7; 18]);
    assert_eq!(state.display_size(), (3, 2));
    let error = state.receive(AgentMessage::Hello { width: 3, height: 2 }).unwrap_err();
    assert_eq!(error.message(), "GUI agent protocol error: duplicate hello");
}

#[test]
fn resize_fails_when_the_agent_stops() {
    let mut state = connected_state();
    state.begin_resize(4, 4);
    let error = state.receive(AgentMessage::Error("boom".into())).unwrap_err();
    assert_eq!(error.message(), "GUI agent failed: boom");
    match state.resize_status() {
        Some(Err(error)) => {
            assert_eq!(error.message(), "GUI agent failed: agent exited while resizing: boom")
        }
        _ => panic!("resize should have failed"),
    }
}

#[test]
fn handshake_needs_matching_hello_and_frame() {
    let mut handshake = Handshake::new();
    assert!(!handshake.complete());
    handshake.receive(AgentMessage::Hello { width: 2, height: 1 }).unwrap();
    handshake
        .receive(AgentMessage::Frame(Frame::new_rgb(2, 1, vec![1, 2, 3, 4, 5, 6]).unwrap()))
        .unwrap();
    assert!(handshake.complete());
    assert_eq!(handshake.finish(2, 1).unwrap().pixels(), &[1, 2, 3, 4, 5, 6]);

    let mut wrong = Handshake::new();
    wrong.receive(AgentMessage::Hello { width: 3, height: 1 }).unwrap();
    assert_eq!(
        wrong.finish(2, 1).unwrap_err().message(),
        "GUI agent protocol error: agent opened 3x1 instead of requested 2x1"
    );
    assert!(matches!(Handshake::new().finish(2, 1), Err(FirecrabError::HandshakeTimeout)));
    let mut empty = Handshake::new();
    assert_eq!(
        empty.receive(AgentMessage::Hello { width: 0, height: 1 }).unwrap_err().message(),
        "GUI agent protocol error: zero-sized display"
    );
}

#[test]
fn remote_sizes_are_bounded() {
    assert!(check_remote_size(1, 4096).is_ok());
    assert_eq!(
        check_remote_size(0, 10).unwrap_err().message(),
        "GUI agent protocol error: display dimensions must be between 1 and 4096 pixels, got 0x10"
    );
    assert_eq!(
        FirecrabError::ResizeTimeout { width: 3, height: 2 }.message(),
        "GUI agent did not resize to 3x2 in time"
    );
    assert_eq!(
        FirecrabError::from(WireError::InvalidMessage("x".into())).message(),
        "invalid wire message: x"
    );
}

#[test]
fn agent_judges_tokens_and_messages() {
    assert_eq!(
        judge_authentication(&ClientMessage::Authenticate("secret".into()), "secret"),
        AuthVerdict::Accepted
    );
    assert_eq!(
        judge_authentication(&ClientMessage::Authenticate("guess".into()), "secret"),
        AuthVerdict::Rejected
    );
    assert_eq!(judge_authentication(&ClientMessage::Stop, "secret"), AuthVerdict::Required);
    assert_eq!(agent_action(ClientMessage::Stop), AgentAction::Stop);
    assert_eq!(
        agent_action(ClientMessage::Authenticate("again".into())),
        AgentAction::DuplicateAuth
    );
    let input = InputEvent::Resize { width: 10, height: 20 };
    assert_eq!(agent_action(ClientMessage::Input(input.clone())), AgentAction::Inject(input));
    assert!(token_acceptable("t"));
    assert!(!token_acceptable(""));
    assert!(!token_acceptable(&"x".repeat(4097)));
    assert!(fps_acceptable(60) && !fps_acceptable(0) && !fps_acceptable(61));
}

#[test]
fn engine_messages_are_trimmed_and_bounded() {
    assert_eq!(output_message(b"  no such image \n"), "no such image");
    assert_eq!(output_message(b" \n"), "command failed without an error message");
    assert_eq!(output_message(&[b'a'; 2500]).len(), 2000);
    assert_eq!(output_message(&[0xff, b'x']), "\u{fffd}x");
    assert_eq!(port_failure_message(String::new()), "Docker did not publish the guest agent port");
    assert_eq!(port_failure_message("busy".into()), "busy");
    assert_eq!(loopback_endpoint(49153), "127.0.0.1:49153");
    assert_eq!(port_query_arguments("c1"), vec!["port", "c1", "5943/tcp"]);
}

#[test]
fn display_containers_mount_only_their_socket() {
    let arguments = display_run_arguments("microbox-1-1", ":3", "example/gui:1");
    assert!(arguments.contains(&"DISPLAY=:3".to_string()));
    assert!(arguments.contains(&"/tmp/.X11-unix/X3:/tmp/.X11-unix/X3:rw".to_string()));
    assert_eq!(arguments.last().map(String::as_str), Some("example/gui:1"));
}

#[test]
fn xvfb_reports_its_display() {
    assert_eq!(display_name_from_line(" 7\n").unwrap(), ":7");
    assert_eq!(display_name_from_line("seven\n").unwrap_err(), "seven");
    assert_eq!(display_name_from_line("70000").unwrap_err(), "70000");
    assert_eq!(xvfb_arguments()[4], "4096x4096x24");
}

#[test]
fn frames_sway_ipc_messages() {
    let request = ipc_request(IPC_RUN_COMMAND, b"exit");
    assert_eq!(&request[..6], b"i3-ipc");
    assert_eq!(&request[6..10], &4u32.to_ne_bytes());
    assert_eq!(&request[10..14], &0u32.to_ne_bytes());
    assert_eq!(&request[14..], b"exit");
    let mut header = [0u8; 14];
    header[..6].copy_from_slice(b"i3-ipc");
    header[6..10].copy_from_slice(&12u32.to_ne_bytes());
    assert_eq!(ipc_reply_length(&header), Some(12));
    header[0] = b'x';
    assert_eq!(ipc_reply_length(&header), None);
    assert!(is_sway_ipc_socket("sway-ipc.1000.42.sock"));
    assert!(!is_sway_ipc_socket("wayland-1"));
    assert_eq!(resize_command(1024, 768), "output HEADLESS-1 resolution 1024x768");
    assert!(command_succeeded(&Some(vec![Some(true), Some(true)])));
    assert!(!command_succeeded(&Some(vec![Some(true), None])));
    assert!(!command_succeeded(&None));
}
