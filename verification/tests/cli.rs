use micro_gui::cli::{
    clean_table_cell, looks_like_oci_reference, map_terminal_input, parse_agent_options,
    parse_command, parse_demo_options, parse_run_options, session_runtime_name,
    session_table_header, session_table_row, AgentOptions, Command, RenderStats, RunOptions, HELP,
};
use micro_gui::protocol::{InputEvent, MouseButton, MouseEvent, MouseKind, ViewportMapping};
use micro_gui::terminal::RenderOutcome;

fn strings(values: &[&str]) -> Vec<String> {
    values.iter().map(|value| value.to_string()).collect()
}

#[test]
fn parses_demo_dimensions() {
    let options = parse_demo_options(&strings(&["--width", "640", "--height", "360"])).unwrap();
    assert_eq!(options.width, 640);
    assert_eq!(options.height, 360);
}

#[test]
fn rejects_unknown_runtime() {
    let error = parse_run_options(&strings(&["xeyes", "--runtime", "unknown"])).unwrap_err();
    assert!(error.contains("unsupported runtime"));
}

#[test]
fn accepts_oci_runtime_aliases() {
    for runtime in ["oci", "docker"] {
        let options =
            parse_run_options(&strings(&["example/gui:1", "--runtime", runtime])).unwrap();
        assert_eq!(options.runtime, runtime);
    }
}

#[test]
fn infers_oci_runtime_from_registry_reference() {
    let options = parse_run_options(&strings(&["ghcr.io/example/gui:1"])).unwrap();
    assert_eq!(options.runtime, "oci");
    assert!(!looks_like_oci_reference("./target/debug/gui"));
}

#[test]
fn separates_application_arguments_after_double_dash() {
    let options =
        parse_run_options(&strings(&["viewer", "--runtime", "native", "--", "a file.png"]))
            .unwrap();
    assert_eq!(
        options,
        RunOptions {
            application: "viewer".into(),
            application_arguments: vec!["a file.png".into()],
            runtime: "native".into(),
            fps: 30,
            stats: false,
            firecrab_endpoint: None,
        }
    );
}

#[test]
fn parses_frame_rate_and_stats() {
    let options = parse_run_options(&strings(&["xeyes", "--fps", "45", "--stats"])).unwrap();
    assert_eq!(options.fps, 45);
    assert!(options.stats);
}

#[test]
fn sanitizes_session_table_cells() {
    assert_eq!(clean_table_cell("app\nname\t1"), "app name 1");
}

#[test]
fn demo_rejects_each_kind_of_bad_input() {
    assert_eq!(
        parse_demo_options(&strings(&["--depth", "3"])).unwrap_err(),
        "unknown demo option '--depth'"
    );
    assert_eq!(
        parse_demo_options(&strings(&["--width"])).unwrap_err(),
        "--width requires a value"
    );
    assert_eq!(
        parse_demo_options(&strings(&["--height", "tall"])).unwrap_err(),
        "'tall' is not a valid pixel size"
    );
    assert_eq!(
        parse_demo_options(&strings(&["--width", "0"])).unwrap_err(),
        "demo dimensions must be greater than zero"
    );
    assert_eq!(
        parse_demo_options(&strings(&["--height", "5000"])).unwrap_err(),
        "demo dimensions must not exceed 4096 pixels"
    );
    let defaults = parse_demo_options(&[]).unwrap();
    assert_eq!((defaults.width, defaults.height), (320, 180));
}

#[test]
fn run_rejects_each_kind_of_bad_input() {
    assert_eq!(parse_run_options(&[]).unwrap_err(), "run requires an application");
    assert_eq!(
        parse_run_options(&strings(&["app", "--runtime"])).unwrap_err(),
        "--runtime requires a value"
    );
    assert_eq!(
        parse_run_options(&strings(&["app", "--fps"])).unwrap_err(),
        "--fps requires a value"
    );
    assert_eq!(
        parse_run_options(&strings(&["app", "--fps", "fast"])).unwrap_err(),
        "'fast' is not a valid frame rate"
    );
    assert_eq!(
        parse_run_options(&strings(&["app", "--fps", "61"])).unwrap_err(),
        "--fps must be between 1 and 60"
    );
    assert_eq!(
        parse_run_options(&strings(&["app", "--firecrab-endpoint"])).unwrap_err(),
        "--firecrab-endpoint requires a value"
    );
    assert_eq!(
        parse_run_options(&strings(&["app", "extra"])).unwrap_err(),
        "unexpected argument 'extra'; put application arguments after --"
    );
}

#[test]
fn explicit_runtime_wins_over_an_image_reference() {
    let options =
        parse_run_options(&strings(&["ghcr.io/example/gui:1", "--runtime", "native"])).unwrap();
    assert_eq!(options.runtime, "native");
    let options = parse_run_options(&strings(&[
        "app",
        "--firecrab-endpoint",
        "10.0.0.2:5943",
        "--",
        "--fps",
        "x",
    ]))
    .unwrap();
    assert_eq!(options.firecrab_endpoint.as_deref(), Some("10.0.0.2:5943"));
    assert_eq!(options.application_arguments, vec!["--fps".to_string(), "x".to_string()]);
}

#[test]
fn recognises_oci_references() {
    assert!(looks_like_oci_reference("example/gui:1"));
    assert!(looks_like_oci_reference("gui@sha256:abc"));
    assert!(looks_like_oci_reference("gui:latest"));
    assert!(!looks_like_oci_reference("xeyes"));
    assert!(!looks_like_oci_reference("/usr/bin/xeyes"));
    assert!(!looks_like_oci_reference("../bin/gui"));
}

#[test]
fn parses_agent_options() {
    let options = parse_agent_options(&strings(&[
        "xeyes", "--width", "800", "--height", "600", "--fps", "20", "--listen", "127.0.0.1:1",
        "--", "-geometry", "10x10",
    ]))
    .unwrap();
    assert_eq!(
        options,
        AgentOptions {
            application: "xeyes".into(),
            listen: "127.0.0.1:1".into(),
            width: 800,
            height: 600,
            fps: 20,
            arguments: vec!["-geometry".into(), "10x10".into()],
        }
    );
    let defaults = parse_agent_options(&strings(&["xeyes"])).unwrap();
    assert_eq!(defaults.listen, "0.0.0.0:5943");
    assert_eq!((defaults.width, defaults.height, defaults.fps), (640, 360, 30));
    assert_eq!(parse_agent_options(&[]).unwrap_err(), "agent requires an application");
    assert_eq!(
        parse_agent_options(&strings(&["xeyes", "--width", "0"])).unwrap_err(),
        "agent dimensions must be non-zero"
    );
    assert_eq!(
        parse_agent_options(&strings(&["xeyes", "--fps", "0"])).unwrap_err(),
        "agent FPS must be between 1 and 60"
    );
    assert_eq!(
        parse_agent_options(&strings(&["xeyes", "--fps", "x"])).unwrap_err(),
        "'x' is not a valid number"
    );
    assert_eq!(
        parse_agent_options(&strings(&["xeyes", "--listen"])).unwrap_err(),
        "--listen requires a value"
    );
    assert_eq!(
        parse_agent_options(&strings(&["xeyes", "--bogus"])).unwrap_err(),
        "unknown agent option '--bogus'"
    );
}

#[test]
fn dispatches_commands() {
    assert_eq!(parse_command(&[]).unwrap(), Command::Help);
    assert_eq!(parse_command(&strings(&["-h"])).unwrap(), Command::Help);
    assert_eq!(parse_command(&strings(&["-V"])).unwrap(), Command::Version);
    assert_eq!(parse_command(&strings(&["doctor"])).unwrap(), Command::Doctor);
    assert_eq!(
        parse_command(&strings(&["doctor", "x"])).unwrap_err(),
        "doctor does not accept arguments"
    );
    assert_eq!(parse_command(&strings(&["ps"])).unwrap(), Command::Ps);
    assert_eq!(parse_command(&strings(&["ps", "-a"])).unwrap_err(), "ps does not accept arguments");
    assert_eq!(
        parse_command(&strings(&["stop", "gui-1"])).unwrap(),
        Command::Stop("gui-1".into())
    );
    assert_eq!(
        parse_command(&strings(&["stop"])).unwrap_err(),
        "stop requires exactly one session id"
    );
    match parse_command(&strings(&["run", "xeyes", "--stats"])).unwrap() {
        Command::Run(options) => assert!(options.stats),
        other => panic!("unexpected command {other:?}"),
    }
    let error = parse_command(&strings(&["launch"])).unwrap_err();
    assert_eq!(error, format!("unknown command 'launch'\n\n{HELP}"));
}

#[test]
fn formats_the_session_table() {
    assert_eq!(session_table_header(), format!("{:<18} {:<10} {:<8} APP", "ID", "RUNTIME", "PID"));
    assert_eq!(
        session_table_row("gui-7", "oci", 7, "my\tapp"),
        format!("{:<18} {:<10} {:<8} {}", "gui-7", "oci", 7, "my app")
    );
    assert_eq!(session_runtime_name("docker"), "oci");
    assert_eq!(session_runtime_name("native"), "native");
}

#[test]
fn maps_mouse_cells_to_pixels_and_leaves_other_input() {
    let mapping = ViewportMapping::new(80, 24, 800, 600).unwrap();
    let mouse = InputEvent::Mouse(MouseEvent {
        x: 40,
        y: 12,
        button: Some(MouseButton::Left),
        kind: MouseKind::Press,
        modifiers: 1,
    });
    assert_eq!(
        map_terminal_input(mouse, mapping),
        InputEvent::Mouse(MouseEvent {
            x: 400,
            y: 300,
            button: Some(MouseButton::Left),
            kind: MouseKind::Press,
            modifiers: 1,
        })
    );
    let text = InputEvent::Text("hi".into());
    assert_eq!(map_terminal_input(text.clone(), mapping), text);
}

#[test]
fn counts_render_outcomes() {
    let mut stats = RenderStats::new();
    stats.poll();
    stats.observe(RenderOutcome::Full);
    stats.poll();
    stats.observe(RenderOutcome::Tiles(3));
    stats.poll();
    stats.observe(RenderOutcome::Unchanged);
    stats.poll();
    stats.skip();
    assert_eq!(
        stats.report(),
        "micro-gui render stats: polls=4, captured=3, full=1, tile_frames=1, tiles=3, unchanged=1, skipped=1"
    );
}
