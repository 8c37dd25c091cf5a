use micro_gui::cli::{parse_run_options, LoopEvent, LoopStep, SessionLoop};
use micro_gui::display::{frame_from_pixels, pixel_format_of, ChannelFormat, PixelFormat};
use micro_gui::protocol::{InputEvent, MouseButton, MouseEvent, MouseKind};
use micro_gui::renderer::{Frame, Rect, UpdatePlan};
use micro_gui::runtime::{check_resize, resize_reply_outcome, FirecrabError, WaylandReplyError};
use micro_gui::session::{
    check_running, stop_outcome, RegistryError, SessionRecord, SignalOutcome,
};
use micro_gui::terminal::{
    render_demo, DemoOptions, KittyCanvas, RenderOutcome, TerminalAction, TileRenderer,
};

fn mouse(x: u32, y: u32) -> InputEvent {
    InputEvent::Mouse(MouseEvent {
        x,
        y,
        button: Some(MouseButton::Left),
        kind: MouseKind::Press,
        modifiers: 0,
    })
}

#[test]
fn session_loop_renders_first_then_only_new_frames() {
    let mut session = SessionLoop::new(0, 0, 640, 360).unwrap();
    assert_eq!(session.size(), (1, 1));
    assert_eq!(session.step(LoopEvent::Tick { frame_pending: false }), LoopStep::Render);
    assert_eq!(session.step(LoopEvent::Tick { frame_pending: false }), LoopStep::Skip);
    assert_eq!(session.step(LoopEvent::Tick { frame_pending: true }), LoopStep::Render);
    assert!(SessionLoop::new(80, 24, 0, 360).is_none());
}

#[test]
fn session_loop_resync_after_resize_and_quit() {
    let mut session = SessionLoop::new(80, 24, 640, 360).unwrap();
    assert_eq!(session.step(LoopEvent::Tick { frame_pending: false }), LoopStep::Render);
    let step = session.step(LoopEvent::Terminal(TerminalAction::Resize { columns: 0, rows: 10 }));
    assert_eq!(step, LoopStep::Resize { columns: 1, rows: 10 });
    assert_eq!(session.size(), (1, 10));
    assert_eq!(session.step(LoopEvent::Tick { frame_pending: false }), LoopStep::Render);
    assert_eq!(session.step(LoopEvent::Terminal(TerminalAction::Quit)), LoopStep::Quit);
}

#[test]
fn session_loop_maps_input_to_display_pixels() {
    let mut session = SessionLoop::new(80, 24, 640, 360).unwrap();
    let step = session.step(LoopEvent::Terminal(TerminalAction::Input(mouse(40, 12))));
    assert_eq!(step, LoopStep::Inject(mouse(320, 180)));
    let text = InputEvent::Text("a".into());
    assert_eq!(
        session.step(LoopEvent::Terminal(TerminalAction::Input(text.clone()))),
        LoopStep::Inject(text)
    );
}

#[test]
fn decodes_x11_pixels_into_frames() {
    let format = PixelFormat {
        red: ChannelFormat { width: 8, shift: 16 },
        green: ChannelFormat { width: 8, shift: 8 },
        blue: ChannelFormat { width: 8, shift: 0 },
    };
    assert!(format.is_valid());
    let frame = frame_from_pixels(2, 1, format, &vec![0x78AB_4321, 0x00FF_0080]).unwrap();
    assert_eq!(frame.pixels(), &[0xAB, 0x43, 0x21, 0xFF, 0x00, 0x80]);
    assert!(frame_from_pixels(2, 2, format, &vec![0; 3]).is_err());
    let narrow = PixelFormat {
        red: ChannelFormat { width: 5, shift: 11 },
        green: ChannelFormat { width: 6, shift: 5 },
        blue: ChannelFormat { width: 5, shift: 0 },
    };
    let frame = frame_from_pixels(1, 1, narrow, &vec![0xFFFF]).unwrap();
    assert_eq!(frame.pixels(), &[0xFF, 0xFF, 0xFF]);
    let bad = PixelFormat { red: ChannelFormat { width: 0, shift: 0 }, ..format };
    assert!(!bad.is_valid());
}

#[test]
fn reads_sway_run_command_replies() {
    assert_eq!(resize_reply_outcome(br#"[{"success":true},{"success":true}]"#), Ok(()));
    assert_eq!(
        resize_reply_outcome(br#"[{"success":false,"error":"x"}]"#),
        Err(WaylandReplyError::CommandFailed(r#"[{"error":"x","success":false}]"#.into()))
    );
    assert!(matches!(
        resize_reply_outcome(br#"{"success":true}"#),
        Err(WaylandReplyError::CommandFailed(_))
    ));
    assert!(matches!(resize_reply_outcome(b"not json"), Err(WaylandReplyError::InvalidReply(_))));
}

#[test]
fn resizes_are_checked_before_they_are_sent() {
    assert!(check_resize(1920, 1080).is_ok());
    assert!(check_resize(0, 0).is_ok());
    if usize::BITS == 32 {
        match check_resize(u16::MAX, u16::MAX) {
            Err(error) => assert_eq!(error.message(), "frame dimensions overflow"),
            Ok(()) => panic!("a frame of this size does not fit"),
        }
    }
    let _ = FirecrabError::HandshakeTimeout;
}

fn record() -> SessionRecord {
    SessionRecord {
        id: "gui-7".into(),
        pid: 7,
        process_start_ticks: 99,
        started_unix_seconds: 1,
        application: "xclock".into(),
        runtime: "native".into(),
    }
}

#[test]
fn stopping_a_session_reports_each_outcome() {
    assert!(check_running("gui-7", &record(), Some(99)).is_ok());
    match check_running("gui-7", &record(), Some(98)) {
        Err(error) => assert_eq!(error.message(), "session 'gui-7' is no longer running"),
        Ok(()) => panic!("another process now has this pid"),
    }
    assert!(matches!(check_running("gui-7", &record(), None), Err(RegistryError::StaleSession(_))));
    assert_eq!(stop_outcome("gui-7", record(), SignalOutcome::Delivered).unwrap(), record());
    assert!(matches!(
        stop_outcome("gui-7", record(), SignalOutcome::NoSuchProcess),
        Err(RegistryError::StaleSession(_))
    ));
    match stop_outcome("gui-7", record(), SignalOutcome::Failed("EPERM".into())) {
        Err(error) => assert_eq!(error.message(), "could not stop session: EPERM"),
        Ok(_) => panic!("the signal failed"),
    }
}

#[test]
fn tile_ids_are_checked_against_u32() {
    let canvas = KittyCanvas::new(Vec::new(), 80, 24, 64);
    let frame = Frame::from_rgb_fn(128, 64, |_, _| [0, 0, 0]);
    let plan = UpdatePlan::Tiles(vec![Rect { x: 64, y: 0, width: 64, height: 64 }]);
    assert!(canvas.tile_ids_fit(&frame, &plan));
    assert!(canvas.tile_ids_fit(&frame, &UpdatePlan::Full));
}

#[test]
fn arguments_after_the_first_separator_are_passed_through() {
    let args: Vec<String> =
        ["xterm", "--stats", "--", "--fps", "x", "--", "--runtime"].iter().map(|s| s.to_string()).collect();
    let before = parse_run_options(&args[..2]).unwrap();
    let all = parse_run_options(&args).unwrap();
    assert_eq!(all.application_arguments, args[3..].to_vec());
    assert_eq!(all.application, before.application);
    assert_eq!(all.runtime, before.runtime);
    assert_eq!(all.fps, before.fps);
    assert!(all.stats && before.stats);
}

#[test]
fn demo_writes_exactly_one_checkerboard_image() {
    let written = render_demo(Vec::new(), DemoOptions { width: 1, height: 1 });
    assert_eq!(String::from_utf8(written).unwrap(), "\x1b_Ga=T,f=24,s=1,v=1,i=1,q=1,m=0;RtOa\x1b\\");
}

#[test]
fn a_render_after_resize_is_always_full() {
    let frame = Frame::from_rgb_fn(128, 64, |x, _| [x as u8, 0, 0]);
    let mut renderer = TileRenderer::new(80, 24, 64);
    assert_eq!(renderer.render(&frame, |_, _| false).unwrap(), RenderOutcome::Full);
    assert_eq!(renderer.render(&frame, |_, _| false).unwrap(), RenderOutcome::Unchanged);
    let changed = Frame::from_rgb_fn(128, 64, |x, y| if x < 64 && y < 64 { [9, 9, 9] } else { [x as u8, 0, 0] });
    assert_eq!(renderer.render(&changed, |_, _| false).unwrap(), RenderOutcome::Tiles(1));
    let _ = renderer.take_output();
    renderer.resize(100, 30);
    assert_eq!(renderer.render(&changed, |_, _| false).unwrap(), RenderOutcome::Full);
    let text = String::from_utf8(renderer.take_output()).unwrap();
    assert!(text.starts_with("\x1b_Ga=d,d=I,i=2,q=1\x1b\\"));
    assert!(text.contains("i=1,"));
    assert!(text.contains("c=100,r=30"));
}

#[test]
fn the_full_frame_rule_decides_changed_frames() {
    let frame = Frame::from_rgb_fn(128, 64, |_, _| [0, 0, 0]);
    let changed = Frame::from_rgb_fn(128, 64, |x, _| if x < 64 { [1, 1, 1] } else { [0, 0, 0] });
    let mut renderer = TileRenderer::new(80, 24, 64);
    renderer.render(&frame, |_, _| false).unwrap();
    let seen = std::cell::Cell::new((0, 0));
    let outcome = renderer
        .render(&changed, |dirty, total| {
            seen.set((dirty, total));
            true
        })
        .unwrap();
    assert_eq!(outcome, RenderOutcome::Full);
    assert_eq!(seen.get(), (64 * 64, 128 * 64));
}

#[test]
fn reads_visual_masks() {
    let format = pixel_format_of(4, 0xff0000, 0x00ff00, 0x0000ff).unwrap();
    assert_eq!(format.red, ChannelFormat { width: 8, shift: 16 });
    assert_eq!(format.blue, ChannelFormat { width: 8, shift: 0 });
    assert!(pixel_format_of(3, 0xff0000, 0x00ff00, 0x0000ff).is_none());
    assert!(pixel_format_of(5, 0xff00ff, 0x00ff00, 0x0000ff).is_none());
    assert!(pixel_format_of(4, 0, 0x00ff00, 0x0000ff).is_none());
    assert!(pixel_format_of(4, 0x1ffff, 0x00ff00, 0x0000ff).is_none());
}
