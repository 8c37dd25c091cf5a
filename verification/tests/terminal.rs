use micro_gui::protocol::{InputEvent, KeyEvent, MouseButton, MouseEvent, MouseKind};
use micro_gui::renderer::{plan_from_step, Frame, PlanStep, Rect, TilePlanner, UpdatePlan};
use micro_gui::terminal::{
    checkerboard, decode_terminal_event, encode_base64, placement, render_demo, tile_image_id,
    DemoOptions, DoctorReport, KittyCanvas, KittyEncoder, RenderOutcome, TerminalAction,
    TerminalButton, TerminalEvent, TerminalGuard, TerminalKeyCode, TerminalKeyKind,
    TerminalMouseKind, TerminalStep, TERM_CONTROL,
};

#[test]
fn base64_matches_known_vectors() {
    assert_eq!(encode_base64(b""), "");
    assert_eq!(encode_base64(b"f"), "Zg==");
    assert_eq!(encode_base64(b"fo"), "Zm8=");
    assert_eq!(encode_base64(b"foo"), "Zm9v");
}

#[test]
fn emits_chunked_kitty_commands() {
    let frame = Frame::new_rgb(1, 1, vec![255, 0, 0]).unwrap();
    let mut encoder = KittyEncoder::new(Vec::new());
    encoder.transmit_rgb(&frame, 7).unwrap();
    let bytes = encoder.into_inner();
    let text = String::from_utf8(bytes).unwrap();
    assert_eq!(text, "\x1b_Ga=T,f=24,s=1,v=1,i=7,q=1,m=0;/wAA\x1b\\");
}

#[test]
fn includes_terminal_placement_when_requested() {
    let frame = Frame::new_rgb(1, 1, vec![0, 0, 0]).unwrap();
    let mut encoder = KittyEncoder::new(Vec::new());
    encoder.transmit_rgb_placed(&frame, 3, 80, 24).unwrap();
    let text = String::from_utf8(encoder.into_inner()).unwrap();
    assert!(text.starts_with("\x1b_Ga=T,f=24,s=1,v=1,i=3,q=1,c=80,r=24,m=0;"));
}

#[test]
fn fallback_key_press_synthesizes_release() {
    let actions = decode_terminal_event(
        TerminalEvent::Key {
            code: TerminalKeyCode::Char('a'),
            modifiers: 0,
            kind: TerminalKeyKind::Press,
        },
        false,
    );
    assert_eq!(actions.len(), 2);
    assert!(matches!(
        &actions[0],
        TerminalAction::Input(InputEvent::Key(KeyEvent { pressed: true, .. }))
    ));
    assert!(matches!(
        &actions[1],
        TerminalAction::Input(InputEvent::Key(KeyEvent { pressed: false, .. }))
    ));
}

#[test]
fn control_c_is_reserved_for_session_exit() {
    let actions = decode_terminal_event(
        TerminalEvent::Key {
            code: TerminalKeyCode::Char('c'),
            modifiers: TERM_CONTROL,
            kind: TerminalKeyKind::Press,
        },
        false,
    );
    assert_eq!(actions, vec![TerminalAction::Quit]);
}

#[test]
fn mouse_coordinates_are_preserved_as_cells() {
    let actions = decode_terminal_event(
        TerminalEvent::Mouse {
            kind: TerminalMouseKind::Down(TerminalButton::Left),
            column: 12,
            row: 7,
            modifiers: 0,
        },
        false,
    );
    assert!(matches!(
        &actions[0],
        TerminalAction::Input(InputEvent::Mouse(MouseEvent {
            x: 12,
            y: 7,
            kind: MouseKind::Press,
            button: Some(MouseButton::Left),
            ..
        }))
    ));
}

/// The planner the terminal renderer uses: 64-pixel tiles, full frame from
/// 35% changed pixels.
fn plan(planner: &mut TilePlanner, frame: &Frame) -> UpdatePlan {
    let step = planner.step(frame);
    let reached = match &step {
        PlanStep::Dirty { dirty_pixels, total_pixels, .. } => {
            *dirty_pixels as f64 / *total_pixels as f64 >= f64::from(0.35f32)
        }
        _ => false,
    };
    plan_from_step(step, reached)
}

#[test]
fn emits_full_then_nothing_then_a_positioned_tile() {
    let before = Frame::new_rgb(256, 128, vec![0; 256 * 128 * 3]).unwrap();
    let after = Frame::from_rgb_fn(256, 128, |x, y| if x == 1 && y == 1 { [1, 1, 1] } else { [0, 0, 0] });
    let mut planner = TilePlanner::new(64);
    let mut canvas = KittyCanvas::new(Vec::new(), 80, 24, 64);
    let first = plan(&mut planner, &before);
    assert_eq!(canvas.apply(&before, first).unwrap(), RenderOutcome::Full);
    let second = plan(&mut planner, &before);
    assert_eq!(canvas.apply(&before, second).unwrap(), RenderOutcome::Unchanged);
    let third = plan(&mut planner, &after);
    assert_eq!(canvas.apply(&after, third).unwrap(), RenderOutcome::Tiles(1));
    let output = String::from_utf8(canvas.into_inner()).unwrap();
    assert!(output.contains("i=1"));
    assert!(output.contains("\x1b[1;1H\x1b_Ga=T,f=24,s=64,v=64,i=2"));
}

#[test]
fn full_frames_delete_the_tiles_on_screen() {
    let frame = Frame::new_rgb(128, 64, vec![0; 128 * 64 * 3]).unwrap();
    let mut canvas = KittyCanvas::new(Vec::new(), 0, 0, 64);
    canvas
        .apply(
            &frame,
            UpdatePlan::Tiles(vec![
                Rect { x: 64, y: 0, width: 64, height: 64 },
                Rect { x: 0, y: 0, width: 64, height: 64 },
            ]),
        )
        .unwrap();
    let _ = canvas.take_output();
    assert_eq!(canvas.apply(&frame, UpdatePlan::Full).unwrap(), RenderOutcome::Full);
    let output = String::from_utf8(canvas.take_output()).unwrap();
    assert!(output.starts_with("\x1b_Ga=d,d=I,i=2,q=1\x1b\\\x1b_Ga=d,d=I,i=3,q=1\x1b\\\x1b[1;1H"));
    assert!(output.contains("i=1,q=1,c=1,r=1,"));
    canvas.clear().unwrap();
    assert_eq!(String::from_utf8(canvas.take_output()).unwrap(), "\x1b_Ga=d,d=I,i=1,q=1\x1b\\");
}

#[test]
fn stops_at_the_first_tile_outside_the_frame() {
    let frame = Frame::new_rgb(4, 4, vec![0; 48]).unwrap();
    let mut canvas = KittyCanvas::new(Vec::new(), 4, 4, 2);
    let result = canvas.apply(
        &frame,
        UpdatePlan::Tiles(vec![Rect { x: 0, y: 0, width: 2, height: 2 }, Rect { x: 3, y: 3, width: 2, height: 2 }]),
    );
    assert!(result.is_err());
    let output = String::from_utf8(canvas.into_inner()).unwrap();
    assert!(output.starts_with("\x1b[1;1H\x1b_Ga=T,f=24,s=2,v=2,i=2,q=1,c=2,r=2,"));
}

#[test]
fn places_tiles_over_the_cells_they_cover() {
    let frame = Frame::new_rgb(256, 128, vec![0; 256 * 128 * 3]).unwrap();
    assert_eq!(placement(Rect { x: 64, y: 64, width: 64, height: 64 }, &frame, 80, 24), (20, 12, 20, 12));
    assert_eq!(placement(Rect { x: 0, y: 0, width: 1, height: 1 }, &frame, 80, 24), (0, 0, 1, 1));
    assert_eq!(tile_image_id(Rect { x: 64, y: 64, width: 64, height: 64 }, 256, 64), 2 + 4 + 1);
    assert_eq!(tile_image_id(Rect { x: 0, y: 0, width: 64, height: 64 }, 100, 64), 2);
}

#[test]
fn guard_undoes_what_it_enables() {
    let guard = TerminalGuard::new(true);
    assert!(guard.keyboard_enhanced());
    assert_eq!(
        guard.enter_steps(),
        vec![
            TerminalStep::EnableRawMode,
            TerminalStep::EnterAlternateScreen,
            TerminalStep::EnableMouseCapture,
            TerminalStep::HideCursor,
            TerminalStep::ClearScreen,
            TerminalStep::MoveToOrigin,
            TerminalStep::PushKeyboardEnhancement,
            TerminalStep::Flush,
        ]
    );
    assert_eq!(guard.leave_steps()[0], TerminalStep::PopKeyboardEnhancement);
    assert_eq!(TerminalGuard::new(false).leave_steps(), TerminalGuard::abort_steps());
}

#[test]
fn renders_the_demo_checkerboard() {
    let options = DemoOptions { width: 64, height: 32 };
    let output = render_demo(Vec::new(), options);
    let text = String::from_utf8(output).unwrap();
    assert!(text.starts_with("\x1b_Ga=T,f=24,s=64,v=32,i=1,q=1,"));
    let board = checkerboard(64, 32);
    assert_eq!(&board.pixels()[..3], &[70, 211, 154]);
    assert_eq!(&board.pixels()[32 * 3..32 * 3 + 3], &[21, 32, 43]);
}

#[test]
fn doctor_recognises_kitty_terminals() {
    let report = DoctorReport::from_environment(true, Some("xterm-kitty".into()), None, false);
    assert!(report.kitty_graphics_likely);
    let report = DoctorReport::from_environment(true, Some("xterm".into()), Some("WezTerm".into()), false);
    assert!(report.kitty_graphics_likely);
    let report = DoctorReport::from_environment(false, None, None, false);
    assert!(!report.kitty_graphics_likely);
    assert!(report.report_text().contains("FAIL (stdout is redirected)"));
}
