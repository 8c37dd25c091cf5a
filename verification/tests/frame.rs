use micro_gui::renderer::{plan_from_step, Frame, FrameError, PlanStep, Rect, TilePlanner, UpdatePlan};

#[test]
fn rejects_wrong_buffer_size() {
    assert_eq!(
        Frame::new_rgb(2, 1, vec![0; 5]).unwrap_err(),
        FrameError::InvalidBufferLength { expected: 6, actual: 5 }
    );
}

#[test]
fn identifies_only_changed_tiles() {
    let before = Frame::new_rgb(4, 4, vec![0; 4 * 4 * 3]).unwrap();
    let after = Frame::from_rgb_fn(4, 4, |x, y| if x == 3 && y == 0 { [1, 1, 1] } else { [0, 0, 0] });
    assert_eq!(
        after.dirty_tiles(&before, 2),
        vec![Rect { x: 2, y: 0, width: 2, height: 2 }]
    );
}

#[test]
fn crops_rgb_rows_without_padding() {
    let frame = Frame::from_rgb_fn(3, 2, |x, y| [x as u8, y as u8, 9]);
    let crop = frame.crop(Rect { x: 1, y: 0, width: 2, height: 2 }).unwrap();
    assert_eq!(crop.pixels(), &[1, 0, 9, 2, 0, 9, 1, 1, 9, 2, 1, 9]);
}

/// A planner that switches to full frames once a share of the pixels changed.
struct Planner {
    tiles: TilePlanner,
    full_threshold: f32,
}

impl Planner {
    fn new(tile_size: u32, full_threshold: f32) -> Self {
        Planner { tiles: TilePlanner::new(tile_size), full_threshold }
    }

    fn plan(&mut self, frame: &Frame) -> UpdatePlan {
        let step = self.tiles.step(frame);
        let reached = match &step {
            PlanStep::Dirty { dirty_pixels, total_pixels, .. } => {
                *dirty_pixels as f64 / *total_pixels as f64 >= f64::from(self.full_threshold)
            }
            _ => false,
        };
        plan_from_step(step, reached)
    }
}

fn frame(changed: &[(u32, u32)]) -> Frame {
    Frame::from_rgb_fn(8, 8, |x, y| if changed.contains(&(x, y)) { [1, 1, 1] } else { [0, 0, 0] })
}

#[test]
fn plans_full_then_unchanged_then_tiles() {
    let mut planner = Planner::new(4, 0.5);
    assert_eq!(planner.plan(&frame(&[])), UpdatePlan::Full);
    assert_eq!(planner.plan(&frame(&[])), UpdatePlan::Unchanged);
    assert_eq!(
        planner.plan(&frame(&[(1, 1)])),
        UpdatePlan::Tiles(vec![Rect { x: 0, y: 0, width: 4, height: 4 }])
    );
}

#[test]
fn switches_to_full_when_dirty_area_crosses_threshold() {
    let mut planner = Planner::new(4, 0.5);
    planner.plan(&frame(&[]));
    assert_eq!(planner.plan(&frame(&[(1, 1), (5, 1)])), UpdatePlan::Full);
}

#[test]
fn frame_compared_with_itself_has_no_dirty_tile() {
    let image = Frame::from_rgb_fn(5, 3, |x, y| [x as u8, y as u8, 7]);
    assert!(image.dirty_tiles(&image.clone(), 2).is_empty());
}

#[test]
fn tiles_at_the_edges_are_smaller() {
    let before = Frame::new_rgb(5, 3, vec![0; 5 * 3 * 3]).unwrap();
    let after = Frame::from_rgb_fn(5, 3, |x, y| if (x, y) == (4, 2) { [9, 9, 9] } else { [0, 0, 0] });
    assert_eq!(after.dirty_tiles(&before, 2), vec![Rect { x: 4, y: 2, width: 1, height: 1 }]);
    let other_size = Frame::new_rgb(2, 2, vec![0; 12]).unwrap();
    assert_eq!(
        after.dirty_tiles(&other_size, 2),
        vec![Rect { x: 0, y: 0, width: 5, height: 3 }]
    );
}

#[test]
fn planner_reports_dirty_area() {
    let mut planner = TilePlanner::new(4);
    assert_eq!(planner.step(&frame(&[])), PlanStep::Full);
    match planner.step(&frame(&[(1, 1), (5, 5)])) {
        PlanStep::Dirty { tiles, dirty_pixels, total_pixels } => {
            assert_eq!(tiles.len(), 2);
            assert_eq!((dirty_pixels, total_pixels), (32, 64));
        }
        other => panic!("unexpected step {other:?}"),
    }
    planner.reset();
    assert_eq!(planner.step(&frame(&[])), PlanStep::Full);
    assert_eq!(planner.tile_size(), 4);
}

#[test]
fn frame_errors_have_messages() {
    assert_eq!(FrameError::DimensionsOverflow.message(), "frame dimensions overflow");
    assert_eq!(
        FrameError::InvalidBufferLength { expected: 6, actual: 5 }.message(),
        "invalid RGB buffer length: expected 6 bytes, got 5"
    );
    let frame = Frame::new_rgb(2, 2, vec![0; 12]).unwrap();
    let error = frame.crop(Rect { x: 1, y: 1, width: 2, height: 1 }).unwrap_err();
    assert_eq!(error.message(), "invalid frame crop Rect { x: 1, y: 1, width: 2, height: 1 }");
}
