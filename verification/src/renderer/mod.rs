mod frame;
mod tiles;
mod update;

pub use frame::{
    colour_from, cropped_pixels, dirty_row_from, dirty_tiles_from, frame_error_text, min_u32,
    pixel_at, rgb_len, row_slice, rows_differ, tile_differs_spec, Frame, FrameError, FrameView,
    Rect,
};
pub use tiles::{
    comparable, lemma_changed_pixels_covered, lemma_dirty_tiles_sound,
    lemma_unchanged_frame_has_no_dirty_tiles, rect_contains, rect_inside,
};
pub use update::{
    area_of, lemma_area_concat, lemma_dirty_area, plan_from_step, tiles_area, PlanStep,
    TilePlanner, UpdatePlan, UpdatePlanView,
};
