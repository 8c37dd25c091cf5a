//! Planning what to send for a new frame: nothing, the whole frame, or the
//! changed tiles. The share of changed pixels at which a full frame is
//! preferred is a fraction that the caller compares.
use vstd::prelude::*;

use super::frame::{dirty_row_from, dirty_tiles_from, min_u32, Frame, FrameView, Rect};

verus! {

/// What to send for a frame.
#[derive(Debug, Clone, PartialEq)]
pub enum UpdatePlan {
    Unchanged,
    Full,
    Tiles(Vec<Rect>),
}

pub enum UpdatePlanView {
    Unchanged,
    Full,
    Tiles(Seq<Rect>),
}

impl View for UpdatePlan {
    type V = UpdatePlanView;

    open spec fn view(&self) -> UpdatePlanView {
        match self {
            UpdatePlan::Unchanged => UpdatePlanView::Unchanged,
            UpdatePlan::Full => UpdatePlanView::Full,
            UpdatePlan::Tiles(tiles) => UpdatePlanView::Tiles(tiles@),
        }
    }
}

/// Total number of pixels of the rectangles.
pub open spec fn area_of(tiles: Seq<Rect>) -> int
    decreases tiles.len(),
{
    if tiles.len() == 0 {
        0
    } else {
        area_of(tiles.drop_last()) + tiles.last().width * tiles.last().height
    }
}

pub proof fn lemma_area_concat(a: Seq<Rect>, b: Seq<Rect>)
    ensures
        area_of(a + b) == area_of(a) + area_of(b),
    decreases b.len(),
{
    if b.len() > 0 {
        assert((a + b).drop_last() =~= a + b.drop_last());
        lemma_area_concat(a, b.drop_last());
    } else {
        assert(a + b =~= a);
    }
}

proof fn lemma_area_nonnegative(tiles: Seq<Rect>)
    ensures
        area_of(tiles) >= 0,
    decreases tiles.len(),
{
    if tiles.len() > 0 {
        lemma_area_nonnegative(tiles.drop_last());
        let r = tiles.last();
        assert(r.width * r.height >= 0) by (nonlinear_arith);
    }
}

proof fn lemma_area_prefix(tiles: Seq<Rect>, i: int)
    requires
        0 <= i <= tiles.len(),
    ensures
        area_of(tiles.take(i)) <= area_of(tiles),
{
    assert(tiles =~= tiles.take(i) + tiles.skip(i));
    lemma_area_concat(tiles.take(i), tiles.skip(i));
    lemma_area_nonnegative(tiles.skip(i));
}

/// The changed tiles of one tile row cover at most its width times its height.
proof fn lemma_row_area(
    current: FrameView,
    previous: FrameView,
    tile_size: u32,
    y: u32,
    h: u32,
    x: nat,
)
    ensures
        area_of(dirty_row_from(current, previous, tile_size, y, h, x)) <= (if x < current.width {
            (current.width - x) * h
        } else {
            0
        }),
    decreases current.width + tile_size - x,
{
    if x >= current.width || tile_size == 0 {
    } else {
        let w = min_u32(tile_size, (current.width - x) as u32);
        let rect = Rect { x: x as u32, y, width: w, height: h };
        let rest = dirty_row_from(current, previous, tile_size, y, h, x + tile_size as nat);
        lemma_row_area(current, previous, tile_size, y, h, x + tile_size as nat);
        let here = if super::frame::tile_differs_spec(current, previous, rect) {
            seq![rect]
        } else {
            Seq::empty()
        };
        lemma_area_concat(here, rest);
        assert(area_of(seq![rect]) == w * h) by {
            assert(seq![rect].drop_last() =~= Seq::<Rect>::empty());
        }
        assert(area_of(here) <= w * h) by {
            assert(w * h >= 0) by (nonlinear_arith);
        }
        let next = x + tile_size;
        if next < current.width {
            assert(w == tile_size);
            assert(w * h + (current.width - next) * h == (current.width - x) * h) by (nonlinear_arith)
                requires
                    next == x + w,
            ;
        } else {
            assert(w * h <= (current.width - x) * h) by (nonlinear_arith)
                requires
                    w <= current.width - x,
            ;
        }
    }
}

/// All changed tiles together cover at most the frame's area.
pub proof fn lemma_dirty_area(current: FrameView, previous: FrameView, tile_size: u32, y: nat)
    ensures
        area_of(dirty_tiles_from(current, previous, tile_size, y)) <= (if y < current.height {
            current.width * (current.height - y)
        } else {
            0
        }),
    decreases current.height + tile_size - y,
{
    if y >= current.height || tile_size == 0 {
    } else {
        let h = min_u32(tile_size, (current.height - y) as u32);
        lemma_row_area(current, previous, tile_size, y as u32, h, 0);
        lemma_dirty_area(current, previous, tile_size, y + tile_size as nat);
        lemma_area_concat(
            dirty_row_from(current, previous, tile_size, y as u32, h, 0),
            dirty_tiles_from(current, previous, tile_size, y + tile_size as nat),
        );
        let next = y + tile_size;
        if next < current.height {
            assert(h == tile_size);
            assert(current.width * h + current.width * (current.height - next) == current.width * (
            current.height - y)) by (nonlinear_arith)
                requires
                    next == y + h,
            ;
        } else {
            assert(current.width * h <= current.width * (current.height - y)) by (nonlinear_arith)
                requires
                    h <= current.height - y,
            ;
        }
        if current.width == 0 {
            assert(current.width * (current.height - y) == 0);
        }
    }
}

/// Total area of `tiles`.
pub fn tiles_area(tiles: &Vec<Rect>) -> (area: u64)
    requires
        area_of(tiles@) <= u64::MAX,
    ensures
        area == area_of(tiles@),
{
    let mut area: u64 = 0;
    for i in 0..tiles.len()
        invariant
            area == area_of(tiles@.take(i as int)),
            area_of(tiles@) <= u64::MAX,
    {
        proof {
            assert(tiles@.take(i + 1).drop_last() =~= tiles@.take(i as int));
            lemma_area_prefix(tiles@, i + 1);
        }
        let r = tiles[i];
        area = area + (r.width as u64) * (r.height as u64);
    }
    assert(tiles@.take(tiles.len() as int) =~= tiles@);
    area
}

/// What the planner finds for a new frame before the full-frame threshold
/// is applied: send it whole, send nothing, or the changed tiles with their
/// total area and the frame's area.
#[derive(Debug, Clone, PartialEq)]
pub enum PlanStep {
    Full,
    Unchanged,
    Dirty { tiles: Vec<Rect>, dirty_pixels: u64, total_pixels: u64 },
}

/// Remembers the last planned frame and finds the tiles that changed since.
pub struct TilePlanner {
    previous: Option<Frame>,
    tile_size: u32,
}

impl TilePlanner {
    pub closed spec fn previous_frame(&self) -> Option<FrameView> {
        match self.previous {
            Some(frame) => Some(frame@),
            None => None,
        }
    }

    pub closed spec fn tile_size_spec(&self) -> u32 {
        self.tile_size
    }

    #[verifier::type_invariant]
    spec fn tile_size_positive(&self) -> bool {
        self.tile_size > 0
    }

    /// A planner with no frame yet; `tile_size` must not be zero.
    pub fn new(tile_size: u32) -> (planner: Self)
        requires
            tile_size > 0,
        ensures
            planner.previous_frame() is None,
            planner.tile_size_spec() == tile_size,
    {
        TilePlanner { previous: None, tile_size }
    }

    /// Side of the tiles.
    pub fn tile_size(&self) -> (size: u32)
        ensures
            size == self.tile_size_spec(),
            size > 0,
    {
        proof {
            use_type_invariant(self);
        }
        self.tile_size
    }

    /// The last planned frame.
    pub fn previous(&self) -> (previous: Option<&Frame>)
        ensures
            match previous {
                Some(frame) => self.previous_frame() == Some(frame@),
                None => self.previous_frame() is None,
            },
    {
        match &self.previous {
            Some(frame) => Some(frame),
            None => None,
        }
    }

    /// Forgets the last frame, so that the next one is sent whole.
    pub fn reset(&mut self)
        ensures
            final(self).previous_frame() is None,
            final(self).tile_size_spec() == old(self).tile_size_spec(),
    {
        proof {
            use_type_invariant(&*self);
        }
        self.previous = None;
    }

    /// Compares `current` with the last planned frame and remembers it:
    /// a first frame, or one of another size, is sent whole; otherwise the
    /// changed tiles decide.
    pub fn step(&mut self, current: &Frame) -> (step: PlanStep)
        ensures
            final(self).previous_frame() == Some(current@),
            final(self).tile_size_spec() == old(self).tile_size_spec(),
            match old(self).previous_frame() {
                None => step == PlanStep::Full,
                Some(previous) => if previous.width != current@.width || previous.height
                    != current@.height {
                    step == PlanStep::Full
                } else {
                    let tiles = dirty_tiles_from(current@, previous, old(self).tile_size_spec(), 0);
                    if tiles.len() == 0 {
                        step == PlanStep::Unchanged
                    } else {
                        step matches PlanStep::Dirty { tiles: t, dirty_pixels, total_pixels } && t@
                            == tiles && dirty_pixels == area_of(tiles) && total_pixels
                            == current@.width * current@.height
                    }
                },
            },
    {
        proof {
            use_type_invariant(&*self);
        }
        let step = match &self.previous {
            None => PlanStep::Full,
            Some(previous) => {
                if previous.width() != current.width() || previous.height() != current.height() {
                    PlanStep::Full
                } else {
                    let tiles = current.dirty_tiles(previous, self.tile_size);
                    if tiles.len() == 0 {
                        PlanStep::Unchanged
                    } else {
                        proof {
                            lemma_dirty_area(current@, previous@, self.tile_size, 0);
                            let w = current@.width as int;
                            let h = current@.height as int;
                            assert(w * h <= u64::MAX) by (nonlinear_arith)
                                requires
                                    0 <= w <= u32::MAX,
                                    0 <= h <= u32::MAX,
                            ;
                        }
                        let dirty_pixels = tiles_area(&tiles);
                        let total_pixels = (current.width() as u64) * (current.height() as u64);
                        PlanStep::Dirty { tiles, dirty_pixels, total_pixels }
                    }
                }
            },
        };
        self.previous = Some(current.clone());
        step
    }
}

/// The plan for a step, once the caller has compared the changed share
/// `dirty_pixels / total_pixels` with its full-frame threshold.
pub fn plan_from_step(step: PlanStep, threshold_reached: bool) -> (plan: UpdatePlan)
    ensures
        match step {
            PlanStep::Full => plan == UpdatePlan::Full,
            PlanStep::Unchanged => plan == UpdatePlan::Unchanged,
            PlanStep::Dirty { tiles, .. } => if threshold_reached {
                plan == UpdatePlan::Full
            } else {
                plan@ == UpdatePlanView::Tiles(tiles@)
            },
        },
{
    match step {
        PlanStep::Full => UpdatePlan::Full,
        PlanStep::Unchanged => UpdatePlan::Unchanged,
        PlanStep::Dirty { tiles, .. } => {
            if threshold_reached {
                UpdatePlan::Full
            } else {
                UpdatePlan::Tiles(tiles)
            }
        },
    }
}

} // verus!
