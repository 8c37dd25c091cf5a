//! What the changed tiles of two frames promise: nothing changes between a
//! frame and itself, every reported tile lies in the frame and did change,
//! and every changed pixel lies in a reported tile.
use vstd::prelude::*;

use super::frame::{
    dirty_row_from, dirty_tiles_from, min_u32, pixel_at, rgb_len, row_slice, rows_differ,
    tile_differs_spec, FrameView, Rect,
};

verus! {

/// The pixel `(x, y)` lies in `rect`.
pub open spec fn rect_contains(rect: Rect, x: int, y: int) -> bool {
    rect.x <= x < rect.x + rect.width && rect.y <= y < rect.y + rect.height
}

/// `rect` is a non-empty rectangle inside a `width` by `height` frame.
pub open spec fn rect_inside(rect: Rect, width: u32, height: u32) -> bool {
    rect.width > 0 && rect.height > 0 && rect.x + rect.width <= width && rect.y + rect.height
        <= height
}

/// Two frames of the same size, each with a buffer of the right length.
pub open spec fn comparable(current: FrameView, previous: FrameView) -> bool {
    &&& current.width == previous.width
    &&& current.height == previous.height
    &&& current.pixels.len() == rgb_len(current.width, current.height)
    &&& previous.pixels.len() == rgb_len(previous.width, previous.height)
}

proof fn lemma_row_unchanged(frame: FrameView, tile_size: u32, y: u32, h: u32, x: nat)
    ensures
        dirty_row_from(frame, frame, tile_size, y, h, x) == Seq::<Rect>::empty(),
    decreases frame.width + tile_size - x,
{
    if x < frame.width && tile_size > 0 {
        let rect = Rect {
            x: x as u32,
            y,
            width: min_u32(tile_size, (frame.width - x) as u32),
            height: h,
        };
        assert(!tile_differs_spec(frame, frame, rect));
        lemma_row_unchanged(frame, tile_size, y, h, x + tile_size as nat);
        assert(Seq::<Rect>::empty() + Seq::<Rect>::empty() =~= Seq::<Rect>::empty());
    }
}

/// A frame compared with itself has no changed tile.
pub proof fn lemma_unchanged_frame_has_no_dirty_tiles(frame: FrameView, tile_size: u32, y: nat)
    ensures
        dirty_tiles_from(frame, frame, tile_size, y) == Seq::<Rect>::empty(),
    decreases frame.height + tile_size - y,
{
    if y < frame.height && tile_size > 0 {
        let h = min_u32(tile_size, (frame.height - y) as u32);
        lemma_row_unchanged(frame, tile_size, y as u32, h, 0);
        lemma_unchanged_frame_has_no_dirty_tiles(frame, tile_size, y + tile_size as nat);
        assert(Seq::<Rect>::empty() + Seq::<Rect>::empty() =~= Seq::<Rect>::empty());
    }
}

proof fn lemma_row_sound(
    current: FrameView,
    previous: FrameView,
    tile_size: u32,
    y: u32,
    h: u32,
    x: nat,
)
    requires
        h > 0,
        y + h <= current.height,
    ensures
        forall|i: int|
            0 <= i < dirty_row_from(current, previous, tile_size, y, h, x).len() ==> {
                let rect = #[trigger] dirty_row_from(current, previous, tile_size, y, h, x)[i];
                rect_inside(rect, current.width, current.height) && tile_differs_spec(
                    current,
                    previous,
                    rect,
                )
            },
    decreases current.width + tile_size - x,
{
    if x < current.width && tile_size > 0 {
        let rect = Rect {
            x: x as u32,
            y,
            width: min_u32(tile_size, (current.width - x) as u32),
            height: h,
        };
        let here = if tile_differs_spec(current, previous, rect) {
            seq![rect]
        } else {
            Seq::empty()
        };
        let rest = dirty_row_from(current, previous, tile_size, y, h, x + tile_size as nat);
        lemma_row_sound(current, previous, tile_size, y, h, x + tile_size as nat);
        assert forall|i: int| 0 <= i < (here + rest).len() implies {
            let r = #[trigger] (here + rest)[i];
            rect_inside(r, current.width, current.height) && tile_differs_spec(current, previous, r)
        } by {
            if i >= here.len() {
                assert((here + rest)[i] == rest[i - here.len()]);
            }
        }
    }
}

/// Every reported tile is a non-empty rectangle inside the frame whose
/// pixels changed.
pub proof fn lemma_dirty_tiles_sound(
    current: FrameView,
    previous: FrameView,
    tile_size: u32,
    y: nat,
)
    ensures
        forall|i: int|
            0 <= i < dirty_tiles_from(current, previous, tile_size, y).len() ==> {
                let rect = #[trigger] dirty_tiles_from(current, previous, tile_size, y)[i];
                rect_inside(rect, current.width, current.height) && tile_differs_spec(
                    current,
                    previous,
                    rect,
                )
            },
    decreases current.height + tile_size - y,
{
    if y < current.height && tile_size > 0 {
        let h = min_u32(tile_size, (current.height - y) as u32);
        let row = dirty_row_from(current, previous, tile_size, y as u32, h, 0);
        let rest = dirty_tiles_from(current, previous, tile_size, y + tile_size as nat);
        lemma_row_sound(current, previous, tile_size, y as u32, h, 0);
        lemma_dirty_tiles_sound(current, previous, tile_size, y + tile_size as nat);
        assert forall|i: int| 0 <= i < (row + rest).len() implies {
            let r = #[trigger] (row + rest)[i];
            rect_inside(r, current.width, current.height) && tile_differs_spec(current, previous, r)
        } by {
            if i < row.len() {
                assert((row + rest)[i] == row[i]);
            } else {
                assert((row + rest)[i] == rest[i - row.len()]);
            }
        }
    }
}

/// A changed pixel makes its row of any tile around it differ.
proof fn lemma_changed_pixel_row(
    current: FrameView,
    previous: FrameView,
    rect: Rect,
    x: int,
    y: int,
)
    requires
        comparable(current, previous),
        rect_inside(rect, current.width, current.height),
        rect_contains(rect, x, y),
        pixel_at(current, x, y) != pixel_at(previous, x, y),
    ensures
        tile_differs_spec(current, previous, rect),
{
    let w = current.width as int;
    let hh = current.height as int;
    let start = y * (w * 3) + rect.x * 3;
    let len = rect.width * 3;
    let offset = (x - rect.x) * 3;
    assert(y * (w * 3) + x * 3 == (y * w + x) * 3) by (nonlinear_arith);
    assert(start + len <= w * hh * 3) by (nonlinear_arith)
        requires
            0 <= y < hh,
            rect.x + rect.width <= w,
            start == y * (w * 3) + rect.x * 3,
            len == rect.width * 3,
    ;
    let a = row_slice(current.pixels, current.width, rect.x, y, rect.width);
    let b = row_slice(previous.pixels, current.width, rect.x, y, rect.width);
    if a == b {
        let pa = pixel_at(current, x, y);
        let pb = pixel_at(previous, x, y);
        assert forall|j: int| 0 <= j < 3 implies pa[j] == pb[j] by {
            assert(pa[j] == a[offset + j]);
            assert(pb[j] == b[offset + j]);
        }
        assert(pa =~= pb);
    }
    assert(row_slice(current.pixels, current.width, rect.x, y, rect.width) != row_slice(
        previous.pixels,
        current.width,
        rect.x,
        y,
        rect.width,
    ));
}

proof fn lemma_row_covers(
    current: FrameView,
    previous: FrameView,
    tile_size: u32,
    ty: u32,
    h: u32,
    x0: nat,
    x: int,
    y: int,
)
    requires
        comparable(current, previous),
        tile_size > 0,
        x0 <= x < current.width,
        ty <= y < ty + h,
        ty + h <= current.height,
        pixel_at(current, x, y) != pixel_at(previous, x, y),
    ensures
        exists|i: int|
            0 <= i < dirty_row_from(current, previous, tile_size, ty, h, x0).len() && rect_contains(
                #[trigger] dirty_row_from(current, previous, tile_size, ty, h, x0)[i],
                x,
                y,
            ),
    decreases x - x0,
{
    let rect = Rect {
        x: x0 as u32,
        y: ty,
        width: min_u32(tile_size, (current.width - x0) as u32),
        height: h,
    };
    let rest = dirty_row_from(current, previous, tile_size, ty, h, x0 + tile_size as nat);
    let row = dirty_row_from(current, previous, tile_size, ty, h, x0);
    if x < x0 + tile_size {
        lemma_changed_pixel_row(current, previous, rect, x, y);
        assert(row == seq![rect] + rest);
        assert(row[0] == rect);
    } else {
        lemma_row_covers(current, previous, tile_size, ty, h, x0 + tile_size as nat, x, y);
        let i = choose|i: int| 0 <= i < rest.len() && rect_contains(#[trigger] rest[i], x, y);
        let here = if tile_differs_spec(current, previous, rect) {
            seq![rect]
        } else {
            Seq::empty()
        };
        assert(row == here + rest);
        assert(row[here.len() + i] == rest[i]);
    }
}

/// Every pixel that differs between two frames of the same size lies in
/// one of the reported tiles.
pub proof fn lemma_changed_pixels_covered(
    current: FrameView,
    previous: FrameView,
    tile_size: u32,
    ty: nat,
    x: int,
    y: int,
)
    requires
        comparable(current, previous),
        tile_size > 0,
        0 <= x < current.width,
        ty <= y < current.height,
        pixel_at(current, x, y) != pixel_at(previous, x, y),
    ensures
        exists|i: int|
            0 <= i < dirty_tiles_from(current, previous, tile_size, ty).len() && rect_contains(
                #[trigger] dirty_tiles_from(current, previous, tile_size, ty)[i],
                x,
                y,
            ),
    decreases y - ty,
{
    let h = min_u32(tile_size, (current.height - ty) as u32);
    let row = dirty_row_from(current, previous, tile_size, ty as u32, h, 0);
    let rest = dirty_tiles_from(current, previous, tile_size, ty + tile_size as nat);
    let all = dirty_tiles_from(current, previous, tile_size, ty);
    assert(all == row + rest);
    if y < ty + tile_size {
        lemma_row_covers(current, previous, tile_size, ty as u32, h, 0, x, y);
        let i = choose|i: int| 0 <= i < row.len() && rect_contains(#[trigger] row[i], x, y);
        assert(all[i] == row[i]);
    } else {
        lemma_changed_pixels_covered(current, previous, tile_size, ty + tile_size as nat, x, y);
        let i = choose|i: int| 0 <= i < rest.len() && rect_contains(#[trigger] rest[i], x, y);
        assert(all[row.len() + i] == rest[i]);
    }
}

} // verus!
