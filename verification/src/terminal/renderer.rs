//! Drawing update plans with Kitty graphics: a full frame is image 1 over
//! the whole terminal; each changed tile is an image of its own, numbered by
//! its place in the tile grid and placed over the cells it covers.
use vstd::prelude::*;

use std::collections::BTreeSet;

use super::tile_set::{empty_ids, ids_in_order, insert_id, lemma_sorted_keys, sorted_keys};
use super::kitty::{at_least_one, cursor_to, delete_command, transmission, KittyEncoder};
use crate::renderer::{
    area_of, cropped_pixels, dirty_tiles_from, plan_from_step, Frame, FrameView, PlanStep, Rect,
    TilePlanner, UpdatePlan,
};

verus! {

/// Image id of the full frame; tiles use the ids from 2 on.
pub const BASE_IMAGE_ID: u32 = 1;

/// What a render did.
#[derive(Debug, Clone, Copy, PartialEq, Eq)]
pub enum RenderOutcome {
    Unchanged,
    Full,
    Tiles(usize),
}

/// `u64::div_ceil`.
pub open spec fn div_ceil(a: int, b: int) -> int {
    a / b + if a % b == 0 {
        0int
    } else {
        1int
    }
}

/// The cells that a tile covers when a `frame_width` x `frame_height` frame
/// is scaled onto `columns` x `rows` cells: first column and row (rounded
/// down), then the number of columns and rows (rounded out, at least one).
pub open spec fn placement_of(
    rect: Rect,
    frame_width: u32,
    frame_height: u32,
    columns: u16,
    rows: u16,
) -> (u16, u16, u16, u16) {
    let left = (rect.x as int * columns as int) / frame_width as int;
    let top = (rect.y as int * rows as int) / frame_height as int;
    let right = div_ceil((rect.x + rect.width) * columns, frame_width as int);
    let bottom = div_ceil((rect.y + rect.height) * rows, frame_height as int);
    (
        left as u16,
        top as u16,
        (if right - left < 1 {
            1
        } else {
            right - left
        }) as u16,
        (if bottom - top < 1 {
            1
        } else {
            bottom - top
        }) as u16,
    )
}

/// Image id of the tile at `rect`: 2 plus its index in the row-major grid of
/// `tile_size` tiles.
pub open spec fn tile_id(rect: Rect, frame_width: u32, tile_size: u32) -> int {
    2 + (rect.y as int / tile_size as int) * div_ceil(frame_width as int, tile_size as int)
        + rect.x as int / tile_size as int
}

/// A rectangle that `Frame::crop` accepts.
pub open spec fn tile_valid(frame: FrameView, rect: Rect) -> bool {
    rect.width > 0 && rect.height > 0 && rect.x + rect.width <= frame.width && rect.y + rect.height
        <= frame.height
}

/// The pixels of `rect`.
pub open spec fn crop_view(frame: FrameView, rect: Rect) -> FrameView {
    FrameView {
        width: rect.width,
        height: rect.height,
        pixels: cropped_pixels(frame.pixels, frame.width, rect, rect.height as nat),
    }
}

/// The bytes that draw one tile.
pub open spec fn tile_bytes(
    frame: FrameView,
    rect: Rect,
    columns: u16,
    rows: u16,
    tile_size: u32,
) -> Seq<u8> {
    let (column, row, width, height) = placement_of(
        rect,
        frame.width,
        frame.height,
        columns,
        rows,
    );
    cursor_to(column, row) + transmission(
        crop_view(frame, rect),
        tile_id(rect, frame.width, tile_size) as u32,
        Some((at_least_one(width), at_least_one(height))),
    )
}

/// The bytes that draw `tiles` in order.
pub open spec fn tiles_bytes(
    frame: FrameView,
    tiles: Seq<Rect>,
    columns: u16,
    rows: u16,
    tile_size: u32,
) -> Seq<u8>
    decreases tiles.len(),
{
    if tiles.len() == 0 {
        Seq::empty()
    } else {
        tiles_bytes(frame, tiles.drop_last(), columns, rows, tile_size) + tile_bytes(
            frame,
            tiles.last(),
            columns,
            rows,
            tile_size,
        )
    }
}

/// Number of tiles at the front of `tiles` that can be cropped.
pub open spec fn valid_prefix(frame: FrameView, tiles: Seq<Rect>) -> int
    decreases tiles.len(),
{
    if tiles.len() == 0 || !tile_valid(frame, tiles[0]) {
        0
    } else {
        1 + valid_prefix(frame, tiles.drop_first())
    }
}

/// The ids of the tiles drawn.
pub open spec fn tile_ids(tiles: Seq<Rect>, frame_width: u32, tile_size: u32) -> Set<u32> {
    Set::new(
        |id: u32|
            exists|i: int|
                0 <= i < tiles.len() && tile_id(#[trigger] tiles[i], frame_width, tile_size)
                    == id,
    )
}

/// The commands that delete `ids`, in order.
pub open spec fn deletes_of(ids: Seq<u32>) -> Seq<u8>
    decreases ids.len(),
{
    if ids.len() == 0 {
        Seq::empty()
    } else {
        deletes_of(ids.drop_last()) + delete_command(ids.last())
    }
}

pub open spec fn increasing(ids: Seq<u32>) -> bool {
    forall|i: int, j: int| 0 <= i < j < ids.len() ==> ids[i] < ids[j]
}

proof fn lemma_valid_prefix_at(frame: FrameView, tiles: Seq<Rect>, i: int)
    requires
        0 <= i <= tiles.len(),
        forall|k: int| 0 <= k < i ==> tile_valid(frame, #[trigger] tiles[k]),
        i == tiles.len() || !tile_valid(frame, tiles[i]),
    ensures
        valid_prefix(frame, tiles) == i,
    decreases i,
{
    if i > 0 {
        let rest = tiles.drop_first();
        assert forall|k: int| 0 <= k < i - 1 implies tile_valid(frame, #[trigger] rest[k]) by {
            assert(rest[k] == tiles[k + 1]);
        }
        if i < tiles.len() {
            assert(rest[i - 1] == tiles[i]);
        }
        lemma_valid_prefix_at(frame, rest, i - 1);
    }
}

fn ceil_div_u64(a: u64, b: u64) -> (r: u64)
    requires
        b > 0,
    ensures
        r == div_ceil(a as int, b as int),
{
    if a % b == 0 {
        a / b
    } else {
        assert(a / b < u64::MAX) by (nonlinear_arith)
            requires
                b > 0,
                a % b != 0,
        ;
        a / b + 1
    }
}

/// The cells that `rect`, a region of `frame`, covers on a `columns` x `rows`
/// terminal.
pub fn placement(rect: Rect, frame: &Frame, columns: u16, rows: u16) -> (cells: (u16, u16, u16, u16))
    requires
        frame@.width > 0,
        frame@.height > 0,
        rect.x + rect.width <= u32::MAX,
        rect.y + rect.height <= u32::MAX,
    ensures
        cells == placement_of(rect, frame@.width, frame@.height, columns, rows),
{
    let frame_width = frame.width() as u64;
    let frame_height = frame.height() as u64;
    let terminal_columns = columns as u64;
    let terminal_rows = rows as u64;
    let right_edge = rect.x as u64 + rect.width as u64;
    let bottom_edge = rect.y as u64 + rect.height as u64;
    proof {
        assert(right_edge * terminal_columns <= 0xffff_ffff * 0xffff) by (nonlinear_arith)
            requires
                right_edge <= 0xffff_ffff,
                terminal_columns <= 0xffff,
        ;
        assert(bottom_edge * terminal_rows <= 0xffff_ffff * 0xffff) by (nonlinear_arith)
            requires
                bottom_edge <= 0xffff_ffff,
                terminal_rows <= 0xffff,
        ;
        assert(rect.x * terminal_columns <= 0xffff_ffff * 0xffff) by (nonlinear_arith)
            requires
                rect.x <= 0xffff_ffff,
                terminal_columns <= 0xffff,
        ;
        assert(rect.y * terminal_rows <= 0xffff_ffff * 0xffff) by (nonlinear_arith)
            requires
                rect.y <= 0xffff_ffff,
                terminal_rows <= 0xffff,
        ;
    }
    let left = rect.x as u64 * terminal_columns / frame_width;
    let top = rect.y as u64 * terminal_rows / frame_height;
    let right = ceil_div_u64(right_edge * terminal_columns, frame_width);
    let bottom = ceil_div_u64(bottom_edge * terminal_rows, frame_height);
    let width = if right > left && right - left > 1 {
        right - left
    } else {
        1
    };
    let height = if bottom > top && bottom - top > 1 {
        bottom - top
    } else {
        1
    };
    (left as u16, top as u16, width as u16, height as u16)
}

/// The image id of tile `rect` of a frame `frame_width` pixels wide.
pub fn tile_image_id(rect: Rect, frame_width: u32, tile_size: u32) -> (id: u32)
    requires
        tile_size > 0,
        tile_id(rect, frame_width, tile_size) <= u32::MAX,
    ensures
        id == tile_id(rect, frame_width, tile_size),
{
    let tiles_per_row = ceil_div_u64(frame_width as u64, tile_size as u64);
    let row = rect.y as u64 / tile_size as u64;
    let column = rect.x as u64 / tile_size as u64;
    proof {
        assert(row * tiles_per_row >= 0) by (nonlinear_arith)
            requires
                row >= 0,
                tiles_per_row >= 0,
        ;
    }
    (2 + row * tiles_per_row + column) as u32
}

/// Tile ids start at 2.
proof fn lemma_tile_id_lower(rect: Rect, frame_width: u32, tile_size: u32)
    requires
        tile_size > 0,
    ensures
        2 <= tile_id(rect, frame_width, tile_size),
{
    let ts = tile_size as int;
    let w = frame_width as int;
    let per_row = div_ceil(w, ts);
    assert(per_row >= 0 && (rect.y as int) / ts >= 0 && (rect.x as int) / ts >= 0) by (nonlinear_arith)
        requires
            ts >= 1,
            w >= 0,
            rect.y >= 0,
            rect.x >= 0,
            per_row == div_ceil(w, ts),
    ;
    assert(((rect.y as int) / ts) * per_row >= 0) by (nonlinear_arith)
        requires
            (rect.y as int) / ts >= 0,
            per_row >= 0,
    ;
}

/// Every tile that a plan gets to draw (those before the first that cannot
/// be cut out of the frame) has an id that fits in a `u32`.
pub open spec fn tile_ids_fit(frame: FrameView, tiles: Seq<Rect>, tile_size: u32) -> bool {
    forall|k: int|
        0 <= k < valid_prefix(frame, tiles) ==> #[trigger] tile_id(tiles[k], frame.width, tile_size)
            <= u32::MAX
}

proof fn lemma_valid_prefix_nonnegative(frame: FrameView, tiles: Seq<Rect>)
    ensures
        0 <= valid_prefix(frame, tiles) <= tiles.len(),
    decreases tiles.len(),
{
    if tiles.len() > 0 {
        lemma_valid_prefix_nonnegative(frame, tiles.drop_first());
    }
}

/// When the first `i + 1` tiles can all be cut out, more than `i` are drawn.
proof fn lemma_valid_prefix_covers(frame: FrameView, tiles: Seq<Rect>, i: int)
    requires
        0 <= i < tiles.len(),
        forall|k: int| 0 <= k <= i ==> tile_valid(frame, #[trigger] tiles[k]),
    ensures
        valid_prefix(frame, tiles) > i,
    decreases i,
{
    assert(tile_valid(frame, tiles[0]));
    lemma_valid_prefix_nonnegative(frame, tiles.drop_first());
    if i > 0 {
        let rest = tiles.drop_first();
        assert forall|k: int| 0 <= k <= i - 1 implies tile_valid(frame, #[trigger] rest[k]) by {
            assert(rest[k] == tiles[k + 1]);
        }
        lemma_valid_prefix_covers(frame, rest, i - 1);
    }
}

/// Whether `rect` can be cut out of `frame` (`tile_valid`).
fn tile_valid_exec(frame: &Frame, rect: Rect) -> (ok: bool)
    ensures
        ok == tile_valid(frame@, rect),
{
    rect.width > 0 && rect.height > 0 && rect.x as u64 + rect.width as u64 <= frame.width() as u64
        && rect.y as u64 + rect.height as u64 <= frame.height() as u64
}

/// Whether the id of `rect` fits in a `u32`.
fn tile_id_fits(rect: Rect, frame_width: u32, tile_size: u32) -> (ok: bool)
    requires
        tile_size > 0,
    ensures
        ok == (tile_id(rect, frame_width, tile_size) <= u32::MAX),
{
    let tiles_per_row = ceil_div_u64(frame_width as u64, tile_size as u64);
    let row = rect.y as u64 / tile_size as u64;
    let column = rect.x as u64 / tile_size as u64;
    proof {
        assert(row <= u32::MAX) by (nonlinear_arith)
            requires
                row == rect.y as int / tile_size as int,
                tile_size >= 1,
                rect.y <= u32::MAX,
        ;
        assert(row as int * tiles_per_row as int <= 0xffff_ffff * 0xffff_ffff_ffff_ffffint)
            by (nonlinear_arith)
            requires
                0 <= row <= 0xffff_ffff,
                0 <= tiles_per_row <= 0xffff_ffff_ffff_ffff,
        ;
        assert(row as int * tiles_per_row as int >= 0) by (nonlinear_arith)
            requires
                0 <= row,
                0 <= tiles_per_row,
        ;
    }
    let product = row as u128 * tiles_per_row as u128;
    2 + product + column as u128 <= 0xffff_ffffu128
}

proof fn lemma_tiles_step(
    frame: FrameView,
    tiles: Seq<Rect>,
    i: int,
    columns: u16,
    rows: u16,
    tile_size: u32,
)
    requires
        0 <= i < tiles.len(),
        0 <= tile_id(tiles[i], frame.width, tile_size) <= u32::MAX,
    ensures
        tiles_bytes(frame, tiles.take(i + 1), columns, rows, tile_size) == tiles_bytes(
            frame,
            tiles.take(i),
            columns,
            rows,
            tile_size,
        ) + tile_bytes(frame, tiles[i], columns, rows, tile_size),
        tile_ids(tiles.take(i + 1), frame.width, tile_size) == tile_ids(
            tiles.take(i),
            frame.width,
            tile_size,
        ).insert(tile_id(tiles[i], frame.width, tile_size) as u32),
{
    let prefix = tiles.take(i + 1);
    let shorter = tiles.take(i);
    assert(prefix.drop_last() =~= shorter);
    assert(prefix.last() == tiles[i]);
    let id = tile_id(tiles[i], frame.width, tile_size) as u32;
    assert forall|x: u32| #[trigger] tile_ids(prefix, frame.width, tile_size).contains(x) <==> tile_ids(
        shorter,
        frame.width,
        tile_size,
    ).insert(id).contains(x) by {
        if tile_ids(prefix, frame.width, tile_size).contains(x) {
            let k = choose|k: int|
                0 <= k < prefix.len() && tile_id(#[trigger] prefix[k], frame.width, tile_size) == x;
            if k < i {
                assert(shorter[k] == prefix[k]);
            }
        }
        if tile_ids(shorter, frame.width, tile_size).contains(x) {
            let k = choose|k: int|
                0 <= k < shorter.len() && tile_id(#[trigger] shorter[k], frame.width, tile_size) == x;
            assert(prefix[k] == shorter[k]);
        }
        if x == id {
            assert(prefix[i] == tiles[i]);
        }
    }
    assert(tile_ids(prefix, frame.width, tile_size) =~= tile_ids(shorter, frame.width, tile_size).insert(
        id,
    ));
}

/// `std::io::Error::new(ErrorKind::InvalidData, message)`. Nothing is stated
/// of the error value: it is opaque here.
#[verifier::external_body]
fn invalid_data(message: String) -> std::io::Error {
    std::io::Error::new(std::io::ErrorKind::InvalidData, message)
}

/// Draws update plans through a Kitty encoder and remembers which tile
/// images are on screen, in increasing order of id.
pub struct KittyCanvas {
    encoder: KittyEncoder,
    active_tiles: BTreeSet<u32>,
    columns: u16,
    rows: u16,
    tile_size: u32,
}

impl KittyCanvas {
    #[verifier::type_invariant]
    spec fn well_formed(&self) -> bool {
        &&& self.columns >= 1
        &&& self.rows >= 1
        &&& self.tile_size > 0
    }

    /// The bytes written so far.
    pub closed spec fn output(&self) -> Seq<u8> {
        self.encoder@
    }

    /// The tile images on screen.
    pub closed spec fn active(&self) -> Seq<u32> {
        sorted_keys(&self.active_tiles)
    }

    pub closed spec fn columns_spec(&self) -> u16 {
        self.columns
    }

    pub closed spec fn rows_spec(&self) -> u16 {
        self.rows
    }

    pub closed spec fn tile_size_spec(&self) -> u32 {
        self.tile_size
    }

    /// A canvas of `columns` x `rows` cells (each at least one) that writes
    /// into `output`.
    pub fn new(output: Vec<u8>, columns: u16, rows: u16, tile_size: u32) -> (canvas: Self)
        requires
            tile_size > 0,
        ensures
            canvas.output() == output@,
            canvas.active() == Seq::<u32>::empty(),
            canvas.columns_spec() == at_least_one(columns),
            canvas.rows_spec() == at_least_one(rows),
            canvas.tile_size_spec() == tile_size,
    {
        KittyCanvas {
            encoder: KittyEncoder::new(output),
            active_tiles: empty_ids(),
            columns: if columns < 1 {
                1
            } else {
                columns
            },
            rows: if rows < 1 {
                1
            } else {
                rows
            },
            tile_size,
        }
    }

    /// Adopts a new terminal size (each side at least one cell).
    pub fn resize(&mut self, columns: u16, rows: u16)
        ensures
            final(self).columns_spec() == at_least_one(columns),
            final(self).rows_spec() == at_least_one(rows),
            final(self).output() == old(self).output(),
            final(self).active() == old(self).active(),
            final(self).tile_size_spec() == old(self).tile_size_spec(),
    {
        proof {
            use_type_invariant(&*self);
        }
        self.columns = if columns < 1 {
            1
        } else {
            columns
        };
        self.rows = if rows < 1 {
            1
        } else {
            rows
        };
    }

    fn clear_tiles(&mut self)
        ensures
            final(self).output() == old(self).output() + deletes_of(old(self).active()),
            final(self).active() == Seq::<u32>::empty(),
            final(self).columns_spec() == old(self).columns_spec(),
            final(self).rows_spec() == old(self).rows_spec(),
            final(self).tile_size_spec() == old(self).tile_size_spec(),
    {
        proof {
            use_type_invariant(&*self);
        }
        let mut set = empty_ids();
        std::mem::swap(&mut set, &mut self.active_tiles);
        let active = ids_in_order(&set);
        let mut encoder = KittyEncoder::new(Vec::new());
        std::mem::swap(&mut encoder, &mut self.encoder);
        let ghost start = encoder@;
        for i in 0..active.len()
            invariant
                encoder@ == start + deletes_of(active@.take(i as int)),
        {
            let _ = encoder.delete(active[i]);
            assert(active@.take(i + 1).drop_last() =~= active@.take(i as int));
        }
        assert(active@.take(active.len() as int) =~= active@);
        std::mem::swap(&mut encoder, &mut self.encoder);
    }

    /// Deletes every image that the canvas drew.
    pub fn clear(&mut self) -> (r: std::io::Result<()>)
        ensures
            r is Ok,
            final(self).output() == old(self).output() + deletes_of(old(self).active())
                + delete_command(BASE_IMAGE_ID),
            final(self).active() == Seq::<u32>::empty(),
            final(self).columns_spec() == old(self).columns_spec(),
            final(self).rows_spec() == old(self).rows_spec(),
            final(self).tile_size_spec() == old(self).tile_size_spec(),
    {
        self.clear_tiles();
        proof {
            use_type_invariant(&*self);
        }
        let mut encoder = KittyEncoder::new(Vec::new());
        std::mem::swap(&mut encoder, &mut self.encoder);
        let r = encoder.delete(BASE_IMAGE_ID);
        std::mem::swap(&mut encoder, &mut self.encoder);
        r
    }

    fn insert_active(&mut self, id: u32)
        ensures
            final(self).active().to_set() == old(self).active().to_set().insert(id),
            final(self).output() == old(self).output(),
            final(self).columns_spec() == old(self).columns_spec(),
            final(self).rows_spec() == old(self).rows_spec(),
            final(self).tile_size_spec() == old(self).tile_size_spec(),
    {
        proof {
            use_type_invariant(&*self);
        }
        let mut set = empty_ids();
        std::mem::swap(&mut set, &mut self.active_tiles);
        insert_id(&mut set, id);
        self.active_tiles = set;
    }

    fn render_tile(&mut self, frame: &Frame, rect: Rect) -> (r: std::io::Result<()>)
        requires
            tile_valid(frame@, rect) ==> tile_id(rect, frame@.width, old(self).tile_size_spec())
                <= u32::MAX,
        ensures
            r is Ok <==> tile_valid(frame@, rect),
            tile_valid(frame@, rect) ==> final(self).output() == old(self).output() + tile_bytes(
                frame@,
                rect,
                old(self).columns_spec(),
                old(self).rows_spec(),
                old(self).tile_size_spec(),
            ) && final(self).active().to_set() == old(self).active().to_set().insert(
                tile_id(rect, frame@.width, old(self).tile_size_spec()) as u32,
            ),
            !tile_valid(frame@, rect) ==> final(self).output() == old(self).output()
                && final(self).active() == old(self).active(),
            final(self).columns_spec() == old(self).columns_spec(),
            final(self).rows_spec() == old(self).rows_spec(),
            final(self).tile_size_spec() == old(self).tile_size_spec(),
    {
        proof {
            use_type_invariant(&*self);
        }
        let tile = match frame.crop(rect) {
            Ok(tile) => tile,
            Err(error) => {
                return Err(invalid_data(error.message()));
            },
        };
        let (column, row, columns, rows) = placement(rect, frame, self.columns, self.rows);
        proof {
            lemma_tile_id_lower(rect, frame@.width, self.tile_size);
        }
        let image_id = tile_image_id(rect, frame.width(), self.tile_size);
        let mut encoder = KittyEncoder::new(Vec::new());
        std::mem::swap(&mut encoder, &mut self.encoder);
        let _ = encoder.transmit_rgb_at(&tile, image_id, column, row, columns, rows);
        std::mem::swap(&mut encoder, &mut self.encoder);
        self.insert_active(image_id);
        Ok(())
    }

    /// Whether every tile that `plan` gets to draw on this canvas has an id
    /// that fits in a `u32`, which `apply` needs.
    pub fn tile_ids_fit(&self, frame: &Frame, plan: &UpdatePlan) -> (ok: bool)
        ensures
            ok == (plan matches UpdatePlan::Tiles(tiles) ==> tile_ids_fit(
                frame@,
                tiles@,
                self.tile_size_spec(),
            )),
    {
        proof {
            use_type_invariant(self);
        }
        let tiles = match plan {
            UpdatePlan::Tiles(tiles) => tiles,
            _ => return true,
        };
        let mut i: usize = 0;
        while i < tiles.len()
            invariant
                i <= tiles@.len(),
                plan matches UpdatePlan::Tiles(t) && t@ == tiles@,
                self.tile_size_spec() > 0,
                forall|k: int| 0 <= k < i ==> tile_valid(frame@, #[trigger] tiles@[k]),
                forall|k: int|
                    0 <= k < i ==> #[trigger] tile_id(tiles@[k], frame@.width, self.tile_size_spec())
                        <= u32::MAX,
            decreases tiles.len() - i,
        {
            let rect = tiles[i];
            if !tile_valid_exec(frame, rect) {
                proof {
                    lemma_valid_prefix_at(frame@, tiles@, i as int);
                }
                return true;
            }
            if !tile_id_fits(rect, frame.width(), self.tile_size) {
                proof {
                    lemma_valid_prefix_covers(frame@, tiles@, i as int);
                    assert(!(tile_id(tiles@[i as int], frame@.width, self.tile_size_spec())
                        <= u32::MAX));
                }
                return false;
            }
            i = i + 1;
        }
        proof {
            lemma_valid_prefix_at(frame@, tiles@, tiles@.len() as int);
        }
        true
    }

    /// Draws `plan` for `frame`: nothing; the whole frame as image 1 over
    /// every cell, after deleting the tile images; or each tile in turn, up
    /// to the first that cannot be cut out of the frame.
    pub fn apply(&mut self, frame: &Frame, plan: UpdatePlan) -> (r: std::io::Result<RenderOutcome>)
        requires
            plan matches UpdatePlan::Tiles(tiles) ==> tile_ids_fit(
                frame@,
                tiles@,
                old(self).tile_size_spec(),
            ),
        ensures
            final(self).columns_spec() == old(self).columns_spec(),
            final(self).rows_spec() == old(self).rows_spec(),
            final(self).tile_size_spec() == old(self).tile_size_spec(),
            increasing(final(self).active()),
            match plan {
                UpdatePlan::Unchanged => r matches Ok(RenderOutcome::Unchanged) && final(self).output()
                    == old(self).output() && final(self).active() == old(self).active(),
                UpdatePlan::Full => r matches Ok(RenderOutcome::Full) && final(self).output() == old(
                    self,
                ).output() + deletes_of(old(self).active()) + cursor_to(0, 0) + transmission(
                    frame@,
                    BASE_IMAGE_ID,
                    Some((old(self).columns_spec(), old(self).rows_spec())),
                ) && final(self).active() == Seq::<u32>::empty(),
                UpdatePlan::Tiles(tiles) => {
                    let done = tiles@.take(valid_prefix(frame@, tiles@));
                    &&& final(self).output() == old(self).output() + tiles_bytes(
                        frame@,
                        done,
                        old(self).columns_spec(),
                        old(self).rows_spec(),
                        old(self).tile_size_spec(),
                    )
                    &&& final(self).active().to_set() == old(self).active().to_set().union(
                        tile_ids(done, frame@.width, old(self).tile_size_spec()),
                    )
                    &&& (r is Ok <==> valid_prefix(frame@, tiles@) == tiles@.len())
                    &&& (r is Ok ==> (r matches Ok(RenderOutcome::Tiles(n)) && n == tiles@.len()))
                },
            },
    {
        proof {
            use_type_invariant(&*self);
        }
        let r = match plan {
            UpdatePlan::Unchanged => Ok(RenderOutcome::Unchanged),
            UpdatePlan::Full => {
                self.clear_tiles();
                proof {
                    use_type_invariant(&*self);
                }
                let columns = self.columns;
                let rows = self.rows;
                let mut encoder = KittyEncoder::new(Vec::new());
                std::mem::swap(&mut encoder, &mut self.encoder);
                let _ = encoder.transmit_rgb_at(frame, BASE_IMAGE_ID, 0, 0, columns, rows);
                std::mem::swap(&mut encoder, &mut self.encoder);
                Ok(RenderOutcome::Full)
            },
            UpdatePlan::Tiles(tiles) => {
                match self.render_tiles(frame, &tiles) {
                    Ok(()) => Ok(RenderOutcome::Tiles(tiles.len())),
                    Err(error) => Err(error),
                }
            },
        };
        proof {
            lemma_sorted_keys(&self.active_tiles);
        }
        r
    }

    fn render_tiles(&mut self, frame: &Frame, tiles: &Vec<Rect>) -> (r: std::io::Result<()>)
        requires
            tile_ids_fit(frame@, tiles@, old(self).tile_size_spec()),
        ensures
            final(self).columns_spec() == old(self).columns_spec(),
            final(self).rows_spec() == old(self).rows_spec(),
            final(self).tile_size_spec() == old(self).tile_size_spec(),
            final(self).output() == old(self).output() + tiles_bytes(
                frame@,
                tiles@.take(valid_prefix(frame@, tiles@)),
                old(self).columns_spec(),
                old(self).rows_spec(),
                old(self).tile_size_spec(),
            ),
            final(self).active().to_set() == old(self).active().to_set().union(
                tile_ids(
                    tiles@.take(valid_prefix(frame@, tiles@)),
                    frame@.width,
                    old(self).tile_size_spec(),
                ),
            ),
            r is Ok <==> valid_prefix(frame@, tiles@) == tiles@.len(),
    {
        proof {
            use_type_invariant(&*self);
        }
        let ghost start = self.output();
        let ghost start_set = self.active().to_set();
        let ghost columns = self.columns_spec();
        let ghost rows = self.rows_spec();
        let ghost tile_size = self.tile_size_spec();
        assert(tiles@.take(0) =~= Seq::<Rect>::empty());
        assert(start_set.union(tile_ids(Seq::<Rect>::empty(), frame@.width, tile_size))
            =~= start_set);
        let mut i: usize = 0;
        while i < tiles.len()
            invariant
                i <= tiles@.len(),
                tile_size > 0,
                tile_ids_fit(frame@, tiles@, tile_size),
                columns == old(self).columns_spec(),
                rows == old(self).rows_spec(),
                tile_size == old(self).tile_size_spec(),
                start == old(self).output(),
                start_set == old(self).active().to_set(),
                self.columns_spec() == columns,
                self.rows_spec() == rows,
                self.tile_size_spec() == tile_size,
                forall|k: int| 0 <= k < i ==> tile_valid(frame@, #[trigger] tiles@[k]),
                self.output() == start + tiles_bytes(
                    frame@,
                    tiles@.take(i as int),
                    columns,
                    rows,
                    tile_size,
                ),
                self.active().to_set() == start_set.union(
                    tile_ids(tiles@.take(i as int), frame@.width, tile_size),
                ),
            decreases tiles.len() - i,
        {
            let rect = tiles[i];
            proof {
                if tile_valid(frame@, rect) {
                    lemma_valid_prefix_covers(frame@, tiles@, i as int);
                }
            }
            let outcome = self.render_tile(frame, rect);
            if outcome.is_err() {
                proof {
                    lemma_valid_prefix_at(frame@, tiles@, i as int);
                }
                return outcome;
            }
            proof {
                lemma_tile_id_lower(rect, frame@.width, tile_size);
                lemma_tiles_step(frame@, tiles@, i as int, columns, rows, tile_size);
                assert(self.active().to_set() =~= start_set.union(
                    tile_ids(tiles@.take(i + 1), frame@.width, tile_size),
                ));
            }
            i = i + 1;
        }
        proof {
            lemma_valid_prefix_at(frame@, tiles@, tiles@.len() as int);
            assert(tiles@.take(tiles@.len() as int) =~= tiles@);
        }
        Ok(())
    }

    /// The bytes written since the last call, which the canvas forgets.
    pub fn take_output(&mut self) -> (bytes: Vec<u8>)
        ensures
            bytes@ == old(self).output(),
            final(self).output() == Seq::<u8>::empty(),
            final(self).active() == old(self).active(),
            final(self).columns_spec() == old(self).columns_spec(),
            final(self).rows_spec() == old(self).rows_spec(),
            final(self).tile_size_spec() == old(self).tile_size_spec(),
    {
        proof {
            use_type_invariant(&*self);
        }
        let mut encoder = KittyEncoder::new(Vec::new());
        std::mem::swap(&mut encoder, &mut self.encoder);
        encoder.into_inner()
    }

    /// All bytes written.
    pub fn into_inner(self) -> (bytes: Vec<u8>)
        ensures
            bytes@ == self.output(),
    {
        self.encoder.into_inner()
    }
}

/// Tiles before the first that cannot be cut out can all be cut out.
proof fn lemma_valid_prefix_valid(frame: FrameView, tiles: Seq<Rect>, k: int)
    requires
        0 <= k < valid_prefix(frame, tiles),
    ensures
        tile_valid(frame, tiles[k]),
    decreases k,
{
    lemma_valid_prefix_nonnegative(frame, tiles);
    lemma_valid_prefix_nonnegative(frame, tiles.drop_first());
    if k > 0 {
        lemma_valid_prefix_valid(frame, tiles.drop_first(), k - 1);
        assert(tiles.drop_first()[k - 1] == tiles[k]);
    }
}

/// A valid tile of a frame with fewer than `u32::MAX` pixels has an id that
/// fits in a `u32`.
proof fn lemma_small_frame_ids_fit(frame: FrameView, rect: Rect, tile_size: u32)
    requires
        tile_size > 0,
        tile_valid(frame, rect),
        frame.width * frame.height < u32::MAX,
    ensures
        tile_id(rect, frame.width, tile_size) <= u32::MAX,
{
    let w = frame.width as int;
    let h = frame.height as int;
    let ts = tile_size as int;
    let per_row = div_ceil(w, ts);
    let ry = rect.y as int;
    let rx = rect.x as int;
    assert(per_row <= w) by (nonlinear_arith)
        requires
            per_row == div_ceil(w, ts),
            ts >= 1,
            w >= 1,
    ;
    assert(0 <= ry / ts <= h - 1) by (nonlinear_arith)
        requires
            0 <= ry <= h - 1,
            ts >= 1,
    ;
    assert(0 <= rx / ts <= w - 1) by (nonlinear_arith)
        requires
            0 <= rx <= w - 1,
            ts >= 1,
    ;
    assert((ry / ts) * per_row <= (h - 1) * w) by (nonlinear_arith)
        requires
            0 <= ry / ts <= h - 1,
            0 <= per_row <= w,
    ;
    assert((h - 1) * w + w == w * h) by (nonlinear_arith);
}

/// Whether two frames have the same size.
pub open spec fn same_size(a: FrameView, b: FrameView) -> bool {
    a.width == b.width && a.height == b.height
}

/// Every tile that rendering `frame` after `previous` may draw has an id
/// that fits in a `u32`.
pub open spec fn render_ids_fit(previous: Option<FrameView>, frame: FrameView, tile_size: u32) -> bool {
    match previous {
        Some(p) => same_size(p, frame) ==> tile_ids_fit(
            frame,
            dirty_tiles_from(frame, p, tile_size, 0),
            tile_size,
        ),
        None => true,
    }
}

/// The bytes that redraw `frame` whole over `columns` x `rows` cells: the
/// tile images are deleted, and image 1 is sent again from the top-left
/// corner.
pub open spec fn whole_frame_bytes(active: Seq<u32>, columns: u16, rows: u16, frame: FrameView) -> Seq<
    u8,
> {
    deletes_of(active) + cursor_to(0, 0) + transmission(frame, BASE_IMAGE_ID, Some((columns, rows)))
}

/// `frame` was drawn whole: the outcome is `Full`, the tile images are
/// deleted and image 1 sent again over every cell.
pub open spec fn drew_whole(
    r: std::io::Result<RenderOutcome>,
    output: Seq<u8>,
    active: Seq<u32>,
    columns: u16,
    rows: u16,
    frame: FrameView,
    new_output: Seq<u8>,
    new_active: Seq<u32>,
) -> bool {
    &&& r matches Ok(RenderOutcome::Full)
    &&& new_output == output + whole_frame_bytes(active, columns, rows, frame)
    &&& new_active == Seq::<u32>::empty()
}

/// The changed `tiles` of `frame` were drawn in turn, up to the first that
/// cannot be cut out; the outcome counts them when all were drawn.
pub open spec fn drew_tiles(
    r: std::io::Result<RenderOutcome>,
    output: Seq<u8>,
    active: Seq<u32>,
    columns: u16,
    rows: u16,
    tile_size: u32,
    frame: FrameView,
    tiles: Seq<Rect>,
    new_output: Seq<u8>,
    new_active: Seq<u32>,
) -> bool {
    let done = tiles.take(valid_prefix(frame, tiles));
    &&& new_output == output + tiles_bytes(frame, done, columns, rows, tile_size)
    &&& new_active.to_set() == active.to_set().union(tile_ids(done, frame.width, tile_size))
    &&& (r is Ok <==> valid_prefix(frame, tiles) == tiles.len())
    &&& (r is Ok ==> (r matches Ok(RenderOutcome::Tiles(n)) && n == tiles.len()))
}

/// Whether rendering `frame` after `previous` asks the caller's full-frame
/// rule: the frame has the previous one's size and some tile changed.
pub open spec fn asks_rule(previous: Option<FrameView>, frame: FrameView, tile_size: u32) -> bool {
    match previous {
        Some(p) => same_size(p, frame) && dirty_tiles_from(frame, p, tile_size, 0).len() > 0,
        None => false,
    }
}

/// What rendering `frame` does after `previous` on a canvas with `output`
/// and `active` tiles, where `reached` is the answer of the full-frame rule
/// (when it is asked): a first frame, or one of another size, is drawn
/// whole; an unchanged frame draws nothing; changed tiles are drawn, or the
/// whole frame when the rule is met.
pub open spec fn rendered(
    previous: Option<FrameView>,
    output: Seq<u8>,
    active: Seq<u32>,
    columns: u16,
    rows: u16,
    tile_size: u32,
    frame: FrameView,
    reached: bool,
    r: std::io::Result<RenderOutcome>,
    new_output: Seq<u8>,
    new_active: Seq<u32>,
) -> bool {
    match previous {
        None => drew_whole(r, output, active, columns, rows, frame, new_output, new_active),
        Some(p) => if !same_size(p, frame) {
            drew_whole(r, output, active, columns, rows, frame, new_output, new_active)
        } else if dirty_tiles_from(frame, p, tile_size, 0).len() == 0 {
            r matches Ok(RenderOutcome::Unchanged) && new_output == output && new_active == active
        } else if reached {
            drew_whole(r, output, active, columns, rows, frame, new_output, new_active)
        } else {
            drew_tiles(
                r,
                output,
                active,
                columns,
                rows,
                tile_size,
                frame,
                dirty_tiles_from(frame, p, tile_size, 0),
                new_output,
                new_active,
            )
        },
    }
}

/// Renders frames onto the terminal: plans each frame against the previous
/// one and draws the plan. A first frame, a frame of another size and the
/// first frame after a resize are drawn whole; otherwise nothing is drawn
/// when nothing changed, and the changed tiles are drawn unless the caller's
/// full-frame rule asks for the whole frame.
pub struct TileRenderer {
    planner: TilePlanner,
    canvas: KittyCanvas,
}

impl TileRenderer {
    #[verifier::type_invariant]
    spec fn consistent(&self) -> bool {
        self.planner.tile_size_spec() == self.canvas.tile_size_spec()
    }

    /// The last rendered frame; `None` when the next one is drawn whole.
    pub closed spec fn previous_frame(&self) -> Option<FrameView> {
        self.planner.previous_frame()
    }

    /// The bytes written and not yet taken.
    pub closed spec fn output(&self) -> Seq<u8> {
        self.canvas.output()
    }

    /// The tile images on screen.
    pub closed spec fn active(&self) -> Seq<u32> {
        self.canvas.active()
    }

    pub closed spec fn columns(&self) -> u16 {
        self.canvas.columns_spec()
    }

    pub closed spec fn rows(&self) -> u16 {
        self.canvas.rows_spec()
    }

    pub closed spec fn tile_size(&self) -> u32 {
        self.canvas.tile_size_spec()
    }

    /// Takes the canvas out, leaving an empty one of the same tile size.
    fn take_canvas(&mut self) -> (canvas: KittyCanvas)
        ensures
            canvas == old(self).canvas,
            final(self).planner == old(self).planner,
            canvas.tile_size_spec() == final(self).planner.tile_size_spec(),
    {
        proof {
            use_type_invariant(&*self);
        }
        let mut canvas = KittyCanvas::new(Vec::new(), 1, 1, self.planner.tile_size());
        std::mem::swap(&mut canvas, &mut self.canvas);
        canvas
    }

    /// Takes the planner out, leaving a fresh one of the same tile size.
    fn take_planner(&mut self) -> (planner: TilePlanner)
        ensures
            planner == old(self).planner,
            final(self).canvas == old(self).canvas,
            planner.tile_size_spec() == final(self).canvas.tile_size_spec(),
    {
        proof {
            use_type_invariant(&*self);
        }
        let mut planner = TilePlanner::new(self.planner.tile_size());
        std::mem::swap(&mut planner, &mut self.planner);
        planner
    }

    /// A renderer for `columns` x `rows` cells (each at least one) with
    /// square tiles of `tile_size` pixels; it has drawn nothing yet.
    pub fn new(columns: u16, rows: u16, tile_size: u32) -> (renderer: Self)
        requires
            tile_size > 0,
        ensures
            renderer.previous_frame() is None,
            renderer.output() == Seq::<u8>::empty(),
            renderer.active() == Seq::<u32>::empty(),
            renderer.columns() == at_least_one(columns),
            renderer.rows() == at_least_one(rows),
            renderer.tile_size() == tile_size,
    {
        TileRenderer {
            planner: TilePlanner::new(tile_size),
            canvas: KittyCanvas::new(Vec::new(), columns, rows, tile_size),
        }
    }

    /// Follows a terminal resize: the placement changes and the next frame
    /// is drawn whole.
    pub fn resize(&mut self, columns: u16, rows: u16)
        ensures
            final(self).previous_frame() is None,
            final(self).columns() == at_least_one(columns),
            final(self).rows() == at_least_one(rows),
            final(self).output() == old(self).output(),
            final(self).active() == old(self).active(),
            final(self).tile_size() == old(self).tile_size(),
    {
        let mut canvas = self.take_canvas();
        canvas.resize(columns, rows);
        let mut planner = self.take_planner();
        planner.reset();
        *self = TileRenderer { planner, canvas };
    }

    /// Whether rendering `frame` next meets `render`'s bound on tile ids.
    pub fn tile_ids_fit(&self, frame: &Frame) -> (ok: bool)
        ensures
            ok == render_ids_fit(self.previous_frame(), frame@, self.tile_size()),
    {
        proof {
            use_type_invariant(self);
        }
        let previous = match self.planner.previous() {
            Some(previous) => previous,
            None => return true,
        };
        if previous.width() != frame.width() || previous.height() != frame.height() {
            return true;
        }
        let tile_size = self.planner.tile_size();
        proof {
            assert(frame@.width as int * frame@.height as int <= 0xffff_ffff * 0xffff_ffffint)
                by (nonlinear_arith)
                requires
                    frame@.width <= 0xffff_ffff,
                    frame@.height <= 0xffff_ffff,
            ;
            assert(frame@.width as int * frame@.height as int >= 0) by (nonlinear_arith)
                requires
                    frame@.width >= 0,
                    frame@.height >= 0,
            ;
        }
        if (frame.width() as u64) * (frame.height() as u64) < 0xffff_ffffu64 {
            proof {
                let tiles = dirty_tiles_from(frame@, previous@, tile_size, 0);
                assert forall|k: int| 0 <= k < valid_prefix(frame@, tiles) implies #[trigger] tile_id(
                    tiles[k],
                    frame@.width,
                    tile_size,
                ) <= u32::MAX by {
                    lemma_valid_prefix_valid(frame@, tiles, k);
                    lemma_small_frame_ids_fit(frame@, tiles[k], tile_size);
                }
            }
            return true;
        }
        let tiles = frame.dirty_tiles(previous, tile_size);
        self.canvas.tile_ids_fit(frame, &UpdatePlan::Tiles(tiles))
    }

    /// Plans and draws `frame`. `full_share(dirty, total)` is the caller's
    /// rule for drawing a changed frame whole, given the changed and the
    /// total pixels.
    pub fn render<F: Fn(u64, u64) -> bool>(&mut self, frame: &Frame, full_share: F) -> (r:
        std::io::Result<RenderOutcome>)
        requires
            forall|dirty: u64, total: u64| full_share.requires((dirty, total)),
            render_ids_fit(old(self).previous_frame(), frame@, old(self).tile_size()),
        ensures
            final(self).previous_frame() == Some(frame@),
            final(self).columns() == old(self).columns(),
            final(self).rows() == old(self).rows(),
            final(self).tile_size() == old(self).tile_size(),
            exists|reached: bool|
                #[trigger] rendered(
                    old(self).previous_frame(),
                    old(self).output(),
                    old(self).active(),
                    old(self).columns(),
                    old(self).rows(),
                    old(self).tile_size(),
                    frame@,
                    reached,
                    r,
                    final(self).output(),
                    final(self).active(),
                ) && (asks_rule(old(self).previous_frame(), frame@, old(self).tile_size())
                    ==> full_share.ensures(
                    (
                        area_of(
                            dirty_tiles_from(
                                frame@,
                                old(self).previous_frame()->Some_0,
                                old(self).tile_size(),
                                0,
                            ),
                        ) as u64,
                        (frame@.width * frame@.height) as u64,
                    ),
                    reached,
                )),
    {
        let ghost out0 = self.output();
        let ghost active0 = self.active();
        let ghost columns0 = self.columns();
        let ghost rows0 = self.rows();
        let ghost ts0 = self.tile_size();
        let ghost prev0 = self.previous_frame();
        let mut planner = self.take_planner();
        let step = planner.step(frame);
        let ghost planned = step;
        let mut canvas = self.take_canvas();
        let reached = match &step {
            PlanStep::Dirty { dirty_pixels, total_pixels, .. } => {
                let reached = full_share(*dirty_pixels, *total_pixels);
                proof {
                    assert(full_share.ensures((*dirty_pixels, *total_pixels), reached));
                }
                reached
            },
            _ => false,
        };
        let plan = plan_from_step(step, reached);
        let r = canvas.apply(frame, plan);
        *self = TileRenderer { planner, canvas };
        proof {
            if let PlanStep::Full = planned {
                assert(r matches Ok(RenderOutcome::Full));
                assert(self.output() == out0 + whole_frame_bytes(active0, columns0, rows0, frame@));
                assert(self.active() == Seq::<u32>::empty());
                assert(drew_whole(r, out0, active0, columns0, rows0, frame@, self.output(), self.active()));
            }
            if let PlanStep::Dirty { tiles, dirty_pixels, total_pixels } = planned {
                assert(area_of(tiles@) as u64 == dirty_pixels);
                assert((frame@.width * frame@.height) as u64 == total_pixels);
                let p = prev0->Some_0;
                assert(tiles@ == dirty_tiles_from(frame@, p, ts0, 0));
                assert(full_share.ensures(
                    (
                        area_of(dirty_tiles_from(frame@, p, ts0, 0)) as u64,
                        (frame@.width * frame@.height) as u64,
                    ),
                    reached,
                ));
                if reached {
                    assert(r matches Ok(RenderOutcome::Full));
                    assert(self.output() == out0 + whole_frame_bytes(active0, columns0, rows0, frame@));
                    assert(self.active() == Seq::<u32>::empty());
                    assert(drew_whole(r, out0, active0, columns0, rows0, frame@, self.output(), self.active()));
                } else {
                    assert(drew_tiles(
                        r,
                        out0,
                        active0,
                        columns0,
                        rows0,
                        ts0,
                        frame@,
                        tiles@,
                        self.output(),
                        self.active(),
                    ));
                }
            }
            assert(rendered(
                prev0,
                out0,
                active0,
                columns0,
                rows0,
                ts0,
                frame@,
                reached,
                r,
                self.output(),
                self.active(),
            ));
        }
        r
    }

    /// Deletes every image this renderer drew.
    pub fn clear(&mut self) -> (r: std::io::Result<()>)
        ensures
            r is Ok,
            final(self).output() == old(self).output() + deletes_of(old(self).active())
                + delete_command(BASE_IMAGE_ID),
            final(self).active() == Seq::<u32>::empty(),
            final(self).previous_frame() == old(self).previous_frame(),
            final(self).columns() == old(self).columns(),
            final(self).rows() == old(self).rows(),
            final(self).tile_size() == old(self).tile_size(),
    {
        let mut canvas = self.take_canvas();
        let r = canvas.clear();
        let planner = self.take_planner();
        *self = TileRenderer { planner, canvas };
        r
    }

    /// The bytes written since the last call, which the renderer forgets.
    pub fn take_output(&mut self) -> (bytes: Vec<u8>)
        ensures
            bytes@ == old(self).output(),
            final(self).output() == Seq::<u8>::empty(),
            final(self).active() == old(self).active(),
            final(self).previous_frame() == old(self).previous_frame(),
            final(self).columns() == old(self).columns(),
            final(self).rows() == old(self).rows(),
            final(self).tile_size() == old(self).tile_size(),
    {
        let mut canvas = self.take_canvas();
        let bytes = canvas.take_output();
        let planner = self.take_planner();
        *self = TileRenderer { planner, canvas };
        bytes
    }
}

/// After a resize the next frame is drawn whole, whatever the frame and
/// whatever the full-frame rule says: `resize` leaves no previous frame,
/// and rendering with no previous frame deletes every tile image and sends
/// image 1 again over the new size, with the outcome `Full` (never
/// `Unchanged` or `Tiles`, even for the frame drawn last).
pub proof fn lemma_render_after_resize_is_full(
    output: Seq<u8>,
    active: Seq<u32>,
    columns: u16,
    rows: u16,
    tile_size: u32,
    frame: FrameView,
    reached: bool,
    r: std::io::Result<RenderOutcome>,
    new_output: Seq<u8>,
    new_active: Seq<u32>,
)
    requires
        rendered(
            None,
            output,
            active,
            columns,
            rows,
            tile_size,
            frame,
            reached,
            r,
            new_output,
            new_active,
        ),
    ensures
        r matches Ok(RenderOutcome::Full),
        new_output == output + deletes_of(active) + cursor_to(0, 0) + transmission(
            frame,
            BASE_IMAGE_ID,
            Some((columns, rows)),
        ),
        new_active == Seq::<u32>::empty(),
        !asks_rule(None, frame, tile_size),
{
}

} // verus!
