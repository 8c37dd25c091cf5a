//! RGB24 frames: construction with buffer validation, cropping, and the
//! detection of changed tiles between two frames of equal size.
use vstd::prelude::*;

use crate::text::{decimal, push_decimal, push_str};

verus! {

/// A rectangle in frame pixels.
#[derive(Debug, Clone, Copy, PartialEq, Eq)]
pub struct Rect {
    pub x: u32,
    pub y: u32,
    pub width: u32,
    pub height: u32,
}

/// An RGB24 image: three bytes per pixel, rows top to bottom, no padding.
#[derive(Debug, PartialEq, Eq)]
pub struct Frame {
    width: u32,
    height: u32,
    pixels: Vec<u8>,
}

/// The mathematical content of a [`Frame`].
pub struct FrameView {
    pub width: u32,
    pub height: u32,
    pub pixels: Seq<u8>,
}

/// Number of bytes of an RGB24 image of the given size.
pub open spec fn rgb_len(width: u32, height: u32) -> int {
    width as int * height as int * 3
}

/// Byte offset of the first byte of row `row`, column `x`.
pub open spec fn row_start(frame_width: u32, x: u32, row: int) -> int {
    row * (frame_width as int * 3) + x as int * 3
}

/// The bytes of `width` pixels of row `row`, starting at column `x`.
pub open spec fn row_slice(pixels: Seq<u8>, frame_width: u32, x: u32, row: int, width: u32) -> Seq<
    u8,
> {
    pixels.subrange(
        row_start(frame_width, x, row),
        row_start(frame_width, x, row) + width as int * 3,
    )
}

/// The three bytes of pixel `(x, y)`.
pub open spec fn pixel_at(view: FrameView, x: int, y: int) -> Seq<u8> {
    let start = (y * view.width as int + x) * 3;
    view.pixels.subrange(start, start + 3)
}

/// The first `rows` rows of `rect` cut out of an image `frame_width` pixels wide.
pub open spec fn cropped_pixels(pixels: Seq<u8>, frame_width: u32, rect: Rect, rows: nat) -> Seq<
    u8,
>
    decreases rows,
{
    if rows == 0 {
        Seq::empty()
    } else {
        cropped_pixels(pixels, frame_width, rect, (rows - 1) as nat) + row_slice(
            pixels,
            frame_width,
            rect.x,
            rect.y + rows - 1,
            rect.width,
        )
    }
}

/// Some row of `rect` holds different bytes in the two images.
pub open spec fn rows_differ(current: FrameView, previous: FrameView, rect: Rect) -> bool {
    exists|row: int|
        rect.y <= row < rect.y + rect.height && #[trigger] row_slice(
            current.pixels,
            current.width,
            rect.x,
            row,
            rect.width,
        ) != row_slice(previous.pixels, current.width, rect.x, row, rect.width)
}

/// A tile differs between two frames when one of its pixel rows differs.
pub open spec fn tile_differs_spec(current: FrameView, previous: FrameView, rect: Rect) -> bool {
    rows_differ(current, previous, rect)
}

pub open spec fn min_u32(a: u32, b: u32) -> u32 {
    if a < b {
        a
    } else {
        b
    }
}

/// The changed tiles of the row of tiles at `y` (height `h`), from column `x` on.
pub open spec fn dirty_row_from(
    current: FrameView,
    previous: FrameView,
    tile_size: u32,
    y: u32,
    h: u32,
    x: nat,
) -> Seq<Rect>
    decreases current.width + tile_size - x,
{
    if x >= current.width || tile_size == 0 {
        Seq::empty()
    } else {
        let rect = Rect {
            x: x as u32,
            y,
            width: min_u32(tile_size, (current.width - x) as u32),
            height: h,
        };
        let here = if tile_differs_spec(current, previous, rect) {
            seq![rect]
        } else {
            Seq::empty()
        };
        here + dirty_row_from(current, previous, tile_size, y, h, x + tile_size as nat)
    }
}

/// The changed tiles, in row-major order, of the tile rows from `y` on.
pub open spec fn dirty_tiles_from(
    current: FrameView,
    previous: FrameView,
    tile_size: u32,
    y: nat,
) -> Seq<Rect>
    decreases current.height + tile_size - y,
{
    if y >= current.height || tile_size == 0 {
        Seq::empty()
    } else {
        let h = min_u32(tile_size, (current.height - y) as u32);
        dirty_row_from(current, previous, tile_size, y as u32, h, 0) + dirty_tiles_from(
            current,
            previous,
            tile_size,
            y + tile_size as nat,
        )
    }
}

/// The message of a frame error.
pub open spec fn frame_error_text(error: FrameError) -> Seq<char> {
    match error {
        FrameError::DimensionsOverflow => "frame dimensions overflow"@,
        FrameError::InvalidBufferLength { expected, actual } => "invalid RGB buffer length: expected "@
            + decimal(expected as nat) + " bytes, got "@ + decimal(actual as nat),
        FrameError::InvalidCrop(rect) => "invalid frame crop Rect { x: "@ + decimal(rect.x as nat)
            + ", y: "@ + decimal(rect.y as nat) + ", width: "@ + decimal(rect.width as nat)
            + ", height: "@ + decimal(rect.height as nat) + " }"@,
    }
}

/// Why a frame could not be built or cropped.
#[derive(Debug, Clone, PartialEq, Eq)]
pub enum FrameError {
    DimensionsOverflow,
    InvalidBufferLength { expected: usize, actual: usize },
    InvalidCrop(Rect),
}

impl FrameError {
    /// The human-readable message of this error.
    pub fn message(&self) -> (text: String)
        ensures
            text@ == frame_error_text(*self),
    {
        let mut text = String::new();
        match self {
            FrameError::DimensionsOverflow => push_str(&mut text, "frame dimensions overflow"),
            FrameError::InvalidBufferLength { expected, actual } => {
                push_str(&mut text, "invalid RGB buffer length: expected ");
                push_decimal(&mut text, *expected as u64);
                push_str(&mut text, " bytes, got ");
                push_decimal(&mut text, *actual as u64);
            },
            FrameError::InvalidCrop(rect) => {
                push_str(&mut text, "invalid frame crop Rect { x: ");
                push_decimal(&mut text, rect.x as u64);
                push_str(&mut text, ", y: ");
                push_decimal(&mut text, rect.y as u64);
                push_str(&mut text, ", width: ");
                push_decimal(&mut text, rect.width as u64);
                push_str(&mut text, ", height: ");
                push_decimal(&mut text, rect.height as u64);
                push_str(&mut text, " }");
            },
        }
        text
    }
}

impl Clone for Frame {
    fn clone(&self) -> (copy: Self)
        ensures
            copy@ == self@,
    {
        proof {
            use_type_invariant(self);
        }
        let mut pixels: Vec<u8> = Vec::new();
        append_range(&mut pixels, &self.pixels, 0, self.pixels.len());
        assert(self.pixels@.subrange(0, self.pixels@.len() as int) == self.pixels@);
        Frame { width: self.width, height: self.height, pixels }
    }
}

impl View for Frame {
    type V = FrameView;

    closed spec fn view(&self) -> FrameView {
        FrameView { width: self.width, height: self.height, pixels: self.pixels@ }
    }
}

proof fn lemma_row_bound(row: int, height: int, width: int, x: int, w: int)
    requires
        0 <= row < height,
        0 <= width,
        0 <= x,
        0 <= w,
        x + w <= width,
    ensures
        row * width + x + w <= width * height,
        (row * width + x + w) * 3 <= width * height * 3,
        row * (width * 3) + x * 3 == (row * width + x) * 3,
        0 <= row * width,
        width * 3 <= width * height * 3,
{
    assert(row * width + width <= height * width) by (nonlinear_arith)
        requires
            row < height,
            0 <= width,
    ;
    assert(height * width == width * height) by (nonlinear_arith);
    assert(0 <= row * width) by (nonlinear_arith)
        requires
            0 <= row,
            0 <= width,
    ;
    assert(row * (width * 3) == row * width * 3) by (nonlinear_arith);
    assert(width * 3 <= width * height * 3) by (nonlinear_arith)
        requires
            1 <= height,
            0 <= width,
    ;
}

/// Appends `src[start..end]` to `dst`.
fn append_range(dst: &mut Vec<u8>, src: &Vec<u8>, start: usize, end: usize)
    requires
        start <= end <= src@.len(),
    ensures
        final(dst)@ == old(dst)@ + src@.subrange(start as int, end as int),
{
    let mut i = start;
    while i < end
        invariant
            start <= i <= end <= src@.len(),
            dst@ == old(dst)@ + src@.subrange(start as int, i as int),
        decreases end - i,
    {
        dst.push(src[i]);
        i = i + 1;
        assert(src@.subrange(start as int, i as int) == src@.subrange(start as int, i - 1).push(
            src@[i - 1],
        ));
    }
}

/// Bytes needed for an RGB24 image, or `None` when that does not fit `usize`.
pub fn pixel_bytes(width: u32, height: u32) -> (r: Option<usize>)
    ensures
        rgb_len(width, height) <= usize::MAX ==> r == Some(rgb_len(width, height) as usize),
        rgb_len(width, height) > usize::MAX ==> r is None,
{
    assert(0 <= width as int * height as int) by (nonlinear_arith);
    match (width as usize).checked_mul(height as usize) {
        Some(area) => area.checked_mul(3),
        None => {
            assert(width as int * height as int * 3 >= width as int * height as int);
            None
        },
    }
}

impl Frame {
    #[verifier::type_invariant]
    spec fn well_formed(self) -> bool {
        self.pixels@.len() == rgb_len(self.width, self.height)
    }

    /// Wraps an RGB24 buffer, which must hold exactly `width * height * 3` bytes.
    pub fn new_rgb(width: u32, height: u32, pixels: Vec<u8>) -> (r: Result<Self, FrameError>)
        ensures
            rgb_len(width, height) > usize::MAX ==> r == Err::<Self, FrameError>(
                FrameError::DimensionsOverflow,
            ),
            rgb_len(width, height) <= usize::MAX && pixels@.len() != rgb_len(width, height) ==> r
                == Err::<Self, FrameError>(
                FrameError::InvalidBufferLength {
                    expected: rgb_len(width, height) as usize,
                    actual: pixels@.len() as usize,
                },
            ),
            pixels@.len() == rgb_len(width, height) ==> (r matches Ok(frame) && frame@ == (FrameView {
                width,
                height,
                pixels: pixels@,
            })),
    {
        let actual = pixels.len();
        let expected = match pixel_bytes(width, height) {
            Some(expected) => expected,
            None => return Err(FrameError::DimensionsOverflow),
        };
        if actual != expected {
            return Err(FrameError::InvalidBufferLength { expected, actual });
        }
        Ok(Self { width, height, pixels })
    }

    /// Builds a frame by asking `pixel` for the colour of every `(x, y)`,
    /// row by row.
    pub fn from_rgb_fn(
        width: u32,
        height: u32,
        pixel: impl Fn(u32, u32) -> [u8; 3],
    ) -> (frame: Self)
        requires
            rgb_len(width, height) <= usize::MAX,
            forall|x: u32, y: u32| x < width && y < height ==> call_requires(pixel, (x, y)),
        ensures
            frame@.width == width,
            frame@.height == height,
            frame@.pixels.len() == rgb_len(width, height),
            forall|x: u32, y: u32|
                x < width && y < height ==> #[trigger] colour_from(
                    pixel,
                    x,
                    y,
                    pixel_at(frame@, x as int, y as int),
                ),
    {
        let mut pixels: Vec<u8> = Vec::new();
        let mut y: u32 = 0;
        while y < height
            invariant
                y <= height,
                rgb_len(width, height) <= usize::MAX,
                forall|x: u32, y: u32| x < width && y < height ==> call_requires(pixel, (x, y)),
                pixels@.len() == (y as int * width as int) * 3,
                forall|px: u32, py: u32|
                    px < width && py < y ==> #[trigger] cell_ok(pixel, pixels@, width, px, py),
            decreases height - y,
        {
            let mut x: u32 = 0;
            while x < width
                invariant
                    x <= width,
                    y < height,
                    rgb_len(width, height) <= usize::MAX,
                    forall|x: u32, y: u32|
                        x < width && y < height ==> call_requires(pixel, (x, y)),
                    pixels@.len() == (y as int * width as int + x as int) * 3,
                    forall|px: u32, py: u32|
                        (px < width && py < y) || (px < x && py == y) ==> #[trigger] cell_ok(
                            pixel,
                            pixels@,
                            width,
                            px,
                            py,
                        ),
                decreases width - x,
            {
                proof {
                    lemma_row_bound(y as int, height as int, width as int, x as int, 1);
                }
                let colour = pixel(x, y);
                let ghost before = pixels@;
                pixels.push(colour[0]);
                pixels.push(colour[1]);
                pixels.push(colour[2]);
                proof {
                    assert(pixels@.subrange(0, before.len() as int) =~= before);
                    let here = (y as int * width as int + x as int) * 3;
                    assert(pixels@.subrange(here, here + 3) =~= colour@);
                    assert(cell_ok(pixel, pixels@, width, x, y));
                    assert forall|px: u32, py: u32|
                        (px < width && py < y) || (px < x + 1 && py == y) implies #[trigger] cell_ok(
                            pixel,
                            pixels@,
                            width,
                            px,
                            py,
                        ) by {
                        if !(px == x && py == y) {
                            if py < y {
                                lemma_row_bound(py as int, y as int, width as int, px as int, 1);
                                assert(width as int * y as int == y as int * width as int)
                                    by (nonlinear_arith);
                            }
                            assert(0 <= py as int * width as int) by (nonlinear_arith);
                            lemma_cell_kept(pixel, before, pixels@, width, px, py);
                        }
                    }
                }
                x = x + 1;
            }
            proof {
                assert((y as int * width as int + width as int) * 3 == ((y + 1) as int
                    * width as int) * 3) by (nonlinear_arith);
            }
            y = y + 1;
        }
        proof {
            assert(pixels@.len() == rgb_len(width, height)) by (nonlinear_arith)
                requires
                    pixels@.len() == (height as int * width as int) * 3,
            ;
        }
        let frame = Self { width, height, pixels };
        proof {
            assert forall|x: u32, y: u32| x < width && y < height implies #[trigger] colour_from(
                pixel,
                x,
                y,
                pixel_at(frame@, x as int, y as int),
            ) by {
                assert(cell_ok(pixel, pixels@, width, x, y));
            }
            assert(frame@.pixels == pixels@);
            assert(frame@.width == width);
        }
        frame
    }

    pub fn width(&self) -> (w: u32)
        ensures
            w == self@.width,
    {
        self.width
    }

    pub fn height(&self) -> (h: u32)
        ensures
            h == self@.height,
    {
        self.height
    }

    /// The RGB24 bytes, whose length is always `width * height * 3`.
    pub fn pixels(&self) -> (p: &[u8])
        ensures
            p@ == self@.pixels,
            p@.len() == rgb_len(self@.width, self@.height),
    {
        proof {
            use_type_invariant(self);
        }
        self.pixels.as_slice()
    }

    /// Cuts `rect` out of the frame.
    pub fn crop(&self, rect: Rect) -> (r: Result<Self, FrameError>)
        ensures
            (rect.x as int + rect.width as int > u32::MAX || rect.y as int + rect.height as int
                > u32::MAX) ==> r == Err::<Self, FrameError>(FrameError::DimensionsOverflow),
            (rect.x as int + rect.width as int <= u32::MAX && rect.y as int + rect.height as int
                <= u32::MAX) ==> ((rect.width == 0 || rect.height == 0 || rect.x + rect.width
                > self@.width || rect.y + rect.height > self@.height) <==> r is Err),
            (rect.x as int + rect.width as int <= u32::MAX && rect.y as int + rect.height as int
                <= u32::MAX && r is Err) ==> r == Err::<Self, FrameError>(
                FrameError::InvalidCrop(rect),
            ),
            r matches Ok(crop) ==> crop@.width == rect.width && crop@.height == rect.height
                && crop@.pixels == cropped_pixels(
                self@.pixels,
                self@.width,
                rect,
                rect.height as nat,
            ),
    {
        proof {
            use_type_invariant(self);
        }
        let right = match rect.x.checked_add(rect.width) {
            Some(right) => right,
            None => return Err(FrameError::DimensionsOverflow),
        };
        let bottom = match rect.y.checked_add(rect.height) {
            Some(bottom) => bottom,
            None => return Err(FrameError::DimensionsOverflow),
        };
        if rect.width == 0 || rect.height == 0 || right > self.width || bottom > self.height {
            return Err(FrameError::InvalidCrop(rect));
        }
        let mut pixels: Vec<u8> = Vec::new();
        let total = self.pixels.len();
        proof {
            lemma_row_bound(
                rect.y as int,
                self.height as int,
                self.width as int,
                rect.x as int,
                rect.width as int,
            );
        }
        let stride = self.width as usize * 3;
        let row_bytes = rect.width as usize * 3;
        let mut row = rect.y;
        while row < bottom
            invariant
                self.pixels@.len() == rgb_len(self.width, self.height),
                total == self.pixels@.len(),
                rect.y <= row <= bottom,
                bottom == rect.y + rect.height,
                bottom <= self.height,
                right == rect.x + rect.width,
                right <= self.width,
                stride == self.width as int * 3,
                row_bytes == rect.width as int * 3,
                pixels@ == cropped_pixels(
                    self.pixels@,
                    self.width,
                    rect,
                    (row - rect.y) as nat,
                ),
            decreases bottom - row,
        {
            proof {
                lemma_row_bound(
                    row as int,
                    self.height as int,
                    self.width as int,
                    rect.x as int,
                    rect.width as int,
                );
            }
            assert(row as int * stride as int == row as int * (self.width as int * 3));
            let start = row as usize * stride + rect.x as usize * 3;
            append_range(&mut pixels, &self.pixels, start, start + row_bytes);
            row = row + 1;
        }
        proof {
            lemma_cropped_len(self.pixels@, self.width, self.height, rect, rect.height as nat);
            assert(pixels@.len() == rgb_len(rect.width, rect.height)) by (nonlinear_arith)
                requires
                    pixels@.len() == rect.height as int * (rect.width as int * 3),
            ;
        }
        Ok(Self { width: rect.width, height: rect.height, pixels })
    }

    /// The tiles of side `tile_size` (smaller at the right and bottom edges)
    /// whose pixels differ from `previous`, in row-major order. The whole
    /// frame is one dirty rectangle when the sizes differ or `tile_size` is 0.
    pub fn dirty_tiles(&self, previous: &Self, tile_size: u32) -> (tiles: Vec<Rect>)
        ensures
            (tile_size == 0 || self@.width != previous@.width || self@.height != previous@.height)
                ==> tiles@ == seq![
                Rect { x: 0, y: 0, width: self@.width, height: self@.height },
            ],
            !(tile_size == 0 || self@.width != previous@.width || self@.height
                != previous@.height) ==> tiles@ == dirty_tiles_from(
                self@,
                previous@,
                tile_size,
                0,
            ),
    {
        if tile_size == 0 || self.width != previous.width || self.height != previous.height {
            return vec![Rect { x: 0, y: 0, width: self.width, height: self.height }];
        }
        proof {
            use_type_invariant(self);
            use_type_invariant(previous);
        }
        let mut dirty: Vec<Rect> = Vec::new();
        let mut y: u64 = 0;
        while y < self.height as u64
            invariant
                self.width == previous.width,
                self.height == previous.height,
                self.pixels@.len() == rgb_len(self.width, self.height),
                previous.pixels@.len() == rgb_len(self.width, self.height),
                tile_size > 0,
                y <= self.height as u64 + tile_size as u64,
                dirty@ + dirty_tiles_from(self@, previous@, tile_size, y as nat)
                    == dirty_tiles_from(self@, previous@, tile_size, 0),
            decreases self.height as u64 + tile_size as u64 - y,
        {
            let row_y = y as u32;
            let height = if tile_size < self.height - row_y {
                tile_size
            } else {
                self.height - row_y
            };
            let ghost row_start_dirty = dirty@;
            let mut x: u64 = 0;
            while x < self.width as u64
                invariant
                    self.width == previous.width,
                    self.height == previous.height,
                    self.pixels@.len() == rgb_len(self.width, self.height),
                    previous.pixels@.len() == rgb_len(self.width, self.height),
                    tile_size > 0,
                    row_y < self.height,
                    row_y as int + height as int <= self.height,
                    height == min_u32(tile_size, (self.height - row_y) as u32),
                    x <= self.width as u64 + tile_size as u64,
                    dirty@ + dirty_row_from(self@, previous@, tile_size, row_y, height, x as nat)
                        == row_start_dirty + dirty_row_from(
                        self@,
                        previous@,
                        tile_size,
                        row_y,
                        height,
                        0,
                    ),
                decreases self.width as u64 + tile_size as u64 - x,
            {
                let col_x = x as u32;
                let width = if tile_size < self.width - col_x {
                    tile_size
                } else {
                    self.width - col_x
                };
                let rect = Rect { x: col_x, y: row_y, width, height };
                let ghost rest = dirty_row_from(
                    self@,
                    previous@,
                    tile_size,
                    row_y,
                    height,
                    (x + tile_size) as nat,
                );
                if self.tile_differs(previous, col_x, row_y, width, height) {
                    dirty.push(rect);
                    assert(dirty_row_from(self@, previous@, tile_size, row_y, height, x as nat)
                        == seq![rect] + rest);
                } else {
                    assert(dirty_row_from(self@, previous@, tile_size, row_y, height, x as nat)
                        =~= Seq::<Rect>::empty() + rest);
                }
                x = x + tile_size as u64;
            }
            assert(dirty_row_from(self@, previous@, tile_size, row_y, height, x as nat)
                =~= Seq::<Rect>::empty());
            y = y + tile_size as u64;
        }
        assert(dirty_tiles_from(self@, previous@, tile_size, y as nat) =~= Seq::<Rect>::empty());
        dirty
    }

    fn tile_differs(&self, previous: &Self, x: u32, y: u32, width: u32, height: u32) -> (r: bool)
        requires
            self.width == previous.width,
            self.height == previous.height,
            self.pixels@.len() == rgb_len(self.width, self.height),
            previous.pixels@.len() == rgb_len(self.width, self.height),
            x as int + width as int <= self.width,
            y as int + height as int <= self.height,
            height > 0,
        ensures
            r == tile_differs_spec(self@, previous@, Rect { x, y, width, height }),
    {
        let ghost rect = Rect { x, y, width, height };
        let total = self.pixels.len();
        proof {
            lemma_row_bound(y as int, self.height as int, self.width as int, x as int, width as int);
        }
        let stride = self.width as usize * 3;
        let row_bytes = width as usize * 3;
        let mut row = y;
        while row < y + height
            invariant
                self.width == previous.width,
                self.pixels@.len() == rgb_len(self.width, self.height),
                previous.pixels@.len() == rgb_len(self.width, self.height),
                total == self.pixels@.len(),
                x as int + width as int <= self.width,
                y as int + height as int <= self.height,
                y <= row <= y + height,
                stride == self.width as int * 3,
                row_bytes == width as int * 3,
                rect == (Rect { x, y, width, height }),
                forall|r: int|
                    y <= r < row ==> #[trigger] row_slice(self@.pixels, self.width, x, r, width)
                        == row_slice(previous@.pixels, self.width, x, r, width),
            decreases y + height - row,
        {
            proof {
                lemma_row_bound(
                    row as int,
                    self.height as int,
                    self.width as int,
                    x as int,
                    width as int,
                );
            }
            assert(row as int * stride as int == row as int * (self.width as int * 3));
            let start = row as usize * stride + x as usize * 3;
            assert(start == row_start(self.width, x, row as int));
            if !bytes_equal(&self.pixels, &previous.pixels, start, row_bytes) {
                assert(row_slice(self@.pixels, self.width, x, row as int, width) != row_slice(
                    previous@.pixels,
                    self.width,
                    x,
                    row as int,
                    width,
                ));
                assert(row_slice(self@.pixels, self@.width, rect.x, row as int, rect.width)
                    != row_slice(previous@.pixels, self@.width, rect.x, row as int, rect.width));
                assert(rows_differ(self@, previous@, rect));
                return true;
            }
            row = row + 1;
        }
        false
    }
}

/// Whether `a[start..start + len]` and `b[start..start + len]` agree.
fn bytes_equal(a: &Vec<u8>, b: &Vec<u8>, start: usize, len: usize) -> (r: bool)
    requires
        start + len <= a@.len(),
        start + len <= b@.len(),
    ensures
        r == (a@.subrange(start as int, start + len) == b@.subrange(start as int, start + len)),
{
    let alen = a.len();
    let mut i: usize = 0;
    while i < len
        invariant
            alen == a@.len(),
            i <= len,
            start + len <= a@.len(),
            start + len <= b@.len(),
            forall|k: int| start <= k < start + i ==> #[trigger] a@[k] == b@[k],
        decreases len - i,
    {
        if a[start + i] != b[start + i] {
            assert(a@.subrange(start as int, start + len)[i as int] != b@.subrange(
                start as int,
                start + len,
            )[i as int]);
            return false;
        }
        i = i + 1;
    }
    assert(a@.subrange(start as int, start + len) =~= b@.subrange(start as int, start + len));
    true
}

/// `pixel` may have produced the three bytes stored for `(x, y)`.
pub open spec fn cell_ok<F: Fn(u32, u32) -> [u8; 3]>(
    pixel: F,
    pixels: Seq<u8>,
    width: u32,
    x: u32,
    y: u32,
) -> bool {
    colour_from(
        pixel,
        x,
        y,
        pixels.subrange(
            (y as int * width as int + x as int) * 3,
            (y as int * width as int + x as int) * 3 + 3,
        ),
    )
}

/// `bytes` is a colour that `pixel` may return for `(x, y)`.
pub open spec fn colour_from<F: Fn(u32, u32) -> [u8; 3]>(
    pixel: F,
    x: u32,
    y: u32,
    bytes: Seq<u8>,
) -> bool {
    exists|colour: [u8; 3]| call_ensures(pixel, (x, y), colour) && colour@ == bytes
}

proof fn lemma_cell_kept<F: Fn(u32, u32) -> [u8; 3]>(
    pixel: F,
    before: Seq<u8>,
    after: Seq<u8>,
    width: u32,
    x: u32,
    y: u32,
)
    requires
        cell_ok(pixel, before, width, x, y),
        (y as int * width as int + x as int) * 3 + 3 <= before.len() <= after.len(),
        0 <= (y as int * width as int + x as int) * 3,
        after.subrange(0, before.len() as int) == before,
    ensures
        cell_ok(pixel, after, width, x, y),
{
    let k = (y as int * width as int + x as int) * 3;
    assert(after.subrange(k, k + 3) =~= before.subrange(k, k + 3)) by {
        assert forall|i: int| 0 <= i < 3 implies #[trigger] after.subrange(k, k + 3)[i]
            == before.subrange(k, k + 3)[i] by {
            assert(after.subrange(0, before.len() as int)[k + i] == after[k + i]);
        }
    }
}

proof fn lemma_cropped_len(pixels: Seq<u8>, frame_width: u32, frame_height: u32, rect: Rect, rows: nat)
    requires
        pixels.len() == rgb_len(frame_width, frame_height),
        rect.x as int + rect.width as int <= frame_width,
        rect.y as int + rows <= frame_height,
    ensures
        cropped_pixels(pixels, frame_width, rect, rows).len() == rows * (rect.width as int * 3),
    decreases rows,
{
    if rows > 0 {
        lemma_cropped_len(pixels, frame_width, frame_height, rect, (rows - 1) as nat);
        lemma_row_bound(
            rect.y + rows - 1,
            frame_height as int,
            frame_width as int,
            rect.x as int,
            rect.width as int,
        );
        let row = rect.y + rows - 1;
        let rs = row_start(frame_width, rect.x, row);
        assert(cropped_pixels(pixels, frame_width, rect, rows) == cropped_pixels(
            pixels,
            frame_width,
            rect,
            (rows - 1) as nat,
        ) + row_slice(pixels, frame_width, rect.x, row, rect.width));
        assert(0 <= rs);
        assert(rs + rect.width as int * 3 <= pixels.len());
        assert(row_slice(pixels, frame_width, rect.x, row, rect.width).len() == rect.width as int
            * 3);
        assert((rows - 1) * (rect.width as int * 3) + rect.width as int * 3 == rows * (
        rect.width as int * 3)) by (nonlinear_arith);
    } else {
        assert(rows * (rect.width as int * 3) == 0) by (nonlinear_arith)
            requires
                rows == 0,
        ;
    }
}

} // verus!
