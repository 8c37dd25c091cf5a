//! Kitty Graphics Protocol encoding of RGB24 frames.
use vstd::prelude::*;
use vstd::utf8::encode_utf8;

use crate::renderer::{Frame, FrameView, pixel_at, rgb_len};
use crate::text::{decimal, push_char, push_decimal, push_str, utf8_bytes};

verus! {

/// Payload bytes per Kitty graphics command.
pub const KITTY_CHUNK_SIZE: usize = 4096;

pub const DEFAULT_IMAGE_ID: u32 = 1;

/// Size of the generated demo frame.
#[derive(Debug, Clone, Copy, PartialEq, Eq)]
pub struct DemoOptions {
    pub width: u32,
    pub height: u32,
}

impl Default for DemoOptions {
    fn default() -> (options: Self)
        ensures
            options.width == 320 && options.height == 180,
    {
        DemoOptions { width: 320, height: 180 }
    }
}

impl DemoOptions {
    /// Both dimensions must lie in `1..=4096`.
    pub fn validate(self) -> (r: Result<(), String>)
        ensures
            (self.width == 0 || self.height == 0) ==> (r matches Err(message) && message@
                == "demo dimensions must be greater than zero"@),
            (self.width != 0 && self.height != 0 && (self.width > 4096 || self.height > 4096))
                ==> (r matches Err(message) && message@
                == "demo dimensions must not exceed 4096 pixels"@),
            (1 <= self.width <= 4096 && 1 <= self.height <= 4096) ==> r is Ok,
    {
        if self.width == 0 || self.height == 0 {
            let mut message = String::new();
            push_str(&mut message, "demo dimensions must be greater than zero");
            return Err(message);
        }
        if self.width > 4096 || self.height > 4096 {
            let mut message = String::new();
            push_str(&mut message, "demo dimensions must not exceed 4096 pixels");
            return Err(message);
        }
        Ok(())
    }
}

/// The base64 alphabet.
pub open spec fn base64_symbol(i: int) -> char {
    if i < 26 {
        (('A' as int) + i) as char
    } else if i < 52 {
        (('a' as int) + i - 26) as char
    } else if i < 62 {
        (('0' as int) + i - 52) as char
    } else if i == 62 {
        '+'
    } else {
        '/'
    }
}

/// Base64 of one group of one to three bytes, padded with `=`.
pub open spec fn base64_group(group: Seq<u8>) -> Seq<char> {
    let a = group[0];
    let b: u8 = if group.len() > 1 {
        group[1]
    } else {
        0
    };
    let c: u8 = if group.len() > 2 {
        group[2]
    } else {
        0
    };
    seq![
        base64_symbol((a >> 2u8) as int),
        base64_symbol((((a & 0x03u8) << 4u8) | (b >> 4u8)) as int),
        if group.len() > 1 {
            base64_symbol((((b & 0x0fu8) << 2u8) | (c >> 6u8)) as int)
        } else {
            '='
        },
        if group.len() > 2 {
            base64_symbol((c & 0x3fu8) as int)
        } else {
            '='
        },
    ]
}

/// Standard padded base64 (RFC 4648).
pub open spec fn base64(input: Seq<u8>) -> Seq<char>
    decreases input.len(),
{
    if input.len() == 0 {
        Seq::empty()
    } else if input.len() <= 3 {
        base64_group(input)
    } else {
        base64_group(input.take(3)) + base64(input.skip(3))
    }
}

fn base64_char(i: u8) -> (c: char)
    requires
        i < 64,
    ensures
        c == base64_symbol(i as int),
{
    if i < 26 {
        (65 + i) as char
    } else if i < 52 {
        (97 + i - 26) as char
    } else if i < 62 {
        (48 + i - 52) as char
    } else if i == 62 {
        '+'
    } else {
        '/'
    }
}

proof fn lemma_base64_skip(input: Seq<u8>, i: int)
    requires
        0 <= i,
        i % 3 == 0,
        i < input.len(),
    ensures
        base64(input.skip(i)) == base64_group(input.subrange(i, if i + 3 < input.len() {
            i + 3
        } else {
            input.len() as int
        })) + base64(input.skip(if i + 3 < input.len() {
            i + 3
        } else {
            input.len() as int
        })),
{
    let s = input.skip(i);
    if s.len() <= 3 {
        assert(s =~= input.subrange(i, input.len() as int));
        assert(input.skip(input.len() as int) =~= Seq::<u8>::empty());
        assert(base64(Seq::<u8>::empty()) =~= Seq::<char>::empty());
        assert(base64(s) + Seq::<char>::empty() =~= base64(s));
    } else {
        assert(s.take(3) =~= input.subrange(i, i + 3));
        assert(s.skip(3) =~= input.skip(i + 3));
    }
}

/// Encodes bytes as standard padded base64.
pub fn encode_base64(input: &[u8]) -> (encoded: String)
    ensures
        encoded@ == base64(input@),
{
    let mut output = String::new();
    let mut i: usize = 0;
    let n = input.len();
    assert(input@.skip(0) =~= input@);
    while i < n
        invariant
            n == input@.len(),
            i <= n,
            i == n || i % 3 == 0,
            output@ + base64(input@.skip(i as int)) == base64(input@),
        decreases n - i,
    {
        let end = if n - i > 3 {
            i + 3
        } else {
            n
        };
        proof {
            lemma_base64_skip(input@, i as int);
        }
        let a = input[i];
        let b: u8 = if end - i > 1 {
            input[i + 1]
        } else {
            0
        };
        let c: u8 = if end - i > 2 {
            input[i + 2]
        } else {
            0
        };
        let ghost group = input@.subrange(i as int, end as int);
        assert(a >> 2u8 < 64) by (bit_vector);
        assert((((a & 0x03u8) << 4u8) | (b >> 4u8)) < 64) by (bit_vector);
        assert((((b & 0x0fu8) << 2u8) | (c >> 6u8)) < 64) by (bit_vector);
        assert((c & 0x3fu8) < 64) by (bit_vector);
        let ghost before = output@;
        push_char(&mut output, base64_char(a >> 2u8));
        push_char(&mut output, base64_char(((a & 0x03u8) << 4u8) | (b >> 4u8)));
        push_char(
            &mut output,
            if end - i > 1 {
                base64_char(((b & 0x0fu8) << 2u8) | (c >> 6u8))
            } else {
                '='
            },
        );
        push_char(
            &mut output,
            if end - i > 2 {
                base64_char(c & 0x3fu8)
            } else {
                '='
            },
        );
        assert(output@ == before + base64_group(group));
        if end == n {
            assert(input@.skip(n as int) =~= Seq::<u8>::empty());
        }
        i = if end == n {
            n
        } else {
            end
        };
    }
    assert(input@.skip(n as int) =~= Seq::<u8>::empty());
    output
}

/// The Kitty commands carrying `data`: one command per 4096-byte chunk,
/// the first introduced by `first`, the others by `ESC _ G`; `m=1` marks
/// every chunk but the last.
pub open spec fn kitty_chunks(data: Seq<u8>, first: Seq<u8>, is_first: bool) -> Seq<u8>
    decreases data.len(),
{
    if data.len() == 0 {
        Seq::empty()
    } else {
        let size = if data.len() < KITTY_CHUNK_SIZE {
            data.len() as int
        } else {
            KITTY_CHUNK_SIZE as int
        };
        let rest = data.skip(size);
        let intro = if is_first {
            first
        } else {
            encode_utf8("\x1b_G"@)
        };
        intro + encode_utf8("m="@) + encode_utf8(if rest.len() > 0 {
            "1"@
        } else {
            "0"@
        }) + encode_utf8(";"@) + data.take(size) + encode_utf8("\x1b\\"@) + kitty_chunks(
            rest,
            first,
            false,
        )
    }
}

/// The key-value header that opens the first command of a transmission.
pub open spec fn transmit_header(frame: FrameView, image_id: u32, placement: Option<(u16, u16)>) -> Seq<
    char,
> {
    "\x1b_Ga=T,f=24,s="@ + decimal(frame.width as nat) + ",v="@ + decimal(frame.height as nat)
        + ",i="@ + decimal(image_id as nat) + ",q=1,"@ + match placement {
        Some((columns, rows)) => "c="@ + decimal(columns as nat) + ",r="@ + decimal(rows as nat)
            + ","@,
        None => Seq::empty(),
    }
}

/// The bytes that transmit `frame` as image `image_id`.
pub open spec fn transmission(frame: FrameView, image_id: u32, placement: Option<(u16, u16)>) -> Seq<
    u8,
> {
    kitty_chunks(
        encode_utf8(base64(frame.pixels)),
        encode_utf8(transmit_header(frame, image_id, placement)),
        true,
    )
}

/// The command that deletes image `image_id`.
pub open spec fn delete_command(image_id: u32) -> Seq<u8> {
    encode_utf8("\x1b_Ga=d,d=I,i="@ + decimal(image_id as nat) + ",q=1\x1b\\"@)
}

/// The cursor movement to the 0-based cell `(column, row)`.
pub open spec fn cursor_to(column: u16, row: u16) -> Seq<u8> {
    encode_utf8("\x1b["@ + decimal(row as nat + 1) + ";"@ + decimal(column as nat + 1) + "H"@)
}

pub open spec fn at_least_one(v: u16) -> u16 {
    if v < 1 {
        1
    } else {
        v
    }
}

/// Writes Kitty graphics commands into a byte buffer.
pub struct KittyEncoder {
    output: Vec<u8>,
}

impl View for KittyEncoder {
    type V = Seq<u8>;

    closed spec fn view(&self) -> Seq<u8> {
        self.output@
    }
}

fn append_bytes(dst: &mut Vec<u8>, src: &Vec<u8>, start: usize, end: usize)
    requires
        start <= end <= src@.len(),
    ensures
        final(dst)@ == old(dst)@ + src@.subrange(start as int, end as int),
{
    let mut i = start;
    while i < end
        invariant
            start <= i <= end <= src@.len(),
            dst@ == old(dst)@ + src@.subrange(start as int, i as int),
        decreases end - i,
    {
        dst.push(src[i]);
        i = i + 1;
        assert(src@.subrange(start as int, i as int) == src@.subrange(start as int, i - 1).push(
            src@[i - 1],
        ));
    }
}

fn append_str(dst: &mut Vec<u8>, text: &str)
    ensures
        final(dst)@ == old(dst)@ + encode_utf8(text@),
{
    let bytes = utf8_bytes(text);
    append_bytes(dst, &bytes, 0, bytes.len());
    assert(bytes@.subrange(0, bytes@.len() as int) == bytes@);
}

proof fn lemma_kitty_step(data: Seq<u8>, first: Seq<u8>, offset: int, size: int)
    requires
        0 <= offset < data.len(),
        size == if data.len() - offset < KITTY_CHUNK_SIZE {
            data.len() - offset
        } else {
            KITTY_CHUNK_SIZE as int
        },
    ensures
        kitty_chunks(data.skip(offset), first, offset == 0) == (if offset == 0 {
            first
        } else {
            encode_utf8("\x1b_G"@)
        }) + encode_utf8("m="@) + encode_utf8(if offset + size < data.len() {
            "1"@
        } else {
            "0"@
        }) + encode_utf8(";"@) + data.subrange(offset, offset + size) + encode_utf8(
            "\x1b\\"@,
        ) + kitty_chunks(data.skip(offset + size), first, false),
{
    let rest = data.skip(offset);
    assert(rest.skip(size) =~= data.skip(offset + size));
    assert(rest.take(size) =~= data.subrange(offset, offset + size));
}

impl KittyEncoder {
    /// An encoder that appends to `output`.
    pub fn new(output: Vec<u8>) -> (encoder: Self)
        ensures
            encoder@ == output@,
    {
        KittyEncoder { output }
    }

    /// Transmits and displays `frame` as image `image_id` at the cursor.
    pub fn transmit_rgb(&mut self, frame: &Frame, image_id: u32) -> (r: std::io::Result<()>)
        ensures
            r is Ok,
            final(self)@ == old(self)@ + transmission(frame@, image_id, None),
    {
        self.transmit_rgb_inner(frame, image_id, None)
    }

    /// Transmits `frame` and scales it onto `columns` x `rows` cells (each at
    /// least one).
    pub fn transmit_rgb_placed(&mut self, frame: &Frame, image_id: u32, columns: u16, rows: u16) -> (r:
        std::io::Result<()>)
        ensures
            r is Ok,
            final(self)@ == old(self)@ + transmission(
                frame@,
                image_id,
                Some((at_least_one(columns), at_least_one(rows))),
            ),
    {
        let columns = if columns < 1 {
            1
        } else {
            columns
        };
        let rows = if rows < 1 {
            1
        } else {
            rows
        };
        self.transmit_rgb_inner(frame, image_id, Some((columns, rows)))
    }

    /// Moves the cursor to the 0-based cell `(column, row)`, then transmits
    /// `frame` scaled onto `columns` x `rows` cells.
    pub fn transmit_rgb_at(
        &mut self,
        frame: &Frame,
        image_id: u32,
        column: u16,
        row: u16,
        columns: u16,
        rows: u16,
    ) -> (r: std::io::Result<()>)
        ensures
            r is Ok,
            final(self)@ == old(self)@ + cursor_to(column, row) + transmission(
                frame@,
                image_id,
                Some((at_least_one(columns), at_least_one(rows))),
            ),
    {
        let mut text = String::new();
        push_str(&mut text, "\x1b[");
        push_decimal(&mut text, row as u64 + 1);
        push_str(&mut text, ";");
        push_decimal(&mut text, column as u64 + 1);
        push_str(&mut text, "H");
        append_str(&mut self.output, text.as_str());
        self.transmit_rgb_placed(frame, image_id, columns, rows)
    }

    fn transmit_rgb_inner(
        &mut self,
        frame: &Frame,
        image_id: u32,
        placement: Option<(u16, u16)>,
    ) -> (r: std::io::Result<()>)
        ensures
            r is Ok,
            final(self)@ == old(self)@ + transmission(frame@, image_id, placement),
    {
        let encoded = encode_base64(frame.pixels());
        let data = utf8_bytes(encoded.as_str());
        let mut header = String::new();
        push_str(&mut header, "\x1b_Ga=T,f=24,s=");
        push_decimal(&mut header, frame.width() as u64);
        push_str(&mut header, ",v=");
        push_decimal(&mut header, frame.height() as u64);
        push_str(&mut header, ",i=");
        push_decimal(&mut header, image_id as u64);
        push_str(&mut header, ",q=1,");
        match placement {
            Some((columns, rows)) => {
                push_str(&mut header, "c=");
                push_decimal(&mut header, columns as u64);
                push_str(&mut header, ",r=");
                push_decimal(&mut header, rows as u64);
                push_str(&mut header, ",");
            },
            None => {},
        }
        assert(header@ =~= transmit_header(frame@, image_id, placement));
        let first = utf8_bytes(header.as_str());
        let ghost start = self.output@;
        let total = data.len();
        let mut offset: usize = 0;
        assert(data@.skip(0) =~= data@);
        while offset < total
            invariant
                total == data@.len(),
                offset <= total,
                self.output@ + kitty_chunks(data@.skip(offset as int), first@, offset == 0)
                    == start + kitty_chunks(data@, first@, true),
            decreases total - offset,
        {
            let size = if total - offset < KITTY_CHUNK_SIZE {
                total - offset
            } else {
                KITTY_CHUNK_SIZE
            };
            let next = offset + size;
            let mut piece: Vec<u8> = Vec::new();
            if offset == 0 {
                append_bytes(&mut piece, &first, 0, first.len());
                assert(first@.subrange(0, first@.len() as int) == first@);
            } else {
                append_str(&mut piece, "\x1b_G");
            }
            append_str(&mut piece, "m=");
            if next < total {
                append_str(&mut piece, "1");
            } else {
                append_str(&mut piece, "0");
            }
            append_str(&mut piece, ";");
            append_bytes(&mut piece, &data, offset, next);
            append_str(&mut piece, "\x1b\\");
            proof {
                lemma_kitty_step(data@, first@, offset as int, size as int);
            }
            let ghost before = self.output@;
            append_bytes(&mut self.output, &piece, 0, piece.len());
            assert(piece@.subrange(0, piece@.len() as int) == piece@);
            assert(self.output@ == before + piece@);
            offset = next;
        }
        Ok(())
    }

    /// Deletes image `image_id`.
    pub fn delete(&mut self, image_id: u32) -> (r: std::io::Result<()>)
        ensures
            r is Ok,
            final(self)@ == old(self)@ + delete_command(image_id),
    {
        let mut text = String::new();
        push_str(&mut text, "\x1b_Ga=d,d=I,i=");
        push_decimal(&mut text, image_id as u64);
        push_str(&mut text, ",q=1\x1b\\");
        append_str(&mut self.output, text.as_str());
        Ok(())
    }

    /// The bytes written so far.
    pub fn into_inner(self) -> (output: Vec<u8>)
        ensures
            output@ == self@,
    {
        self.output
    }
}

/// The two colours of the demo checkerboard, alternating every 32 pixels.
pub open spec fn checker_colour(x: u32, y: u32) -> Seq<u8> {
    if ((x / 32) + (y / 32)) % 2 == 0 {
        seq![70u8, 211u8, 154u8]
    } else {
        seq![21u8, 32u8, 43u8]
    }
}

/// A checkerboard frame of 32-pixel squares.
pub fn checkerboard(width: u32, height: u32) -> (frame: Frame)
    requires
        rgb_len(width, height) <= usize::MAX,
    ensures
        frame@.width == width,
        frame@.height == height,
        frame@.pixels.len() == rgb_len(width, height),
        forall|x: u32, y: u32|
            x < width && y < height ==> #[trigger] pixel_at(frame@, x as int, y as int)
                == checker_colour(x, y),
{
    let colour = |x: u32, y: u32| -> (c: [u8; 3])
        ensures
            c@ == checker_colour(x, y),
        {
            let light = ((x / 32) + (y / 32)) % 2 == 0;
            let c = if light {
                [70u8, 211u8, 154u8]
            } else {
                [21u8, 32u8, 43u8]
            };
            assert(c@ =~= checker_colour(x, y));
            c
        };
    let frame = Frame::from_rgb_fn(width, height, colour);
    proof {
        assert forall|x: u32, y: u32| x < width && y < height implies #[trigger] pixel_at(
            frame@,
            x as int,
            y as int,
        ) == checker_colour(x, y) by {
            assert(crate::renderer::colour_from(
                colour,
                x,
                y,
                pixel_at(frame@, x as int, y as int),
            ));
        }
    }
    frame
}

/// Renders the demo checkerboard as image 1 and returns `output` with the
/// Kitty commands appended.
pub fn render_demo(output: Vec<u8>, options: DemoOptions) -> (written: Vec<u8>)
    requires
        rgb_len(options.width, options.height) <= usize::MAX,
    ensures
        exists|frame: FrameView|
            frame.width == options.width && frame.height == options.height && frame.pixels.len()
                == rgb_len(options.width, options.height) && (forall|x: u32, y: u32|
                x < options.width && y < options.height ==> #[trigger] pixel_at(
                    frame,
                    x as int,
                    y as int,
                ) == checker_colour(x, y)) && written@ == output@ + transmission(
                frame,
                DEFAULT_IMAGE_ID,
                None,
            ),
{
    let frame = checkerboard(options.width, options.height);
    let mut encoder = KittyEncoder::new(output);
    let _ = encoder.transmit_rgb(&frame, DEFAULT_IMAGE_ID);
    encoder.into_inner()
}

} // verus!
