//! Turning the pixels that X11 gives into an RGB24 frame: each pixel value
//! is decoded (by x11rb) into three 16-bit channels, whose high bytes make
//! the frame.
use vstd::prelude::*;

use crate::renderer::{rgb_len, Frame, FrameError, FrameView};
use vstd::arithmetic::power2::pow2;
use x11rb::image::{ColorComponent, PixelLayout};

verus! {

/// Channel `c` (0 red, 1 green, 2 blue) of a decoded pixel.
pub open spec fn sample_channel(sample: (u16, u16, u16), c: int) -> u16 {
    if c == 0 {
        sample.0
    } else if c == 1 {
        sample.1
    } else {
        sample.2
    }
}

/// The RGB24 bytes of 16-bit samples: the high byte of each channel.
pub open spec fn high_bytes(samples: Seq<(u16, u16, u16)>) -> Seq<u8> {
    Seq::new(3 * samples.len(), |i: int| (sample_channel(samples[i / 3], i % 3) / 256) as u8)
}

/// The frame of a captured `width` x `height` image whose decoded pixels,
/// row by row, are `samples`.
pub fn frame_from_samples(width: u16, height: u16, samples: &Vec<(u16, u16, u16)>) -> (r: Result<
    Frame,
    FrameError,
>)
    requires
        3 * samples@.len() <= usize::MAX,
    ensures
        rgb_len(width as u32, height as u32) > usize::MAX ==> r == Err::<Frame, FrameError>(
            FrameError::DimensionsOverflow,
        ),
        rgb_len(width as u32, height as u32) <= usize::MAX && samples@.len() != width * height
            ==> r == Err::<Frame, FrameError>(
            FrameError::InvalidBufferLength {
                expected: rgb_len(width as u32, height as u32) as usize,
                actual: (3 * samples@.len()) as usize,
            },
        ),
        samples@.len() == width * height ==> (r matches Ok(frame) && frame@ == (FrameView {
            width: width as u32,
            height: height as u32,
            pixels: high_bytes(samples@),
        })),
{
    let mut pixels: Vec<u8> = Vec::new();
    for i in 0..samples.len()
        invariant
            3 * samples@.len() <= usize::MAX,
            pixels@.len() == 3 * i,
            forall|k: int| 0 <= k < 3 * i ==> pixels@[k] == high_bytes(samples@)[k],
    {
        let (red, green, blue) = samples[i];
        let ghost before = pixels@;
        pixels.push((red >> 8) as u8);
        pixels.push((green >> 8) as u8);
        pixels.push((blue >> 8) as u8);
        proof {
            assert(red >> 8 == red / 256) by (bit_vector);
            assert(green >> 8 == green / 256) by (bit_vector);
            assert(blue >> 8 == blue / 256) by (bit_vector);
            assert forall|k: int| 0 <= k < 3 * (i + 1) implies pixels@[k] == high_bytes(samples@)[k] by {
                if k < 3 * i {
                    assert(pixels@[k] == before[k]);
                } else {
                    assert(k / 3 == i);
                }
            }
        }
    }
    assert(pixels@ =~= high_bytes(samples@));
    assert(rgb_len(width as u32, height as u32) == width * height * 3);
    Frame::new_rgb(width as u32, height as u32, pixels)
}

/// Where one colour channel sits in an X11 pixel value: `width` bits from
/// bit `shift` on.
#[derive(Debug, Clone, Copy, PartialEq, Eq)]
pub struct ChannelFormat {
    pub width: u8,
    pub shift: u8,
}

/// The red, green and blue channels of an X11 pixel value (a TrueColor or
/// DirectColor visual's masks).
#[derive(Debug, Clone, Copy, PartialEq, Eq)]
pub struct PixelFormat {
    pub red: ChannelFormat,
    pub green: ChannelFormat,
    pub blue: ChannelFormat,
}

/// A channel that `x11rb::image::ColorComponent` accepts and can decode:
/// 1 to 16 bits that lie inside 32.
pub open spec fn channel_valid(channel: ChannelFormat) -> bool {
    1 <= channel.width <= 16 && channel.shift < 32 && channel.shift + channel.width <= 32
}

pub open spec fn format_valid(format: PixelFormat) -> bool {
    channel_valid(format.red) && channel_valid(format.green) && channel_valid(format.blue)
}

impl PixelFormat {
    /// Whether every channel can be decoded.
    pub fn is_valid(&self) -> (valid: bool)
        ensures
            valid == format_valid(*self),
    {
        let channels = [self.red, self.green, self.blue];
        let mut i: usize = 0;
        while i < 3
            invariant
                i <= 3,
                channels@ == seq![self.red, self.green, self.blue],
                forall|k: int| 0 <= k < i ==> channel_valid(#[trigger] channels@[k]),
            decreases 3 - i,
        {
            let c = channels[i];
            if !(1 <= c.width && c.width <= 16 && c.shift < 32 && c.shift as u16 + c.width as u16
                <= 32) {
                assert(!channel_valid(channels@[i as int]));
                return false;
            }
            i = i + 1;
        }
        assert(channel_valid(channels@[0]) && channel_valid(channels@[1]) && channel_valid(
            channels@[2],
        ));
        true
    }
}

/// What `x11rb::image::PixelLayout::decode` gives for `pixel`: each channel
/// taken out of the pixel and widened to 16 bits by repeating its bits.
pub uninterp spec fn decoded_pixel(format: PixelFormat, pixel: u32) -> (u16, u16, u16);

/// `x11rb::image::PixelLayout::decode`, with the layout made of the
/// channels of `format` (`ColorComponent::new(width, shift)`, which accepts
/// them). Its result is named, not stated; it depends on its arguments
/// alone.
#[verifier::external_body]
fn decode_pixel(format: PixelFormat, pixel: u32) -> (rgb: (u16, u16, u16))
    requires
        format_valid(format),
    ensures
        rgb == decoded_pixel(format, pixel),
{
    let red = ColorComponent::new(format.red.width, format.red.shift).unwrap();
    let green = ColorComponent::new(format.green.width, format.green.shift).unwrap();
    let blue = ColorComponent::new(format.blue.width, format.blue.shift).unwrap();
    PixelLayout::new(red, green, blue).decode(pixel)
}

/// The decoded channels of each pixel value.
pub open spec fn decoded_pixels(format: PixelFormat, pixels: Seq<u32>) -> Seq<(u16, u16, u16)> {
    pixels.map_values(|pixel: u32| decoded_pixel(format, pixel))
}

/// The frame of a captured `width` x `height` image whose pixel values, row
/// by row, are `pixels` in `format`.
pub fn frame_from_pixels(width: u16, height: u16, format: PixelFormat, pixels: &Vec<u32>) -> (r:
    Result<Frame, FrameError>)
    requires
        format_valid(format),
        3 * pixels@.len() <= usize::MAX,
    ensures
        rgb_len(width as u32, height as u32) > usize::MAX ==> r == Err::<Frame, FrameError>(
            FrameError::DimensionsOverflow,
        ),
        rgb_len(width as u32, height as u32) <= usize::MAX && pixels@.len() != width * height
            ==> r == Err::<Frame, FrameError>(
            FrameError::InvalidBufferLength {
                expected: rgb_len(width as u32, height as u32) as usize,
                actual: (3 * pixels@.len()) as usize,
            },
        ),
        pixels@.len() == width * height ==> (r matches Ok(frame) && frame@ == (FrameView {
            width: width as u32,
            height: height as u32,
            pixels: high_bytes(decoded_pixels(format, pixels@)),
        })),
{
    let mut samples: Vec<(u16, u16, u16)> = Vec::new();
    for i in 0..pixels.len()
        invariant
            format_valid(format),
            samples@ == decoded_pixels(format, pixels@).take(i as int),
    {
        samples.push(decode_pixel(format, pixels[i]));
        assert(decoded_pixels(format, pixels@).take(i + 1) =~= decoded_pixels(format, pixels@).take(
            i as int,
        ).push(decoded_pixel(format, pixels@[i as int])));
    }
    assert(decoded_pixels(format, pixels@).take(pixels@.len() as int) =~= decoded_pixels(
        format,
        pixels@,
    ));
    frame_from_samples(width, height, &samples)
}

/// The mask of a channel: `width` set bits from bit `shift` on.
pub open spec fn mask_of(channel: ChannelFormat) -> int {
    (pow2(channel.width as nat) - 1) * pow2(channel.shift as nat)
}

/// Whether `mask` is the mask of a channel that can be decoded.
pub open spec fn channel_mask(mask: u32) -> bool {
    exists|channel: ChannelFormat| channel_valid(channel) && #[trigger] mask_of(channel) == mask
}

/// `x11rb::image::ColorComponent::from_mask`, read as width and shift: it
/// accepts a mask of 1 to 16 consecutive set bits, and gives their number
/// and the position of the lowest.
#[verifier::external_body]
fn channel_from_mask(mask: u32) -> (channel: Option<ChannelFormat>)
    ensures
        channel is Some <==> channel_mask(mask),
        channel matches Some(c) ==> channel_valid(c) && mask_of(c) == mask,
{
    ColorComponent::from_mask(mask).ok().map(
        |c| ChannelFormat { width: c.width(), shift: c.shift() },
    )
}

/// X11's TrueColor and DirectColor visual classes, whose pixel values hold
/// the channels directly.
pub open spec fn direct_class(class: u8) -> bool {
    class == 4 || class == 5
}

/// The pixel format of a visual of class `class` with these channel masks;
/// `None` for a palette or grey-scale visual, or a mask that is not a run
/// of 1 to 16 bits.
pub fn pixel_format_of(class: u8, red_mask: u32, green_mask: u32, blue_mask: u32) -> (format:
    Option<PixelFormat>)
    ensures
        format is Some <==> direct_class(class) && channel_mask(red_mask) && channel_mask(
            green_mask,
        ) && channel_mask(blue_mask),
        format matches Some(f) ==> format_valid(f) && mask_of(f.red) == red_mask && mask_of(
            f.green,
        ) == green_mask && mask_of(f.blue) == blue_mask,
{
    if class != 4 && class != 5 {
        return None;
    }
    let red = match channel_from_mask(red_mask) {
        Some(c) => c,
        None => return None,
    };
    let green = match channel_from_mask(green_mask) {
        Some(c) => c,
        None => return None,
    };
    let blue = match channel_from_mask(blue_mask) {
        Some(c) => c,
        None => return None,
    };
    Some(PixelFormat { red, green, blue })
}

} // verus!
