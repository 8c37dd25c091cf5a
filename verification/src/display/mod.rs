mod x11;

pub use x11::{
    channel_mask, channel_valid, decoded_pixel, decoded_pixels, direct_class, format_valid,
    frame_from_pixels, mask_of, pixel_format_of,
    frame_from_samples, high_bytes, sample_channel, ChannelFormat, PixelFormat,
};
