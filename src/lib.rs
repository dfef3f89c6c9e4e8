use vstd::prelude::*;

pub mod config;
pub mod order;
pub mod layout;
pub mod key;
pub mod rearrange;
pub mod tied;
pub mod untied;
pub mod guarantees;

use crate::config::{ColorType, Config, SortMode, ValidationError};
use crate::tied::{sort_pixels_tied, strategy_for, tied_sorted};
use crate::untied::{sort_channels_untied, untied_sorted};

verus! {

/// The image that a valid configuration makes of `src`.
pub open spec fn processed(config: &Config, src: Seq<u8>, w: nat, h: nat, color_type: ColorType) -> Seq<u8> {
    let bpp = color_type.spec_bytes_per_pixel();
    if config.spec_mode() == SortMode::Untied {
        untied_sorted(src, config.sort_channel@, config.descending, config.sort_range, w, h, bpp)
    } else {
        tied_sorted(
            src,
            w,
            h,
            bpp,
            strategy_for(config, color_type),
            config.sort_channel@,
            config.descending,
            config.sort_range,
        )
    }
}

/// Sorts a decoded image as a configuration that is valid for its colour type asks.
pub fn process_image(config: &Config, src_buf: &[u8], width: usize, height: usize, color_type: ColorType) -> (r: Vec<u8>)
    requires
        config.is_valid_for(color_type),
        src_buf@.len() == width * height * color_type.spec_bytes_per_pixel(),
    ensures
        r@ == processed(config, src_buf@, width as nat, height as nat, color_type),
        r@.len() == src_buf@.len(),
{
    let bpp = color_type.bytes_per_pixel();
    let mut out_buf: Vec<u8> = vec![0u8; src_buf.len()];
    if config.mode() != SortMode::Untied {
        sort_pixels_tied(config, src_buf, &mut out_buf, width, height, bpp, color_type);
    } else {
        sort_channels_untied(config, src_buf, &mut out_buf, width, height, bpp);
    }
    proof {
        crate::guarantees::lemma_output_len(config, src_buf@, width as nat, height as nat, color_type);
    }
    out_buf
}

/// Validates the configuration for the colour type, then sorts the image.
pub fn transform(config: &Config, pixels: &[u8], width: u32, height: u32, color_type: ColorType) -> (r: Result<
    Vec<u8>,
    ValidationError,
>)
    requires
        color_type != ColorType::Indexed ==> pixels@.len() == width * height * color_type.spec_bytes_per_pixel(),
    ensures
        match config.validation(color_type) {
            Err(e) => r == Err::<Vec<u8>, ValidationError>(e),
            Ok(_) => r is Ok && r->Ok_0@ == processed(config, pixels@, width as nat, height as nat, color_type)
                && r->Ok_0@.len() == pixels@.len(),
        },
{
    match config.validate(color_type) {
        Err(e) => Err(e),
        Ok(()) => Ok(process_image(config, pixels, width as usize, height as usize, color_type)),
    }
}

} // verus!
