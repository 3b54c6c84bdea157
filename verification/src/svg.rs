//! Drawings: what reading one came to, and what its raster becomes.

use vstd::prelude::*;

use crate::frame_pipeline;
use crate::frame_pipeline::still_image;
use crate::image;
use crate::image::{uncoded_error, DecodeError, DecodedImage, ImageModel, PixelStorage};
use crate::weight;
use crate::weight::decoded_weight;

verus! {

/// What reading a drawing came to: the drawing, or the reader's own reason as an error without a code.
pub fn parse_svg_tree<Tree>(read: Result<Tree, String>) -> (parsed: Result<Tree, DecodeError>)
    ensures
        match read {
            Ok(tree) => parsed == Ok::<Tree, DecodeError>(tree),
            Err(reason) => parsed matches Err(error) && error@ == image::uncoded(reason@),
        },
{
    match read {
        Ok(tree) => Ok(tree),
        Err(reason) => Err(uncoded_error(reason.as_str())),
    }
}

/// The raster with red and blue exchanged.
pub open spec fn swapped(pixels: Seq<u8>) -> Seq<u8> {
    Seq::new(
        pixels.len(),
        |place: int|
            if place / 4 * 4 + 4 > pixels.len() {
                pixels[place]
            } else if place % 4 == 0 {
                pixels[place + 2]
            } else if place % 4 == 2 {
                pixels[place - 2]
            } else {
                pixels[place]
            },
    )
}

/// Exchanges red and blue in every whole pixel.
pub fn swap_red_and_blue(pixels: &mut Vec<u8>)
    ensures
        final(pixels)@ == swapped(old(pixels)@),
{
    let ghost before = pixels@;
    let length: usize = pixels.len();
    let mut start: usize = 0;
    while length - start >= 4
        invariant
            start <= length,
            start % 4 == 0,
            length == before.len(),
            pixels@.len() == before.len(),
            forall|place: int|
                0 <= place < start ==> #[trigger] pixels@[place] == swapped(before)[place],
            forall|place: int| start <= place < length ==> #[trigger] pixels@[place] == before[place],
        decreases length - start,
    {
        let red: u8 = pixels[start];
        let blue: u8 = pixels[start + 2];
        pixels.set(start, blue);
        pixels.set(start + 2, red);
        start += 4;
    }
    assert(pixels@ =~= swapped(before));
}

/// What a drawing's raster becomes.
pub open spec fn drawn(width: u32, height: u32, raster: Seq<u8>, format_name: Seq<char>) -> ImageModel {
    frame_pipeline::still(
        (width, height),
        (width, height),
        format_name,
        None,
        None,
        PixelStorage::Bgra8,
        8,
        None,
        None,
        swapped(raster),
    )
}

/// The image a raster of premultiplied red, green, blue and alpha holds.
pub fn drawn_image(width: u32, height: u32, raster: Vec<u8>, format_name: &'static str) -> (image:
    DecodedImage)
    ensures
        image@ == drawn(width, height, raster@, format_name@),
{
    let mut pixels = raster;
    swap_red_and_blue(&mut pixels);
    still_image(
        (width, height),
        (width, height),
        format_name,
        None,
        None,
        PixelStorage::Bgra8,
        8,
        None,
        None,
        pixels,
    )
}

/// The image of a drawing: `geometry` is none where it has no size of its own, `raster` is none where
/// there was no memory to render on.
pub fn decode_svg(
    geometry: Option<(u32, u32)>,
    raster: Option<Vec<u8>>,
    format_name: &'static str,
) -> (result: Result<DecodedImage, DecodeError>)
    ensures
        match (geometry, raster) {
            (None, _) => result matches Err(error) && error@ == image::uncoded(
                "SVG has no intrinsic size"@,
            ),
            (Some(_), None) => result matches Err(error) && error@ == image::uncoded(
                "SVG raster target allocation failed"@,
            ),
            (Some((width, height)), Some(pixels)) => result matches Ok(image) && image@ == drawn(
                width,
                height,
                pixels@,
                format_name@,
            ),
        },
{
    match (geometry, raster) {
        (None, _) => Err(uncoded_error("SVG has no intrinsic size")),
        (Some(_), None) => Err(uncoded_error("SVG raster target allocation failed")),
        (Some((width, height)), Some(pixels)) => Ok(drawn_image(width, height, pixels, format_name)),
    }
}

/// What a drawing weighs once rendered at this size, none where it has no size of its own.
pub fn probe_svg_weight(size: Option<(u32, u32)>) -> (bytes: Option<u64>)
    ensures
        match (size, bytes) {
            (None, None) => true,
            (Some((width, height)), Some(held)) => held == weight::held_weight(
                weight::weight(width, height, 4, 1),
            ),
            _ => false,
        },
{
    match size {
        Some((width, height)) => Some(decoded_weight(width, height, 4, 1)),
        None => None,
    }
}

/// Exchanging red and blue twice gives the raster back.
pub proof fn lemma_swapping_twice_restores(pixels: Seq<u8>)
    ensures
        swapped(swapped(pixels)) == pixels,
{
    assert(swapped(swapped(pixels)) =~= pixels);
}

} // verus!
