//! Which decoder an input goes through, and what becomes of what it answers.

use vstd::prelude::*;

use crate::gain_map::attach_gain_map;
use crate::image;
use crate::image::{
    is_missing_codec_error, uncoded_error, DecodeError, DecodedImage, ErrorModel, Frame, FrameModel,
    GainMapMetadata, GainMapPlane, ImageModel,
};
use crate::pixels::MAXIMUM_TEXTURE_DIMENSION;
use crate::registry::{Adapter, FrameSemantics, ImageFormat};
use crate::weight;
use crate::weight::{decoded_weight, device_limited_size};

verus! {

/// What a decode does next.
pub enum DecodeStep {
    /// The decode is over.
    Done(Result<DecodedImage, DecodeError>),
    /// Decode through the platform's codecs.
    Wic(FrameSemantics),
    /// Look for the gain map of this image.
    GainMap(DecodedImage),
    Apng,
    Svg,
    WebPAnimation,
    AvifSequence,
    Exr,
    /// Decode with the bundled HEIF decoder.
    Heif,
    /// Scale the image down to what a texture can hold.
    Limit(DecodedImage),
}

pub enum StepModel {
    Done(Result<ImageModel, ErrorModel>),
    Wic(FrameSemantics),
    GainMap(ImageModel),
    Apng,
    Svg,
    WebPAnimation,
    AvifSequence,
    Exr,
    Heif,
    Limit(ImageModel),
}

impl View for DecodeStep {
    type V = StepModel;

    open spec fn view(&self) -> StepModel {
        match self {
            DecodeStep::Done(result) => StepModel::Done(result_model(*result)),
            DecodeStep::Wic(semantics) => StepModel::Wic(*semantics),
            DecodeStep::GainMap(image) => StepModel::GainMap(image@),
            DecodeStep::Apng => StepModel::Apng,
            DecodeStep::Svg => StepModel::Svg,
            DecodeStep::WebPAnimation => StepModel::WebPAnimation,
            DecodeStep::AvifSequence => StepModel::AvifSequence,
            DecodeStep::Exr => StepModel::Exr,
            DecodeStep::Heif => StepModel::Heif,
            DecodeStep::Limit(image) => StepModel::Limit(image@),
        }
    }
}

/// What a decoder answered.
pub open spec fn result_model(result: Result<DecodedImage, DecodeError>) -> Result<
    ImageModel,
    ErrorModel,
> {
    match result {
        Ok(image) => Ok(image@),
        Err(error) => Err(error@),
    }
}

/// The name an image of this format shows.
pub open spec fn shown_name(format: Option<ImageFormat>) -> Seq<char> {
    match format {
        Some(found) => found.title(),
        None => "Unknown"@,
    }
}

/// The name an image of this format shows.
pub fn format_name(format: Option<ImageFormat>) -> (name: &'static str)
    ensures
        name@ == shown_name(format),
{
    match format {
        Some(found) => found.name(),
        None => "Unknown",
    }
}

/// The decoder an input of this format goes through; what is not recognized is left to the platform.
pub open spec fn first_step(cancelled: bool, format: Option<ImageFormat>) -> StepModel {
    if cancelled {
        StepModel::Done(Err(image::cancelled_error()))
    } else {
        match format {
            None => StepModel::Wic(FrameSemantics::Single),
            Some(found) => match found.decoder() {
                Adapter::Wic => StepModel::Wic(found.frame_semantics()),
                Adapter::WicRawTwoStage => StepModel::Wic(found.frame_semantics()),
                Adapter::WicSubresolutionTwoStage => StepModel::Wic(found.frame_semantics()),
                Adapter::HeifWithWicPreferred => StepModel::Wic(found.frame_semantics()),
                Adapter::Apng => StepModel::Apng,
                Adapter::Svg => StepModel::Svg,
                Adapter::WebPAnimation => StepModel::WebPAnimation,
                Adapter::AvifSequence => StepModel::AvifSequence,
                Adapter::Exr => StepModel::Exr,
            },
        }
    }
}

/// Begins a decode.
pub fn begin_decode(cancelled: bool, format: Option<ImageFormat>) -> (step: DecodeStep)
    ensures
        step@ == first_step(cancelled, format),
{
    if cancelled {
        return DecodeStep::Done(Err(DecodeError::cancelled()));
    }
    match format {
        None => DecodeStep::Wic(FrameSemantics::Single),
        Some(found) => match found.adapter() {
            Adapter::Wic => DecodeStep::Wic(found.semantics()),
            Adapter::WicRawTwoStage => DecodeStep::Wic(found.semantics()),
            Adapter::WicSubresolutionTwoStage => DecodeStep::Wic(found.semantics()),
            Adapter::HeifWithWicPreferred => DecodeStep::Wic(found.semantics()),
            Adapter::Apng => DecodeStep::Apng,
            Adapter::Svg => DecodeStep::Svg,
            Adapter::WebPAnimation => DecodeStep::WebPAnimation,
            Adapter::AvifSequence => DecodeStep::AvifSequence,
            Adapter::Exr => DecodeStep::Exr,
        },
    }
}

/// A codec that is missing, by its error's code.
pub open spec fn is_missing_codec(code: i32) -> bool {
    code == image::COMPONENT_NOT_FOUND_CODE || code == image::COMPONENT_INITIALIZE_FAILURE_CODE
        || code == image::CODEC_NOT_FOUND_CODE
}

/// An error with the Store codecs that could remedy it.
pub open spec fn with_store_hint(error: ErrorModel, format: Option<ImageFormat>) -> ErrorModel {
    match format {
        Some(found) => if is_missing_codec(error.code) {
            ErrorModel { store_codec_names: found.store_codecs(), ..error }
        } else {
            error
        },
        None => error,
    }
}

fn attach_store_hint(error: DecodeError, format: Option<ImageFormat>) -> (hinted: DecodeError)
    ensures
        hinted@ == with_store_hint(error@, format),
{
    match format {
        Some(found) => if is_missing_codec_error(error.code) {
            let hinted = DecodeError {
                code: error.code,
                message: error.message,
                store_codec_names: found.store_codec_names(),
            };
            assert(hinted@ =~= with_store_hint(error@, format));
            hinted
        } else {
            error
        },
        None => error,
    }
}

/// What follows the platform's answer: a JPEG is looked over for a gain map, a HEIF the platform
/// cannot decode goes to the bundled decoder unless it was cancelled, and a missing codec names its
/// remedy.
pub open spec fn step_after_wic(
    format: Option<ImageFormat>,
    result: Result<ImageModel, ErrorModel>,
) -> StepModel {
    if format == Some(ImageFormat::Heif) {
        match result {
            Ok(image) => StepModel::Done(Ok(image)),
            Err(error) => if error.is_cancelled() {
                StepModel::Done(Err(error))
            } else {
                StepModel::Heif
            },
        }
    } else {
        match result {
            Ok(image) => if format == Some(ImageFormat::Jpeg) {
                StepModel::GainMap(image)
            } else {
                StepModel::Done(Ok(image))
            },
            Err(error) => StepModel::Done(Err(with_store_hint(error, format))),
        }
    }
}

/// Takes the platform's answer in.
pub fn after_wic(format: Option<ImageFormat>, result: Result<DecodedImage, DecodeError>) -> (step:
    DecodeStep)
    ensures
        step@ == step_after_wic(format, result_model(result)),
{
    match result {
        Ok(image) => match format {
            Some(ImageFormat::Jpeg) => DecodeStep::GainMap(image),
            _ => DecodeStep::Done(Ok(image)),
        },
        Err(error) => match format {
            Some(ImageFormat::Heif) => if error.is_cancelled() {
                DecodeStep::Done(Err(error))
            } else {
                DecodeStep::Heif
            },
            _ => DecodeStep::Done(Err(attach_store_hint(error, format))),
        },
    }
}

/// Takes the gain map in that was found for an image, if one was.
pub fn after_gain_map(decoded: DecodedImage, found: Option<(GainMapMetadata, GainMapPlane)>) -> (
    step: DecodeStep)
    ensures
        step@ == StepModel::Done(
            Ok(
                crate::gain_map::with_gain_map(
                    decoded@,
                    match found {
                        Some((metadata, plane)) => Some((metadata, plane@)),
                        None => None,
                    },
                ),
            ),
        ),
{
    DecodeStep::Done(Ok(attach_gain_map(decoded, found)))
}

/// Takes a bundled decoder's answer in: its image still has to fit a texture.
pub fn after_bundled(result: Result<DecodedImage, DecodeError>) -> (step: DecodeStep)
    ensures
        step@ == (match result_model(result) {
            Ok(image) => StepModel::Limit(image),
            Err(error) => StepModel::Done(Err(error)),
        }),
{
    match result {
        Ok(image) => DecodeStep::Limit(image),
        Err(error) => DecodeStep::Done(Err(error)),
    }
}

/// How an image is brought within the texture limit.
pub enum LimitStep {
    /// It is within it.
    Keep,
    Refuse(DecodeError),
    /// Scale the first frame, with rows of `stride` bytes, to this size.
    Scale { stride: u32, width: u32, height: u32 },
}

pub enum LimitModel {
    Keep,
    Refuse(ErrorModel),
    Scale { stride: int, width: int, height: int },
}

impl View for LimitStep {
    type V = LimitModel;

    open spec fn view(&self) -> LimitModel {
        match self {
            LimitStep::Keep => LimitModel::Keep,
            LimitStep::Refuse(error) => LimitModel::Refuse(error@),
            LimitStep::Scale { stride, width, height } => LimitModel::Scale {
                stride: *stride as int,
                width: *width as int,
                height: *height as int,
            },
        }
    }
}

/// How an image is brought within the texture limit.
pub open spec fn limit_of(image: ImageModel) -> LimitModel {
    if image.pixel_width <= MAXIMUM_TEXTURE_DIMENSION && image.pixel_height
        <= MAXIMUM_TEXTURE_DIMENSION {
        LimitModel::Keep
    } else if image.row_pitch() > u32::MAX {
        LimitModel::Refuse(image::uncoded("Image stride exceeds the addressable range"@))
    } else if image.frames.len() == 0 {
        LimitModel::Refuse(image::uncoded("Image has no frames"@))
    } else {
        let (width, height) = weight::limited_size(
            image.pixel_width as int,
            image.pixel_height as int,
        );
        LimitModel::Scale { stride: image.row_pitch(), width, height }
    }
}

/// How a decoded image is brought within the texture limit.
pub fn device_limit(decoded: &DecodedImage) -> (step: LimitStep)
    ensures
        step@ == limit_of(decoded@),
{
    if decoded.pixel_width <= MAXIMUM_TEXTURE_DIMENSION && decoded.pixel_height
        <= MAXIMUM_TEXTURE_DIMENSION {
        return LimitStep::Keep;
    }
    let stride: u32 = match decoded.pixel_width.checked_mul(decoded.storage.bytes_per_pixel()) {
        Some(stride) => stride,
        None => {
            return LimitStep::Refuse(uncoded_error("Image stride exceeds the addressable range"));
        },
    };
    assert(decoded@.frames.len() == decoded.frames@.len());
    if decoded.frames.len() == 0 {
        return LimitStep::Refuse(uncoded_error("Image has no frames"));
    }
    let (width, height) = device_limited_size(decoded.pixel_width, decoded.pixel_height);
    LimitStep::Scale { stride, width, height }
}

/// An image whose first frame was scaled.
pub open spec fn scaled(image: ImageModel, pixels: Seq<u8>, width: u32, height: u32) -> ImageModel {
    ImageModel {
        pixel_width: width,
        pixel_height: height,
        frames: if image.frames.len() == 0 {
            image.frames
        } else {
            image.frames.update(
                0,
                FrameModel { pixels, delay_milliseconds: image.frames[0].delay_milliseconds },
            )
        },
        ..image
    }
}

/// Puts the scaled first frame in place.
pub fn with_scaled_frame(decoded: DecodedImage, pixels: Vec<u8>, width: u32, height: u32) -> (image:
    DecodedImage)
    ensures
        image@ == scaled(decoded@, pixels@, width, height),
{
    let ghost before = decoded@;
    let mut image = decoded;
    assert(image@.frames.len() == image.frames@.len());
    if image.frames.len() > 0 {
        let delay_milliseconds = image.frames[0].delay_milliseconds;
        let frame = Frame { pixels, delay_milliseconds };
        image.frames.set(0, frame);
        assert(image@.frames =~= before.frames.update(0, frame@));
    }
    image.pixel_width = width;
    image.pixel_height = height;
    assert(image@ =~= scaled(before, pixels@, width, height));
    image
}

/// How the opening frame of an animation is decoded alone.
#[derive(Clone, Copy, PartialEq, Eq, Structural, Debug)]
pub enum OpeningFrame {
    /// One composed frame, where the container holds more than one.
    Composed,
    /// The still image the container carries for viewers that do not animate.
    DefaultImage,
    /// One frame of the bundled animation decoder.
    Bundled,
    /// One frame of the bundled sequence decoder.
    Sequence,
}

/// How the opening frame of a format is decoded alone; none for formats that do not animate.
pub open spec fn opening_of(format: Option<ImageFormat>) -> Option<OpeningFrame> {
    match format {
        Some(ImageFormat::Gif) => Some(OpeningFrame::Composed),
        Some(ImageFormat::Apng) => Some(OpeningFrame::DefaultImage),
        Some(ImageFormat::AnimatedWebP) => Some(OpeningFrame::Bundled),
        Some(ImageFormat::AnimatedAvif) => Some(OpeningFrame::Sequence),
        _ => None,
    }
}

/// How the opening frame of a format is decoded alone.
pub fn opening_frame(format: Option<ImageFormat>) -> (opening: Option<OpeningFrame>)
    ensures
        opening == opening_of(format),
        opening is Some <==> (format matches Some(found) && found.frame_semantics()
            == FrameSemantics::Animation),
{
    match format {
        Some(ImageFormat::Gif) => Some(OpeningFrame::Composed),
        Some(ImageFormat::Apng) => Some(OpeningFrame::DefaultImage),
        Some(ImageFormat::AnimatedWebP) => Some(OpeningFrame::Bundled),
        Some(ImageFormat::AnimatedAvif) => Some(OpeningFrame::Sequence),
        _ => None,
    }
}

/// Whether an animation is shown by its opening frame first: only one that really holds several.
pub fn opens_early(frame_count: u64) -> (early: bool)
    ensures
        early == (frame_count > 1),
{
    frame_count > 1
}

/// How an input is weighed.
#[derive(Clone, Copy, PartialEq, Eq, Structural, Debug)]
pub enum ProbeRoute {
    Wic(FrameSemantics),
    Apng,
    Svg,
    WebP,
    AvifSequence,
    Exr,
    /// The platform first, the bundled decoder where it fails.
    HeifWithWicPreferred(FrameSemantics),
}

/// How an input of this format is weighed; what is not recognized is not.
pub open spec fn probe_of(format: Option<ImageFormat>) -> Option<ProbeRoute> {
    match format {
        None => None,
        Some(found) => Some(
            match found.decoder() {
                Adapter::Wic => ProbeRoute::Wic(found.frame_semantics()),
                Adapter::WicRawTwoStage => ProbeRoute::Wic(found.frame_semantics()),
                Adapter::WicSubresolutionTwoStage => ProbeRoute::Wic(found.frame_semantics()),
                Adapter::Apng => ProbeRoute::Apng,
                Adapter::Svg => ProbeRoute::Svg,
                Adapter::WebPAnimation => ProbeRoute::WebP,
                Adapter::AvifSequence => ProbeRoute::AvifSequence,
                Adapter::Exr => ProbeRoute::Exr,
                Adapter::HeifWithWicPreferred => ProbeRoute::HeifWithWicPreferred(
                    found.frame_semantics(),
                ),
            },
        ),
    }
}

/// How an input of this format is weighed.
pub fn probe_route(format: Option<ImageFormat>) -> (route: Option<ProbeRoute>)
    ensures
        route == probe_of(format),
{
    match format {
        None => None,
        Some(found) => Some(
            match found.adapter() {
                Adapter::Wic => ProbeRoute::Wic(found.semantics()),
                Adapter::WicRawTwoStage => ProbeRoute::Wic(found.semantics()),
                Adapter::WicSubresolutionTwoStage => ProbeRoute::Wic(found.semantics()),
                Adapter::Apng => ProbeRoute::Apng,
                Adapter::Svg => ProbeRoute::Svg,
                Adapter::WebPAnimation => ProbeRoute::WebP,
                Adapter::AvifSequence => ProbeRoute::AvifSequence,
                Adapter::Exr => ProbeRoute::Exr,
                Adapter::HeifWithWicPreferred => ProbeRoute::HeifWithWicPreferred(found.semantics()),
            },
        ),
    }
}

/// Bits per channel of a pixel format; a format that names no channels counts as 8.
pub fn bits_per_channel(bits_per_pixel: u32, channel_count: u32) -> (bits: u32)
    ensures
        bits == (if channel_count == 0 {
            8
        } else {
            bits_per_pixel / channel_count
        }),
{
    if channel_count == 0 {
        8
    } else {
        bits_per_pixel / channel_count
    }
}

/// What a platform frame weighs: high-depth sources are stored in halves.
pub fn frame_weight(width: u32, height: u32, bits_per_channel: u32) -> (bytes: u64)
    ensures
        bytes == weight::held_weight(
            weight::weight(
                width,
                height,
                if bits_per_channel > 8 {
                    8
                } else {
                    4
                },
                1,
            ),
        ),
{
    let bytes_per_pixel: u32 = if bits_per_channel > 8 {
        8
    } else {
        4
    };
    decoded_weight(width, height, bytes_per_pixel, 1)
}

/// How a stored orientation is undone: quarter turns clockwise, then flips.
#[derive(Clone, Copy, PartialEq, Eq, Structural, Debug)]
pub struct Turn {
    pub quarter_turns: u8,
    pub flip_horizontal: bool,
    pub flip_vertical: bool,
}

/// The turn an EXIF orientation asks for; none for an upright image or a number that is not one.
pub open spec fn turn_of(orientation: u32) -> Option<Turn> {
    if orientation == 2 {
        Some(Turn { quarter_turns: 0, flip_horizontal: true, flip_vertical: false })
    } else if orientation == 3 {
        Some(Turn { quarter_turns: 2, flip_horizontal: false, flip_vertical: false })
    } else if orientation == 4 {
        Some(Turn { quarter_turns: 0, flip_horizontal: false, flip_vertical: true })
    } else if orientation == 5 {
        Some(Turn { quarter_turns: 1, flip_horizontal: true, flip_vertical: false })
    } else if orientation == 6 {
        Some(Turn { quarter_turns: 1, flip_horizontal: false, flip_vertical: false })
    } else if orientation == 7 {
        Some(Turn { quarter_turns: 3, flip_horizontal: true, flip_vertical: false })
    } else if orientation == 8 {
        Some(Turn { quarter_turns: 3, flip_horizontal: false, flip_vertical: false })
    } else {
        None
    }
}

/// The turn an EXIF orientation asks for.
pub fn orientation_turn(orientation: u32) -> (turn: Option<Turn>)
    ensures
        turn == turn_of(orientation),
{
    let (quarter_turns, flip_horizontal, flip_vertical): (u8, bool, bool) = match orientation {
        2 => (0, true, false),
        3 => (2, false, false),
        4 => (0, false, true),
        5 => (1, true, false),
        6 => (1, false, false),
        7 => (3, true, false),
        8 => (3, false, false),
        _ => {
            return None;
        },
    };
    Some(Turn { quarter_turns, flip_horizontal, flip_vertical })
}

/// A file time in two halves as one count of 100 ns intervals, none before the UNIX epoch.
pub fn taken_time(high: u32, low: u32) -> (time: Option<u64>)
    ensures
        time == (if high * 0x1_0000_0000 + low < crate::archive::FILETIME_UNIX_EPOCH {
            None
        } else {
            Some((high * 0x1_0000_0000 + low) as u64)
        }),
{
    let intervals: u64 = high as u64 * 0x1_0000_0000 + low as u64;
    if intervals < crate::archive::FILETIME_UNIX_EPOCH {
        None
    } else {
        Some(intervals)
    }
}

/// A metadata text without white space at its ends; one that shows nothing is none.
pub fn metadata_text(text: &str) -> (shown: Option<String>)
    ensures
        match shown {
            Some(found) => found@ == crate::search::trimmed(text@) && found@.len() > 0,
            None => crate::search::trimmed(text@).len() == 0,
        },
{
    let characters = crate::strings::characters_of(text);
    let trimmed = crate::search::trim(&characters);
    let letters = crate::strings::characters_of(trimmed.as_str());
    if letters.len() == 0 {
        None
    } else {
        Some(trimmed)
    }
}

/// The platform is asked once; only a HEIF it fails on goes to another decoder, and a cancelled decode
/// stays cancelled.
pub proof fn lemma_platform_is_asked_once(
    format: Option<ImageFormat>,
    result: Result<ImageModel, ErrorModel>,
)
    ensures
        !(step_after_wic(format, result) is Wic),
        step_after_wic(format, result) is Heif <==> (format == Some(ImageFormat::Heif) && (
        result matches Err(error) && !error.is_cancelled())),
        (result matches Err(error) && error.is_cancelled()) ==> step_after_wic(format, result)
            == StepModel::Done(result),
{
}

/// What a decoder that scales by itself does for a preview.
#[derive(Clone, Copy, PartialEq, Eq, Structural, Debug)]
pub enum SubresolutionStep {
    /// The decoder cannot scale; the image stays in one stage.
    SingleStage,
    /// The work was called off.
    Cancelled,
    /// Copy rows of this many bytes, this many bytes in all.
    Copy { stride: u32, bytes: u64 },
}

/// Whole bytes that hold a row.
pub open spec fn row_stride(width: int, bits_per_pixel: int) -> int {
    (width * bits_per_pixel + 7) / 8
}

/// How a preview is taken: `closest` is the size the decoder offers for the one asked of it.
pub fn subresolution_step(
    full: (u32, u32),
    closest: (u32, u32),
    bits_per_pixel: u32,
    cancelled: bool,
) -> (step: SubresolutionStep)
    requires
        closest.0 * bits_per_pixel <= u32::MAX,
    ensures
        step == (if closest == full {
            SubresolutionStep::SingleStage
        } else if cancelled {
            SubresolutionStep::Cancelled
        } else {
            SubresolutionStep::Copy {
                stride: row_stride(closest.0 as int, bits_per_pixel as int) as u32,
                bytes: (row_stride(closest.0 as int, bits_per_pixel as int) * closest.1) as u64,
            }
        }),
{
    if closest.0 == full.0 && closest.1 == full.1 {
        return SubresolutionStep::SingleStage;
    }
    if cancelled {
        return SubresolutionStep::Cancelled;
    }
    let bits: u64 = (closest.0 * bits_per_pixel) as u64;
    let stride: u64 = (bits + 7) / 8;
    assert(0 <= stride * closest.1 <= u64::MAX) by (nonlinear_arith)
        requires
            stride <= u32::MAX,
            closest.1 <= u32::MAX,
    ;
    SubresolutionStep::Copy { stride: stride as u32, bytes: stride * closest.1 as u64 }
}

} // verus!
