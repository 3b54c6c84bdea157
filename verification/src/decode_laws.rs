//! Which decoder an image goes through, how its frames play, and how its numbers read.

use vstd::prelude::*;

use crate::animation;
use crate::animation::PlaybackModel;
use crate::bundled;
use crate::bytes;
use crate::decode;
use crate::decode::{LimitModel, OpeningFrame, ProbeRoute, StepModel};
use crate::frame_pipeline;
use crate::frame_pipeline::{FrameEvent, FrameStep, PixelTarget};
use crate::half;
use crate::hdr;
use crate::hdr::{HdrEncoding, HdrPrimaries, HdrTransfer};
use crate::icc;
use crate::icc::CurveModel;
use crate::image;
use crate::image::{ErrorModel, FrameModel, ImageModel, PixelStorage, UploadDevice, UploadedTexture};
use crate::listing::ItemMetadata;
use crate::location::Place;
use crate::registry;
use crate::registry::{FrameSemantics, ImageFormat};
use crate::session_model::{DecodeStage, JobKind, JobModel};
use crate::svg;
use crate::weight;
use crate::worker;
use crate::worker::WorkStep;

verus! {

/// The platform decodes what it knows: animations frame by frame, icons by their largest size, and
/// everything it may or may not recognize as one picture. The rest goes to the decoder of its own
/// format.
pub proof fn lemma_each_format_has_its_decoder(format: ImageFormat)
    ensures
        decode::first_step(false, None) == StepModel::Wic(FrameSemantics::Single),
        ({
            let step = decode::first_step(false, Some(format));
            &&& format == ImageFormat::Apng <==> step is Apng
            &&& format == ImageFormat::Svg <==> step is Svg
            &&& format == ImageFormat::AnimatedWebP <==> step is WebPAnimation
            &&& format == ImageFormat::AnimatedAvif <==> step is AvifSequence
            &&& format == ImageFormat::Exr <==> step is Exr
            &&& format == ImageFormat::Gif <==> step == StepModel::Wic(FrameSemantics::Animation)
            &&& format == ImageFormat::Ico <==> step == StepModel::Wic(
                FrameSemantics::SizeVariants,
            )
            &&& !(format == ImageFormat::Apng || format == ImageFormat::Svg || format
                == ImageFormat::AnimatedWebP || format == ImageFormat::AnimatedAvif || format
                == ImageFormat::Exr || format == ImageFormat::Gif || format == ImageFormat::Ico)
                ==> step == StepModel::Wic(FrameSemantics::Single)
        }),
        decode::first_step(true, Some(format)) matches StepModel::Done(Err(error))
            && error.is_cancelled(),
        decode::first_step(true, None) matches StepModel::Done(Err(error)) && error.is_cancelled(),
{
}

/// An input is weighed the way it is decoded, and what is not recognized is not weighed.
pub proof fn lemma_probes_follow_the_decoders(format: ImageFormat)
    ensures
        decode::probe_of(None) is None,
        decode::probe_of(Some(format)) matches Some(route) && match route {
            ProbeRoute::Wic(semantics) => decode::first_step(false, Some(format))
                == StepModel::Wic(semantics) && format != ImageFormat::Heif,
            ProbeRoute::HeifWithWicPreferred(semantics) => decode::first_step(false, Some(format))
                == StepModel::Wic(semantics) && format == ImageFormat::Heif,
            ProbeRoute::Apng => decode::first_step(false, Some(format)) is Apng,
            ProbeRoute::Svg => decode::first_step(false, Some(format)) is Svg,
            ProbeRoute::WebP => decode::first_step(false, Some(format)) is WebPAnimation,
            ProbeRoute::AvifSequence => decode::first_step(false, Some(format)) is AvifSequence,
            ProbeRoute::Exr => decode::first_step(false, Some(format)) is Exr,
        },
{
}

/// Formats that animate, and no others, open on a frame of their own.
pub proof fn lemma_animations_open_on_a_frame(format: ImageFormat)
    ensures
        decode::opening_of(Some(format)) is Some <==> format.frame_semantics()
            == FrameSemantics::Animation,
        decode::opening_of(None) is None,
        format == ImageFormat::Gif ==> decode::opening_of(Some(format)) == Some(
            OpeningFrame::Composed,
        ),
        format == ImageFormat::Apng ==> decode::opening_of(Some(format)) == Some(
            OpeningFrame::DefaultImage,
        ),
        format == ImageFormat::AnimatedWebP ==> decode::opening_of(Some(format)) == Some(
            OpeningFrame::Bundled,
        ),
        format == ImageFormat::AnimatedAvif ==> decode::opening_of(Some(format)) == Some(
            OpeningFrame::Sequence,
        ),
{
}

/// What the platform answered stands: its picture is looked over for a gain map where it is a JPEG and
/// is done otherwise; its error stays what it was, but names the codecs that could remedy it where one
/// is missing.
pub proof fn lemma_platform_answer_stands(
    format: Option<ImageFormat>,
    image: ImageModel,
    error: ErrorModel,
)
    ensures
        format == Some(ImageFormat::Jpeg) ==> decode::step_after_wic(format, Ok(image))
            == StepModel::GainMap(image),
        format != Some(ImageFormat::Jpeg) ==> decode::step_after_wic(format, Ok(image))
            == StepModel::Done(Ok(image)),
        format != Some(ImageFormat::Heif) ==> (decode::step_after_wic(
            format,
            Err(error),
        ) matches StepModel::Done(Err(after)) && after.code == error.code && after.message
            == error.message && (after.store_codec_names != error.store_codec_names ==> (error.code
            == image::COMPONENT_NOT_FOUND_CODE || error.code
            == image::COMPONENT_INITIALIZE_FAILURE_CODE || error.code
            == image::CODEC_NOT_FOUND_CODE) && (format matches Some(found)
            && after.store_codec_names == found.store_codecs()))),
{
}

/// An image is scaled down exactly where a side is past the texture limit, to the limited size, row by
/// row of its own pixels.
pub proof fn lemma_oversized_image_is_scaled(image: ImageModel)
    requires
        image.frames.len() > 0,
        image.row_pitch() <= u32::MAX,
    ensures
        decode::limit_of(image) is Keep <==> image.pixel_width <= 16384 && image.pixel_height
            <= 16384,
        !(decode::limit_of(image) is Keep) ==> (decode::limit_of(image) matches LimitModel::Scale {
            stride,
            width,
            height,
        } && stride == image.pixel_width * image.storage.pixel_size() && (width, height)
            == weight::limited_size(image.pixel_width as int, image.pixel_height as int)),
{
}

/// Scaling changes the size in pixels and the first frame's pixels, nothing else: the image keeps its
/// own size and its frame's delay.
pub proof fn lemma_scaling_keeps_the_rest(image: ImageModel, pixels: Seq<u8>, width: u32, height: u32)
    requires
        image.frames.len() > 0,
    ensures
        ({
            let after = decode::scaled(image, pixels, width, height);
            &&& after.pixel_width == width && after.pixel_height == height
            &&& after.width == image.width && after.height == image.height
            &&& after.frames.len() == image.frames.len()
            &&& after.frames[0].pixels == pixels
            &&& after.frames[0].delay_milliseconds == image.frames[0].delay_milliseconds
            &&& forall|index: int|
                1 <= index < image.frames.len() ==> #[trigger] after.frames[index]
                    == image.frames[index]
            &&& after.icc_profile == image.icc_profile && after.exif == image.exif
            &&& after.storage == image.storage
        }),
{
}

/// A row takes as many whole bytes as hold its bits.
pub proof fn lemma_row_holds_its_bits(width: int, bits_per_pixel: int)
    requires
        0 <= width,
        0 <= bits_per_pixel,
    ensures
        ({
            let stride = decode::row_stride(width, bits_per_pixel);
            width * bits_per_pixel <= stride * 8 < width * bits_per_pixel + 8
        }),
{
}

/// An animation opens on its first frame, playing, at its own speed, with the delays of its frames.
pub proof fn lemma_animation_opens_at_its_start(frames: Seq<FrameModel>)
    ensures
        ({
            let playback = animation::opened(frames);
            &&& playback.frame == 0
            &&& !playback.paused
            &&& playback.speed == 100
            &&& playback.delays.len() == frames.len()
            &&& forall|index: int|
                0 <= index < frames.len() ==> #[trigger] playback.delays[index]
                    == frames[index].delay_milliseconds
        }),
{
}

/// A frame shows for its own delay divided by the speed, rounded down to the millisecond, a
/// millisecond at least: at twice the speed half as long.
pub proof fn lemma_delay_is_divided_by_the_speed(playback: PlaybackModel)
    requires
        playback.sound(),
    ensures
        ({
            let own = playback.delays[playback.frame] as int;
            let delay = playback.delay();
            &&& 1 <= delay
            &&& own >= 1 ==> own * 100 < (delay + 1) * playback.speed
            &&& own >= 1 && delay > 1 ==> delay * playback.speed <= own * 100
            &&& playback.speed == 100 && own >= 1 ==> delay == own
            &&& own == 0 ==> delay <= 2
        }),
{
    let own = playback.own_delay();
    let scaled = own * 100 / playback.speed;
    vstd::arithmetic::div_mod::lemma_fundamental_div_mod(own * 100, playback.speed);
    vstd::arithmetic::div_mod::lemma_mod_bound(own * 100, playback.speed);
    assert(scaled * playback.speed <= own * 100 < (scaled + 1) * playback.speed)
        by (nonlinear_arith)
        requires
            own * 100 == playback.speed * scaled + own * 100 % playback.speed,
            0 <= own * 100 % playback.speed < playback.speed,
    ;
    assert((scaled + 1) * playback.speed <= (playback.delay() + 1) * playback.speed)
        by (nonlinear_arith)
        requires
            scaled <= playback.delay(),
            0 < playback.speed,
    ;
    if playback.speed == 100 {
        assert(scaled == own) by (nonlinear_arith)
            requires
                scaled * 100 <= own * 100 < (scaled + 1) * 100,
        ;
    }
    if playback.delays[playback.frame] == 0 {
        assert(scaled <= 2) by (nonlinear_arith)
            requires
                scaled * playback.speed <= 100,
                50 <= playback.speed,
        ;
    }
}

/// Stepping forward shows the frame behind, and the first one behind the last; stepping back the one
/// before, and the last one before the first. Nothing else changes.
pub proof fn lemma_frames_step_in_a_ring(playback: PlaybackModel)
    requires
        playback.sound(),
    ensures
        playback.forward().frame == (playback.frame + 1) % (playback.delays.len() as int),
        playback.frame > 0 ==> playback.backward().frame == playback.frame - 1,
        playback.frame == 0 ==> playback.backward().frame == playback.delays.len() - 1,
        playback.forward().delays == playback.delays && playback.forward().paused == playback.paused
            && playback.forward().speed == playback.speed,
        playback.backward().delays == playback.delays && playback.backward().paused
            == playback.paused && playback.backward().speed == playback.speed,
{
    if playback.frame + 1 < playback.delays.len() {
        vstd::arithmetic::div_mod::lemma_small_mod(
            (playback.frame + 1) as nat,
            playback.delays.len(),
        );
    } else {
        vstd::arithmetic::div_mod::lemma_mod_self_0(playback.delays.len() as int);
    }
}

/// Faster is a quarter of the normal speed faster, up to three times it; slower a quarter slower, down
/// to half of it.
pub proof fn lemma_speed_goes_by_quarters(playback: PlaybackModel)
    requires
        playback.sound(),
    ensures
        playback.speed < 300 ==> playback.adjusted(true).speed == playback.speed + 25,
        playback.speed == 300 ==> playback.adjusted(true).speed == 300,
        playback.speed > 50 ==> playback.adjusted(false).speed == playback.speed - 25,
        playback.speed == 50 ==> playback.adjusted(false).speed == 50,
        playback.adjusted(true).frame == playback.frame && playback.adjusted(true).paused
            == playback.paused && playback.adjusted(true).delays == playback.delays,
        playback.adjusted(false).frame == playback.frame && playback.adjusted(false).paused
            == playback.paused && playback.adjusted(false).delays == playback.delays,
{
}

/// A frame of up to 8 bits is converted to 8 bits. A deeper one is converted to halves at once, but to
/// 16-bit integers where an encoding is still to be undone, or where it is to be scaled first.
pub proof fn lemma_depth_chooses_the_conversion(
    native_bits: u32,
    float_native: bool,
    profile_encoding: Option<HdrEncoding>,
    width: u32,
    height: u32,
)
    ensures
        ({
            let pipeline = frame_pipeline::started(
                native_bits,
                float_native,
                profile_encoding,
                width,
                height,
            );
            let oversized = width > 16384 || height > 16384;
            &&& native_bits <= 8 ==> pipeline.step == FrameStep::Convert(PixelTarget::Pbgra)
                && pipeline.storage == PixelStorage::Bgra8 && pipeline.encoding is None
            &&& native_bits > 8 ==> pipeline.storage == PixelStorage::RgbaHalf
            &&& native_bits > 8 && float_native ==> pipeline.step == FrameStep::Convert(
                PixelTarget::Half,
            ) && pipeline.encoding is None
            &&& native_bits > 8 && !float_native && profile_encoding is Some ==> pipeline.step
                == FrameStep::Convert(PixelTarget::Rgba64) && pipeline.encoding == profile_encoding
            &&& native_bits > 8 && !float_native && profile_encoding is None && oversized
                ==> pipeline.step == FrameStep::Convert(PixelTarget::Rgba64)
                && pipeline.deferred_half
            &&& native_bits > 8 && !float_native && profile_encoding is None && !oversized
                ==> pipeline.step == FrameStep::Convert(PixelTarget::Half)
                && !pipeline.deferred_half
        }),
{
}

/// A frame that every step takes is converted, scaled and copied, and keeps its depth; one that was put
/// off is converted to halves once it is scaled.
pub proof fn lemma_accepted_frame_keeps_its_depth(
    native_bits: u32,
    float_native: bool,
    profile_encoding: Option<HdrEncoding>,
    width: u32,
    height: u32,
)
    ensures
        ({
            let start = frame_pipeline::started(
                native_bits,
                float_native,
                profile_encoding,
                width,
                height,
            );
            let converted = start.after(FrameEvent::Accepted);
            let scaled = converted.after(FrameEvent::Accepted);
            let last = scaled.after(FrameEvent::Accepted);
            &&& converted.step == FrameStep::Scale
            &&& !start.deferred_half ==> scaled.step == FrameStep::Copy
            &&& start.deferred_half ==> scaled.step == FrameStep::ConvertScaled(PixelTarget::Half)
                && last.step == FrameStep::Copy
            &&& last.storage == start.storage
            &&& last.encoding == start.encoding
            &&& native_bits > 8 ==> last.meaningful_bits() == native_bits
            &&& native_bits <= 8 ==> last.meaningful_bits() == 8
        }),
{
}

/// A deep frame whose conversion is refused falls back to 8 bits and no encoding; an 8-bit frame that is
/// refused cannot be decoded.
pub proof fn lemma_refused_conversion_falls_back(pipeline: frame_pipeline::FramePipeline)
    ensures
        pipeline.step == FrameStep::Convert(PixelTarget::Pbgra) ==> pipeline.after(
            FrameEvent::Refused,
        ).step == FrameStep::Refuse,
        pipeline.step == FrameStep::Convert(PixelTarget::Half) || pipeline.step
            == FrameStep::Convert(PixelTarget::Rgba64) ==> {
            let after = pipeline.after(FrameEvent::Refused);
            &&& after.step == FrameStep::Convert(PixelTarget::Pbgra)
            &&& after.storage == PixelStorage::Bgra8
            &&& after.encoding is None
            &&& after.meaningful_bits() == 8
        },
        pipeline.step == FrameStep::ConvertScaled(PixelTarget::Half) ==> {
            let after = pipeline.after(FrameEvent::Refused);
            &&& after.step == FrameStep::ConvertScaled(PixelTarget::Pbgra)
            &&& after.storage == PixelStorage::Bgra8
        },
{
}

/// A still is one frame that does not move on, and holds what it was given.
pub proof fn lemma_still_holds_what_it_is_given(
    size: (u32, u32),
    pixel_size: (u32, u32),
    format_name: Seq<char>,
    icc_profile: Option<Seq<u8>>,
    storage: PixelStorage,
    bits: u32,
    pixels: Seq<u8>,
)
    ensures
        ({
            let image = frame_pipeline::still(
                size,
                pixel_size,
                format_name,
                icc_profile,
                None,
                storage,
                bits,
                None,
                None,
                pixels,
            );
            &&& image.width == size.0 && image.height == size.1
            &&& image.pixel_width == pixel_size.0 && image.pixel_height == pixel_size.1
            &&& image.frames.len() == 1
            &&& image.frames[0].pixels == pixels
            &&& image.frames[0].delay_milliseconds == 0
            &&& !image.frames_truncated
            &&& image.source_bits_per_channel == bits
            &&& image.format_name == format_name
            &&& image.icc_profile == icc_profile
        }),
{
}

/// A drawing's raster has red and blue exchanged in every pixel, and is as large as it was drawn.
pub proof fn lemma_drawing_exchanges_red_and_blue(raster: Seq<u8>, pixel: int)
    requires
        0 <= pixel,
        pixel * 4 + 4 <= raster.len(),
    ensures
        ({
            let after = svg::swapped(raster);
            &&& after.len() == raster.len()
            &&& after[pixel * 4] == raster[pixel * 4 + 2]
            &&& after[pixel * 4 + 1] == raster[pixel * 4 + 1]
            &&& after[pixel * 4 + 2] == raster[pixel * 4]
            &&& after[pixel * 4 + 3] == raster[pixel * 4 + 3]
        }),
{
}

/// A preview is a whole fraction of the image, a quarter at most of float pixels and half of others,
/// and as small as the monitor asks: its longer side is within the monitor, and the next larger
/// fraction is not allowed or would not be.
pub proof fn lemma_preview_is_a_fraction(width: int, height: int, float_native: bool, monitor: int)
    requires
        0 < width,
        0 < height,
        0 < monitor <= 16384,
    ensures
        ({
            let (across, down) = weight::preview_size(width, height, float_native, monitor);
            let least: int = if float_native {
                4
            } else {
                2
            };
            &&& 1 <= across <= monitor
            &&& 1 <= down <= monitor
            &&& across == 1 || across * least <= width
            &&& down == 1 || down * least <= height
        }),
{
    let longest = if width >= height {
        width
    } else {
        height
    };
    let least: int = if float_native {
        4
    } else {
        2
    };
    let needed = (longest + monitor - 1) / monitor;
    vstd::arithmetic::div_mod::lemma_fundamental_div_mod(longest + monitor - 1, monitor);
    vstd::arithmetic::div_mod::lemma_mod_bound(longest + monitor - 1, monitor);
    assert(longest <= needed * monitor) by (nonlinear_arith)
        requires
            longest + monitor - 1 == monitor * needed + (longest + monitor - 1) % monitor,
            (longest + monitor - 1) % monitor < monitor,
    ;
    let divisor = if needed > least {
        needed
    } else {
        least
    };
    lemma_fraction(width, divisor, longest, needed, monitor, least);
    lemma_fraction(height, divisor, longest, needed, monitor, least);
}

proof fn lemma_fraction(
    side: int,
    divisor: int,
    longest: int,
    needed: int,
    monitor: int,
    least: int,
)
    requires
        0 < side <= longest,
        longest <= needed * monitor,
        needed <= divisor,
        0 < least <= divisor,
        0 < monitor,
    ensures
        side / divisor <= monitor,
        0 <= side / divisor,
        side / divisor * least <= side,
{
    let share = side / divisor;
    vstd::arithmetic::div_mod::lemma_fundamental_div_mod(side, divisor);
    vstd::arithmetic::div_mod::lemma_mod_bound(side, divisor);
    assert(share * divisor <= side) by (nonlinear_arith)
        requires
            side == divisor * share + side % divisor,
            0 <= side % divisor,
    ;
    assert(0 <= share) by (nonlinear_arith)
        requires
            side == divisor * share + side % divisor,
            side % divisor < divisor,
            0 < side,
            0 < divisor,
    ;
    assert(share * least <= share * divisor) by (nonlinear_arith)
        requires
            0 <= share,
            least <= divisor,
    ;
    assert(share <= monitor) by (nonlinear_arith)
        requires
            share * divisor <= longest,
            longest <= needed * monitor,
            needed <= divisor,
            0 < divisor,
            0 < monitor,
            0 <= share,
    ;
}

/// A canvas's side is one more than the three bytes of its header say, least first.
pub proof fn lemma_canvas_side_reads_back(header: Seq<u8>, offset: int, side: int)
    requires
        1 <= side <= 0x100_0000,
        header[offset] == (side - 1) % 256,
        header[offset + 1] == (side - 1) / 256 % 256,
        header[offset + 2] == (side - 1) / 65536,
    ensures
        weight::canvas_side(header, offset) == side,
{
}

/// A worker uploads a still frame whose buffer is whole and within what the device takes; an animation
/// is never uploaded.
pub proof fn lemma_whole_stills_are_uploaded(device: UploadDevice, image: ImageModel)
    ensures
        weight::uploads(device, image) ==> image.frames.len() == 1 && image.frames[0].pixels.len()
            == image.pixel_width * image.storage.pixel_size() * image.pixel_height
            && image.frames[0].pixels.len() <= device.maximum_frame_bytes,
        image.frames.len() == 1 && image.frames[0].pixels.len() == image.pixel_width
            * image.storage.pixel_size() * image.pixel_height && image.frames[0].pixels.len()
            <= device.maximum_frame_bytes ==> weight::uploads(device, image),
{
}

/// The longest side of the monitors is that of one of them, and no side of any is longer.
pub proof fn lemma_longest_side_is_the_longest(bounds: Seq<weight::Bounds>, count: int, index: int)
    requires
        0 <= index < count <= bounds.len(),
    ensures
        bounds[index].2 - bounds[index].0 <= weight::longest_side(bounds, count),
        bounds[index].3 - bounds[index].1 <= weight::longest_side(bounds, count),
        0 <= weight::longest_side(bounds, count),
    decreases count,
{
    if index < count - 1 {
        lemma_longest_side_is_the_longest(bounds, count - 1, index);
    } else if count > 1 {
        lemma_longest_side_is_the_longest(bounds, count - 1, 0);
    }
}

/// Strips follow one another without a gap, 256 rows each but for the last.
pub proof fn lemma_strips_cover_the_rows(height: int, row: int, index: int)
    requires
        0 <= row <= height,
        0 <= index < weight::strip_starts(height, row).len(),
    ensures
        weight::strip_starts(height, row)[index] == row + index * 256,
        row + index * 256 < height,
        height - row <= weight::strip_starts(height, row).len() * 256 < height - row + 256,
    decreases height - row,
{
    if row < height {
        let rows = if height - row < 256 {
            height - row
        } else {
            256
        };
        let rest = weight::strip_starts(height, row + rows);
        if rest.len() > 0 {
            lemma_strips_cover_the_rows(height, row + rows, 0);
            if index > 0 {
                lemma_strips_cover_the_rows(height, row + rows, index - 1);
            }
        } else {
            assert(row + rows >= height) by {
                if row + rows < height {
                    assert(weight::strip_starts(height, row + rows).len() > 0);
                }
            }
        }
    }
}

/// Code points name an encoding where they name a curve and a gamut that are known: 16 the perceptual
/// quantizer, 18 hybrid log-gamma; 1 the primaries of BT.709, 9 those of BT.2020, 12 those of Display
/// P3.
pub proof fn lemma_code_points_name_encodings(primaries: u8, transfer: u8)
    ensures
        hdr::encoding_of(primaries, transfer) is Some <==> (transfer == 16 || transfer == 18) && (
        primaries == 1 || primaries == 9 || primaries == 12),
        hdr::encoding_of(primaries, transfer) matches Some(encoding) ==> {
            &&& encoding.transfer == HdrTransfer::PerceptualQuantizer <==> transfer == 16
            &&& encoding.transfer == HdrTransfer::HybridLogGamma <==> transfer == 18
            &&& encoding.primaries == HdrPrimaries::Bt709 <==> primaries == 1
            &&& encoding.primaries == HdrPrimaries::Bt2020 <==> primaries == 9
            &&& encoding.primaries == HdrPrimaries::DisplayP3 <==> primaries == 12
        },
{
}

/// A half reads back as it was written: the least byte first, red, green, blue and alpha in turn.
pub proof fn lemma_half_reads_back(pixels: Seq<u8>, pixel: int, channel: int, value: u16)
    requires
        pixels[(pixel * 4 + channel) * 2] == value % 256,
        pixels[(pixel * 4 + channel) * 2 + 1] == value / 256,
    ensures
        hdr::half_at(pixels, pixel, channel) == value,
{
    assert((pixel * 4 + channel) * 2 == pixel * 8 + channel * 2);
}

/// A pixel's greatest color is one of its three, and none of them is greater; negative, tiny and
/// infinite colors count as nothing.
pub proof fn lemma_pixel_maximum_is_the_greatest_color(pixels: Seq<u8>, pixel: int)
    ensures
        ({
            let greatest = hdr::pixel_maximum(pixels, pixel);
            let red = hdr::normal_bits(hdr::half_at(pixels, pixel, 0));
            let green = hdr::normal_bits(hdr::half_at(pixels, pixel, 1));
            let blue = hdr::normal_bits(hdr::half_at(pixels, pixel, 2));
            &&& greatest >= red && greatest >= green && greatest >= blue
            &&& greatest == red || greatest == green || greatest == blue
        }),
        forall|bits: u16|
            (hdr::normal_bits(bits) == bits || hdr::normal_bits(bits) == 0) && (
            #[trigger] hdr::normal_bits(bits) != 0 <==> half::positive_normal(bits)),
{
}

/// The greatest half of a channel is that of a pixel.
pub proof fn lemma_channel_maximum_is_reached(pixels: Seq<u8>, channel: int, count: int)
    requires
        hdr::channel_maximum(pixels, channel, count) > 0,
    ensures
        exists|pixel: int|
            0 <= pixel < count && hdr::normal_bits(#[trigger] hdr::half_at(pixels, pixel, channel))
                == hdr::channel_maximum(pixels, channel, count),
    decreases count,
{
    if count > 0 {
        let bits = hdr::normal_bits(hdr::half_at(pixels, count - 1, channel));
        if bits != hdr::channel_maximum(pixels, channel, count) {
            lemma_channel_maximum_is_reached(pixels, channel, count - 1);
        }
    }
}

/// The greatest code of a depth is one less than a power of two.
pub proof fn lemma_greatest_code_fills_its_bits(source_bits: int)
    requires
        0 <= source_bits,
    ensures
        hdr::greatest_code(source_bits) + 1 == vstd::arithmetic::power2::pow2(source_bits as nat),
    decreases source_bits,
{
    if source_bits > 0 {
        lemma_greatest_code_fills_its_bits(source_bits - 1);
        vstd::arithmetic::power2::lemma_pow2_unfold(source_bits as nat);
    } else {
        vstd::arithmetic::power2::lemma2_to64();
    }
}

/// A code is spread over the full range to the nearest: no whole number is nearer to its exact share.
pub proof fn lemma_full_range_is_nearest(code: int, source_bits: int)
    requires
        1 <= source_bits,
        0 <= code <= hdr::greatest_code(source_bits),
    ensures
        ({
            let maximum = hdr::greatest_code(source_bits);
            let spread = hdr::full_range(code, source_bits);
            -maximum <= 2 * (spread * maximum - code * 65535) <= maximum
        }),
{
    let maximum = hdr::greatest_code(source_bits);
    lemma_greatest_code_is_positive(source_bits);
    let sum = code * 65535 + maximum / 2;
    let spread = hdr::full_range(code, source_bits);
    vstd::arithmetic::div_mod::lemma_fundamental_div_mod(sum, maximum);
    vstd::arithmetic::div_mod::lemma_mod_bound(sum, maximum);
    assert(spread * maximum == maximum * spread) by (nonlinear_arith);
}

proof fn lemma_greatest_code_is_positive(source_bits: int)
    requires
        1 <= source_bits,
    ensures
        hdr::greatest_code(source_bits) >= 1,
    decreases source_bits,
{
    reveal_with_fuel(hdr::greatest_code, 2);
    if source_bits > 1 {
        lemma_greatest_code_is_positive(source_bits - 1);
    }
}

/// The first entry of a profile's table with a signature gives the tag's offset, greatest byte first;
/// entries stand twelve bytes apart behind the header.
pub proof fn lemma_tag_is_found_in_its_table(
    profile: Seq<u8>,
    signature: icc::Signature,
    from: int,
    index: int,
    count: int,
)
    requires
        0 <= from <= index < count,
        132 + index * 12 + 8 <= profile.len(),
        icc::signed_at(profile, 132 + index * 12, signature),
        forall|earlier: int|
            from <= earlier < index ==> !#[trigger] icc::signed_at(
                profile,
                132 + earlier * 12,
                signature,
            ),
    ensures
        ({
            let entry = 132 + index * 12;
            icc::tag_offset_from(profile, signature, from, count) == Some(
                (profile[entry + 4] * 0x100_0000 + profile[entry + 5] * 0x1_0000 + profile[entry
                    + 6] * 0x100 + profile[entry + 7]) as usize,
            )
        }),
    decreases index - from,
{
    if from < index {
        assert(!icc::signed_at(profile, 132 + from * 12, signature));
        lemma_tag_is_found_in_its_table(profile, signature, from + 1, index, count);
    }
}

/// A number of a profile is read greatest byte first, and below zero where its highest bit is set.
pub proof fn lemma_profile_number_reads_back(profile: Seq<u8>, offset: int, value: i32)
    requires
        bytes::big_endian_at(profile, offset) == if value < 0 {
            value + 0x1_0000_0000
        } else {
            value as int
        },
    ensures
        icc::signed_number_at(profile, offset) == value,
{
}

/// A tone curve without entries is the identity, with one a gamma, with more a list of that many
/// samples behind its header; a parametric one has as many parameters as its function takes.
pub proof fn lemma_curve_is_read_by_its_kind(profile: Seq<u8>, offset: int)
    requires
        0 <= offset,
        offset + 14 <= profile.len(),
    ensures
        icc::signed_at(profile, offset, ('c' as u8, 'u' as u8, 'r' as u8, 'v' as u8)) ==> {
            let count = bytes::big_endian_at(profile, offset + 8);
            &&& count == 0 ==> icc::curve_at(profile, offset) == Some(CurveModel::Identity)
            &&& count == 1 ==> icc::curve_at(profile, offset) == Some(
                CurveModel::Gamma(
                    (profile[offset + 12] * 256 + profile[offset + 13]) as u16,
                ),
            )
            &&& count > 1 ==> icc::curve_at(profile, offset) == Some(
                CurveModel::Sampled { start: (offset + 12) as usize, count: count as usize },
            )
        },
        icc::curve_at(profile, offset) matches Some(CurveModel::Parametric { function, parameters })
            ==> {
            &&& function <= 4
            &&& parameters.len() == (if function == 4 {
                7int
            } else if function == 0 {
                1
            } else {
                function + 2
            })
            &&& forall|index: int|
                0 <= index < parameters.len() ==> #[trigger] parameters[index]
                    == icc::signed_number_at(profile, offset + 12 + index * 4)
        },
{
}

/// A colorant's three coordinates stand in order behind the header of its tag.
pub proof fn lemma_colorant_is_read_in_order(profile: Seq<u8>, tag: icc::Signature, offset: usize)
    requires
        icc::tag_place(profile, tag) == Some(offset),
        offset + 20 <= profile.len(),
        icc::signed_at(profile, offset as int, ('X' as u8, 'Y' as u8, 'Z' as u8, ' ' as u8)),
    ensures
        icc::colorant_of(profile, tag) matches Some(colorant) && colorant.0
            == icc::signed_number_at(profile, offset + 8) && colorant.1 == icc::signed_number_at(
            profile,
            offset + 12,
        ) && colorant.2 == icc::signed_number_at(profile, offset + 16),
{
}

/// The rows of a plane are packed without their padding, each byte from its own row and column.
pub proof fn lemma_rows_are_packed(
    plane: Seq<u8>,
    stride: int,
    row_bytes: int,
    rows: int,
    row: int,
    column: int,
)
    requires
        0 <= row < rows,
        0 <= column < row_bytes <= stride,
    ensures
        bundled::packed_rows(plane, stride, row_bytes, rows).len() == row_bytes * rows,
        bundled::packed_rows(plane, stride, row_bytes, rows)[row * row_bytes + column] == plane[row
            * stride + column],
{
    let index = row * row_bytes + column;
    vstd::arithmetic::div_mod::lemma_fundamental_div_mod_converse(index, row_bytes, row, column);
    assert(0 <= row * row_bytes && row * row_bytes + column < row_bytes * rows && 0 <= row_bytes
        * rows) by (nonlinear_arith)
        requires
            0 <= row < rows,
            0 <= column < row_bytes,
    ;
}

/// A still with an encoding to undo is asked for in 16 bits and kept in halves, any other in 8 bits.
pub proof fn lemma_encoding_asks_for_depth(encoding: Option<HdrEncoding>)
    ensures
        encoding is Some <==> bundled::heif_target(encoding).0 == bundled::HeifChroma::Rgba16,
        encoding is Some <==> bundled::heif_target(encoding).1 == PixelStorage::RgbaHalf,
{
}

/// Work starts with what its kind asks for: a probe weighs; a file asked for in full is decoded, but a
/// guess looks for a first frame and a preview job for a preview; members and URLs are fetched whole.
pub proof fn lemma_work_starts_by_its_kind(job: JobModel)
    ensures
        ({
            let first = worker::first_work(job);
            &&& job.kind == JobKind::Probe <==> first == WorkStep::Probe
            &&& job.kind != JobKind::Probe && job.location is ArchiveMember ==> first
                == WorkStep::DecodeMember
            &&& job.kind != JobKind::Probe && job.location is Url ==> first == WorkStep::DecodeUrl
            &&& job.kind == JobKind::Preview && job.location is File ==> first == WorkStep::Preview
            &&& job.kind == JobKind::Full && job.location is File && job.speculative ==> first
                == WorkStep::FirstFrame
            &&& job.kind == JobKind::Full && job.location is File && !job.speculative ==> first
                == WorkStep::DecodeFile
        }),
{
}

/// A preview that is found ends its job; where none is, a first frame is looked for. A first frame that
/// is found ends a guess and shows ahead of the decode elsewhere.
pub proof fn lemma_found_previews_are_posted(job: JobModel, image: ImageModel)
    ensures
        worker::past_preview(job, None).posted is None && worker::past_preview(job, None).next
            == WorkStep::FirstFrame,
        worker::past_first_frame(job, None).posted is None && worker::past_first_frame(
            job,
            None,
        ).next == WorkStep::DecodeFile,
        worker::past_preview(job, Some(image)).posted matches Some(completion)
            && completion.location == job.location && completion.metadata == job.metadata
            && completion.result == Ok::<ImageModel, ErrorModel>(image) && completion.stage
            == DecodeStage::PreviewFinal,
        worker::past_first_frame(job, Some(image)).posted matches Some(completion)
            && completion.location == job.location && completion.metadata == job.metadata
            && completion.result == Ok::<ImageModel, ErrorModel>(image) && (completion.stage
            == DecodeStage::PreviewFinal <==> job.speculative) && (completion.stage
            == DecodeStage::Preview <==> !job.speculative),
{
}

/// A finished decode is posted as it came, but without the pixels that a texture holds.
pub proof fn lemma_finished_decode_is_posted(
    location: Place,
    metadata: ItemMetadata,
    image: ImageModel,
    error: ErrorModel,
    texture: Option<UploadedTexture>,
)
    ensures
        ({
            let post = worker::final_post(location, metadata, Ok(image), texture);
            &&& post.location == location && post.metadata == metadata
            &&& post.stage == DecodeStage::Final
            &&& post.texture == texture
            &&& texture is None ==> post.result == Ok::<ImageModel, ErrorModel>(image)
            &&& texture is Some ==> (post.result matches Ok(kept) && kept.pixel_bytes() == 0
                && kept.width == image.width && kept.height == image.height && kept.frames.len()
                == image.frames.len())
        }),
        worker::final_post(location, metadata, Err(error), texture).result == Err::<
            ImageModel,
            ErrorModel,
        >(error),
{
    image::lemma_released_pixels_are_gone(image);
}

/// Bytes that no decoder recognizes are no image where they came from a URL; any other error stays.
pub proof fn lemma_unrecognized_download_is_no_image(error: ErrorModel)
    ensures
        image::url_error(error).code == error.code,
        image::url_error(error).store_codec_names == error.store_codec_names,
        image::url_error(error).message != error.message ==> error.code
            == image::COMPONENT_NOT_FOUND_CODE && error.store_codec_names.len() == 0
            && image::url_error(error).message == "No image at this URL"@,
        error.code == image::COMPONENT_NOT_FOUND_CODE && error.store_codec_names.len() == 0
            ==> image::url_error(error).message == "No image at this URL"@,
{
}

/// A file of a format starts with the bytes that the format is known by.
pub proof fn lemma_signatures_are_the_known_ones(header: Seq<u8>)
    requires
        header.len() >= 16,
    ensures
        registry::has_signature(ImageFormat::Png, header) <==> header[0] == 0x89 && header[1] as char
            == 'P' && header[2] as char == 'N' && header[3] as char == 'G' && header[4] == 13
            && header[5] == 10 && header[6] == 26 && header[7] == 10,
        registry::has_signature(ImageFormat::Jpeg, header) <==> header[0] == 255 && header[1] == 0xD8
            && header[2] == 255,
        registry::has_signature(ImageFormat::Gif, header) <==> header[0] as char == 'G'
            && header[1] as char == 'I' && header[2] as char == 'F' && header[3] as char == '8',
        registry::has_signature(ImageFormat::WebP, header) <==> header[0] as char == 'R'
            && header[1] as char == 'I' && header[2] as char == 'F' && header[3] as char == 'F'
            && header[8] as char == 'W' && header[9] as char == 'E' && header[10] as char == 'B'
            && header[11] as char == 'P',
        registry::has_signature(ImageFormat::Bmp, header) <==> header[0] as char == 'B'
            && header[1] as char == 'M' && header[6] == 0 && header[7] == 0 && header[8] == 0
            && header[9] == 0,
        registry::has_signature(ImageFormat::Ico, header) <==> header[0] == 0 && header[1] == 0
            && header[2] == 1 && header[3] == 0,
        registry::has_signature(ImageFormat::Tiff, header) <==> (header[0] as char == 'I'
            && header[1] as char == 'I' && header[2] == 42 && header[3] == 0) || (header[0] as char
            == 'M' && header[1] as char == 'M' && header[2] == 0 && header[3] == 42),
        registry::has_signature(ImageFormat::Dds, header) <==> header[0] as char == 'D'
            && header[1] as char == 'D' && header[2] as char == 'S' && header[3] as char == ' ',
        registry::has_signature(ImageFormat::Svg, header) <==> header[0] as char == '<'
            && header[1] as char == 's' && header[2] as char == 'v' && header[3] as char == 'g',
        registry::has_signature(ImageFormat::Exr, header) <==> header[0] == 0x76 && header[1]
            == 0x2F && header[2] == 0x31 && header[3] == 0x01,
        registry::has_signature(ImageFormat::JpegXr, header) <==> header[0] as char == 'I'
            && header[1] as char == 'I' && header[2] == 0xBC && (header[3] == 0 || header[3] == 1),
        registry::has_signature(ImageFormat::JpegXl, header) ==> (header[0] == 255 && header[1]
            == 10) || (header[4] as char == 'J' && header[5] as char == 'X' && header[6] as char
            == 'L' && header[7] as char == ' '),
        registry::has_signature(ImageFormat::Avif, header) <==> header[4] as char == 'f'
            && header[5] as char == 't' && header[6] as char == 'y' && header[7] as char == 'p'
            && header[8] as char == 'a' && header[9] as char == 'v' && header[10] as char == 'i' && (
        header[11] as char == 'f' || header[11] as char == 's'),
        registry::has_signature(ImageFormat::Heif, header) <==> header[4] as char == 'f'
            && header[5] as char == 't' && header[6] as char == 'y' && header[7] as char == 'p' && ((
        header[8] as char == 'h' && header[9] as char == 'e' && header[10] as char == 'i' && (
        header[11] as char == 'c' || header[11] as char == 'x')) || (header[8] as char == 'h'
            && header[9] as char == 'e' && header[10] as char == 'v' && header[11] as char == 'c')
            || (header[8] as char == 'm' && (header[9] as char == 'i' || header[9] as char == 's')
            && header[10] as char == 'f' && header[11] as char == '1')),
{
}

/// No header carries the signatures of two formats that are told apart by their first bytes.
pub proof fn lemma_signatures_exclude_each_other(
    header: Seq<u8>,
    first: ImageFormat,
    second: ImageFormat,
)
    requires
        header.len() >= 16,
        registry::has_signature(first, header),
        registry::has_signature(second, header),
        first != ImageFormat::Heif && first != ImageFormat::Avif,
        second != ImageFormat::Heif && second != ImageFormat::Avif,
    ensures
        first == second,
{
}

/// Content refines a format only to the animated form of the same container: PNG to APNG, WebP to
/// animated WebP, HEIF and AVIF to AVIF or its sequence; nothing else changes.
pub proof fn lemma_refining_stays_in_the_container(format: ImageFormat, header: Seq<u8>)
    ensures
        ({
            let refined = registry::refined(format, header);
            &&& refined != format ==> {
                ||| format == ImageFormat::Png && refined == ImageFormat::Apng
                ||| format == ImageFormat::WebP && refined == ImageFormat::AnimatedWebP
                ||| format == ImageFormat::Heif && (refined == ImageFormat::Avif || refined
                    == ImageFormat::AnimatedAvif)
                ||| format == ImageFormat::Avif && refined == ImageFormat::AnimatedAvif
            }
            &&& format == ImageFormat::WebP && header.len() > 20 && header[12] as char == 'V'
                && header[13] as char == 'P' && header[14] as char == '8' && header[15] as char
                == 'X' ==> (refined == ImageFormat::AnimatedWebP <==> (header[20] as int / 2) % 2
                == 1)
        }),
{
}

/// A PNG is animated where the control chunk of an animation comes before any image data: a chunk that
/// is neither is passed over by its length.
pub proof fn lemma_animation_control_comes_first(header: Seq<u8>, offset: int)
    requires
        0 <= offset,
        offset + 8 <= header.len(),
    ensures
        header[offset + 4] as char == 'a' && header[offset + 5] as char == 'c' && header[offset
            + 6] as char == 'T' && header[offset + 7] as char == 'L'
            ==> registry::animation_control_from(header, offset),
        header[offset + 4] as char == 'I' && header[offset + 5] as char == 'D' && header[offset
            + 6] as char == 'A' && header[offset + 7] as char == 'T'
            ==> !registry::animation_control_from(header, offset),
        header[offset + 4] as char == 't' ==> ({
            let next = offset + 12 + header[offset] * 0x100_0000 + header[offset + 1] * 0x1_0000
                + header[offset + 2] * 0x100 + header[offset + 3];
            registry::animation_control_from(header, offset) == (next <= header.len()
                && registry::animation_control_from(header, next))
        }),
{
}

/// A file is of the format its extension names, refined by its content; where the extension names none,
/// of the format its content gives away.
pub proof fn lemma_extension_goes_before_content(extension: Seq<char>, header: Seq<u8>)
    ensures
        registry::format_of_extension(extension) matches Some(format) ==> registry::format_of_file(
            Some(extension),
            Some(header),
        ) == Some(registry::refined(format, header)) && registry::format_of_file(
            Some(extension),
            None,
        ) == Some(format),
        registry::format_of_extension(extension) is None ==> registry::format_of_file(
            Some(extension),
            Some(header),
        ) == registry::format_of_content(header) && registry::format_of_file(
            Some(extension),
            None,
        ) is None,
        registry::format_of_file(None, Some(header)) == registry::format_of_content(header),
{
}

/// Previews come first for raw images and JPEG XR alone.
pub proof fn lemma_two_stage_formats(format: ImageFormat)
    ensures
        registry::is_two_stage(Some(format)) <==> format == ImageFormat::Raw || format
            == ImageFormat::JpegXr,
        !registry::is_two_stage(None),
{
}

/// A missing codec is remedied by the Store's codecs for the format; every other failure of the platform
/// stays as it is.
pub proof fn lemma_missing_codec_names_its_remedy(format: ImageFormat, error: ErrorModel)
    requires
        format != ImageFormat::Heif,
    ensures
        decode::step_after_wic(Some(format), Err(error)) matches StepModel::Done(Err(told)) && {
            let missing = error.code as u32 == 0x8898_2F50u32 || error.code as u32 == 0x8898_2F8Bu32
                || error.code as u32 == 0xC00D_5212u32;
            &&& told.code == error.code
            &&& told.message == error.message
            &&& missing ==> told.store_codec_names == format.store_codecs()
            &&& !missing ==> told == error
        },
        decode::step_after_wic(None, Err(error)) == StepModel::Done(Err(error)),
{
    let code = error.code;
    assert((code as u32 == 0x8898_2F50u32 <==> code == -2003292336i32) && (code as u32
        == 0x8898_2F8Bu32 <==> code == -2003292277i32) && (code as u32 == 0xC00D_5212u32 <==> code
        == -1072868846i32)) by (bit_vector);
}

/// A frame that falls back to 8 bits keeps no encoding, whichever step fell back, and the rest of what is
/// known of it stays.
pub proof fn lemma_eight_bits_keep_no_encoding(
    pipeline: frame_pipeline::FramePipeline,
    event: FrameEvent,
)
    ensures
        ({
            let after = pipeline.after(event);
            &&& after.storage != pipeline.storage ==> after.storage == PixelStorage::Bgra8
                && after.encoding is None
            &&& after.storage == pipeline.storage && after.step != FrameStep::ScaleFallback
                && after.step != FrameStep::Convert(PixelTarget::Pbgra) && after.step
                != FrameStep::ConvertScaled(PixelTarget::Pbgra) ==> after.encoding
                == pipeline.encoding
            &&& after.float_native == pipeline.float_native
            &&& after.deferred_half == pipeline.deferred_half
            &&& pipeline.step == FrameStep::ConvertForScaling && event == FrameEvent::Accepted
                ==> after.step == FrameStep::ScaleFallback && after.storage == PixelStorage::Bgra8
                && after.encoding is None
        }),
{
}

/// A frame with an encoding has its primaries; a half frame without one has those of its profile, unless
/// it was floating point to begin with; every other frame's are unknown.
pub proof fn lemma_primaries_come_from_what_is_kept(pipeline: frame_pipeline::FramePipeline)
    ensures
        pipeline.encoding matches Some(encoding) ==> pipeline.primaries_from()
            == frame_pipeline::PrimariesSource::Encoding(encoding.primaries),
        pipeline.primaries_from() == frame_pipeline::PrimariesSource::Profile <==> pipeline.encoding is None
            && pipeline.storage == PixelStorage::RgbaHalf && !pipeline.float_native,
        pipeline.primaries_from() == frame_pipeline::PrimariesSource::Unknown <==> pipeline.encoding is None
            && (pipeline.storage != PixelStorage::RgbaHalf || pipeline.float_native),
{
}

} // verus!
