//! The bundled codecs: what their answers mean, where each frame goes, and what is refused.

use vstd::prelude::*;

use crate::compositor;
use crate::compositor::{
    finish_animation, CompositionModel, FrameBlend, FrameCompositor, FrameDisposal, FrameRegion,
    RegionModel,
};
use crate::hdr;
use crate::hdr::{cicp_hdr_encoding, HdrEncoding};
use crate::image;
use crate::image::{uncoded_error, DecodeError, DecodedImage, ErrorModel, PixelStorage};
use crate::pixels;
use crate::pixels::try_zeroed_buffer;
use crate::search;
use crate::search::text_from_utf8;

verus! {

/// How long a frame shows that does not say.
pub const DEFAULT_FRAME_DELAY_MILLISECONDS: u32 = 100;

/// Size policy for the bundled decoders: past this the decode is refused instead of reserving for it.
pub const MAXIMUM_FALLBACK_PIXELS: u64 = 1073741824;

/// The deepest codes a high dynamic range source holds.
pub const MAXIMUM_HDR_SOURCE_BITS: i32 = 16;

/// The bytes of a straight BGRA buffer, premultiplied; what is left over at the end stays.
pub open spec fn premultiplied_bgra(source: Seq<u8>) -> Seq<u8> {
    Seq::new(
        source.len(),
        |index: int|
            if index / 4 < source.len() / 4 && index % 4 != 3 {
                pixels::premultiplied(source[index], source[index / 4 * 4 + 3])
            } else {
                source[index]
            },
    )
}

pub fn premultiply_bgra_in_place(pixels: &mut Vec<u8>)
    ensures
        final(pixels)@ == premultiplied_bgra(old(pixels)@),
{
    let ghost source = pixels@;
    let count: usize = pixels.len() / 4;
    let mut pixel: usize = 0;
    while pixel < count
        invariant
            source == old(pixels)@,
            pixel <= count,
            count == source.len() / 4,
            source.len() <= usize::MAX,
            pixels@.len() == source.len(),
            forall|index: int|
                0 <= index < source.len() ==> #[trigger] pixels@[index] == (if index < pixel * 4 {
                    premultiplied_bgra(source)[index]
                } else {
                    source[index]
                }),
        decreases count - pixel,
    {
        let place: usize = pixel * 4;
        let alpha: u8 = pixels[place + 3];
        let blue: u8 = pixels::premultiply(pixels[place], alpha);
        let green: u8 = pixels::premultiply(pixels[place + 1], alpha);
        let red: u8 = pixels::premultiply(pixels[place + 2], alpha);
        pixels.set(place, blue);
        pixels.set(place + 1, green);
        pixels.set(place + 2, red);
        pixel += 1;
    }
    assert(pixels@ =~= premultiplied_bgra(source));
}

/// Opaque pixels pass through, clear ones come out clear, and alpha itself never changes.
pub proof fn lemma_premultiplying_keeps_alpha(source: Seq<u8>, pixel: int, channel: int)
    requires
        0 <= pixel < source.len() / 4,
        0 <= channel < 4,
    ensures
        premultiplied_bgra(source)[pixel * 4 + 3] == source[pixel * 4 + 3],
        source[pixel * 4 + 3] == 255 ==> premultiplied_bgra(source)[pixel * 4 + channel]
            == source[pixel * 4 + channel],
        source[pixel * 4 + 3] == 0 && channel < 3 ==> premultiplied_bgra(source)[pixel * 4
            + channel] == 0,
{
    let index = pixel * 4 + channel;
    assert(index / 4 == pixel && index % 4 == channel);
    let value = source[index];
    assert(value * 255 / 255 == value);
    assert(value * 0 / 255 == 0);
}

/// What a WebP demuxer says of a frame.
#[derive(Clone, Copy, PartialEq, Eq, Structural, Debug)]
pub struct WebPFrame {
    pub frame_count: i32,
    pub x_offset: i32,
    pub y_offset: i32,
    pub width: i32,
    pub height: i32,
    pub duration_milliseconds: i32,
    pub dispose_method: i32,
    pub blend_method: i32,
}

/// The dispose method that clears the frame to the background.
pub const WEBP_DISPOSE_BACKGROUND: i32 = 1;

/// The blend method that replaces what is under the frame.
pub const WEBP_NO_BLEND: i32 = 1;

/// A number no less than zero.
pub open spec fn not_negative(value: i32) -> u32 {
    if value < 0 {
        0
    } else {
        value as u32
    }
}

fn at_least_zero(value: i32) -> (kept: u32)
    ensures
        kept == not_negative(value),
{
    if value < 0 {
        0
    } else {
        value as u32
    }
}

/// Frames the demuxer counts, one at least.
pub open spec fn webp_count(frame: WebPFrame) -> int {
    if frame.frame_count < 1 {
        1
    } else {
        frame.frame_count as int
    }
}

/// A WebP frame where its container places it. WebP disposes to the background or keeps; it has no
/// restore-previous.
pub open spec fn webp_region(frame: WebPFrame, source: Seq<u8>) -> RegionModel {
    RegionModel {
        pixels: premultiplied_bgra(source),
        left: not_negative(frame.x_offset),
        top: not_negative(frame.y_offset),
        width: not_negative(frame.width),
        height: not_negative(frame.height),
        blend: if frame.blend_method == WEBP_NO_BLEND {
            FrameBlend::Replace
        } else {
            FrameBlend::Over
        },
        disposal: if frame.dispose_method == WEBP_DISPOSE_BACKGROUND {
            FrameDisposal::Background
        } else {
            FrameDisposal::Keep
        },
        delay_milliseconds: if frame.duration_milliseconds > 0 {
            frame.duration_milliseconds as u32
        } else {
            DEFAULT_FRAME_DELAY_MILLISECONDS
        },
    }
}

/// An animation whose codec hands out its frames one after the other.
pub struct SequenceReading {
    pub compositor: FrameCompositor,
    pub maximum_frames: usize,
}

impl SequenceReading {
    /// Bytes of the buffer the next WebP frame decodes into; None where the frames do not fit the
    /// budget and the reading ends. The demuxer's frame count is real, so that is known after the
    /// first frame.
    pub fn next_webp_frame(&mut self, frame: &WebPFrame) -> (bytes: Option<u64>)
        requires
            old(self).compositor@.sound(),
        ensures
            final(self).compositor@ == old(self).compositor@.asked(webp_count(*frame)),
            final(self).compositor@.sound(),
            final(self).maximum_frames == old(self).maximum_frames,
            bytes == (if old(self).compositor@.accepts(webp_count(*frame)) {
                Some((not_negative(frame.width) * not_negative(frame.height) * 4) as u64)
            } else {
                None
            }),
    {
        let count: u64 = if frame.frame_count < 1 {
            1
        } else {
            frame.frame_count as u64
        };
        if !self.compositor.accepts_another(count) {
            return None;
        }
        let width: u64 = at_least_zero(frame.width) as u64;
        let height: u64 = at_least_zero(frame.height) as u64;
        assert(width * height <= 0x7FFF_FFFF * 0x7FFF_FFFF) by (nonlinear_arith)
            requires
                width <= 0x7FFF_FFFF,
                height <= 0x7FFF_FFFF,
        ;
        assert(0 <= width * height) by (nonlinear_arith);
        Some(width * height * 4)
    }

    /// Puts a WebP frame on the canvas, premultiplying it first; answers whether another is wanted.
    pub fn add_webp_frame(&mut self, frame: &WebPFrame, pixels: &mut Vec<u8>) -> (another: bool)
        requires
            old(self).compositor@.sound(),
            old(pixels)@.len() == not_negative(frame.width) * not_negative(frame.height) * 4,
        ensures
            final(pixels)@ == premultiplied_bgra(old(pixels)@),
            final(self).compositor@ == old(self).compositor@.with_frame(
                webp_region(*frame, old(pixels)@),
            ),
            final(self).compositor@.sound(),
            final(self).maximum_frames == old(self).maximum_frames,
            another == (final(self).compositor@.frames.len() < old(self).maximum_frames),
    {
        premultiply_bgra_in_place(pixels);
        let region = FrameRegion {
            pixels: pixels.as_slice(),
            left: at_least_zero(frame.x_offset),
            top: at_least_zero(frame.y_offset),
            width: at_least_zero(frame.width),
            height: at_least_zero(frame.height),
            blend: if frame.blend_method == WEBP_NO_BLEND {
                FrameBlend::Replace
            } else {
                FrameBlend::Over
            },
            disposal: if frame.dispose_method == WEBP_DISPOSE_BACKGROUND {
                FrameDisposal::Background
            } else {
                FrameDisposal::Keep
            },
            delay_milliseconds: if frame.duration_milliseconds > 0 {
                frame.duration_milliseconds as u32
            } else {
                DEFAULT_FRAME_DELAY_MILLISECONDS
            },
        };
        proof {
            assert(region@ =~= webp_region(*frame, old(pixels)@));
            compositor::lemma_region_is_held(self.compositor@, region@);
        }
        self.compositor.add_frame(region);
        self.compositor.frames_so_far() < self.maximum_frames
    }

    /// Whether the budget takes one more frame of a sequence that declares no count.
    pub fn next_sequence_frame(&mut self) -> (wanted: bool)
        requires
            old(self).compositor@.sound(),
        ensures
            wanted == old(self).compositor@.accepts(old(self).compositor@.frames.len() as int + 1),
            final(self).compositor@ == old(self).compositor@.asked(
                old(self).compositor@.frames.len() as int + 1,
            ),
            final(self).compositor@.sound(),
            final(self).maximum_frames == old(self).maximum_frames,
    {
        self.compositor.accepts_one_more()
    }

    /// Puts a whole-canvas frame of a sequence in place; answers whether another is wanted. There is
    /// nothing to blend or dispose.
    pub fn add_sequence_frame(&mut self, pixels: &[u8], duration_ticks: u32, timescale: u32) -> (
        another: bool)
        requires
            old(self).compositor@.sound(),
            pixels@.len() == old(self).compositor@.canvas.len(),
        ensures
            final(self).compositor@ == old(self).compositor@.with_frame(
                sequence_region(old(self).compositor@, pixels@, duration_ticks, timescale),
            ),
            final(self).compositor@.sound(),
            final(self).maximum_frames == old(self).maximum_frames,
            another == (final(self).compositor@.frames.len() < old(self).maximum_frames),
    {
        let region = FrameRegion {
            pixels,
            left: 0,
            top: 0,
            width: self.compositor.width,
            height: self.compositor.height,
            blend: FrameBlend::Replace,
            disposal: FrameDisposal::Keep,
            delay_milliseconds: sequence_delay_milliseconds(duration_ticks, timescale),
        };
        proof {
            assert(region@ =~= sequence_region(
                self.compositor@,
                pixels@,
                duration_ticks,
                timescale,
            ));
            compositor::lemma_region_is_held(self.compositor@, region@);
        }
        self.compositor.add_frame(region);
        self.compositor.frames_so_far() < self.maximum_frames
    }

    /// The WebP animation as an image.
    pub fn finish_webp(self, format_name: &'static str) -> (image: DecodedImage)
        ensures
            image@ == compositor::composed_image(self.compositor@, None, format_name@),
    {
        finish_animation(self.compositor, None, format_name)
    }

    /// The sequence as an image; one without frames is refused.
    pub fn finish_sequence(self, format_name: &'static str) -> (result: Result<
        DecodedImage,
        DecodeError,
    >)
        ensures
            match result {
                Ok(image) => self.compositor@.frames.len() > 0 && image@
                    == compositor::composed_image(self.compositor@, None, format_name@),
                Err(error) => self.compositor@.frames.len() == 0 && error@ == image::uncoded(
                    "AVIF sequence has no frames"@,
                ),
            },
    {
        if self.compositor.frames_so_far() == 0 {
            return Err(uncoded_error("AVIF sequence has no frames"));
        }
        Ok(finish_animation(self.compositor, None, format_name))
    }
}

/// How long a frame of a sequence shows: its ticks in milliseconds, the default where they come to
/// nothing.
pub open spec fn sequence_delay(duration_ticks: u32, timescale: u32) -> u32 {
    if timescale == 0 || duration_ticks * 1000 / timescale as int == 0 {
        DEFAULT_FRAME_DELAY_MILLISECONDS
    } else if duration_ticks * 1000 / timescale as int > u32::MAX {
        u32::MAX
    } else {
        (duration_ticks * 1000 / timescale as int) as u32
    }
}

pub fn sequence_delay_milliseconds(duration_ticks: u32, timescale: u32) -> (milliseconds: u32)
    ensures
        milliseconds == sequence_delay(duration_ticks, timescale),
{
    if timescale == 0 {
        return DEFAULT_FRAME_DELAY_MILLISECONDS;
    }
    let scaled: u64 = duration_ticks as u64 * 1000 / timescale as u64;
    if scaled == 0 {
        DEFAULT_FRAME_DELAY_MILLISECONDS
    } else if scaled > u32::MAX as u64 {
        u32::MAX
    } else {
        scaled as u32
    }
}

/// A frame of a sequence: a whole canvas.
pub open spec fn sequence_region(
    composition: CompositionModel,
    pixels: Seq<u8>,
    duration_ticks: u32,
    timescale: u32,
) -> RegionModel {
    RegionModel {
        pixels,
        left: 0,
        top: 0,
        width: composition.width,
        height: composition.height,
        blend: FrameBlend::Replace,
        disposal: FrameDisposal::Keep,
        delay_milliseconds: sequence_delay(duration_ticks, timescale),
    }
}

/// Why a WebP animation cannot begin: a canvas without a size, or no frame at all.
pub open spec fn webp_refusal(width: u32, height: u32, has_frames: bool) -> Option<ErrorModel> {
    if width == 0 || height == 0 {
        Some(image::uncoded("WebP canvas has no size"@))
    } else if !has_frames {
        Some(image::uncoded("WebP has no frames"@))
    } else {
        None
    }
}

/// Begins a WebP animation on a canvas of its size; refused as too large where there is none.
pub fn begin_webp_on(
    width: u32,
    height: u32,
    has_frames: bool,
    canvas: Option<FrameCompositor>,
    maximum_frames: usize,
) -> (result: Result<SequenceReading, DecodeError>)
    ensures
        match (webp_refusal(width, height, has_frames), canvas) {
            (Some(refusal), _) => result matches Err(error) && error@ == refusal,
            (None, Some(compositor)) => result matches Ok(reading) && reading.compositor@
                == compositor@ && reading.maximum_frames == maximum_frames,
            (None, None) => result matches Err(error) && error@ == image::uncoded(
                "WebP canvas is too large to decode"@,
            ),
        },
{
    if width == 0 || height == 0 {
        return Err(uncoded_error("WebP canvas has no size"));
    }
    if !has_frames {
        return Err(uncoded_error("WebP has no frames"));
    }
    match canvas {
        Some(compositor) => Ok(SequenceReading { compositor, maximum_frames }),
        None => Err(uncoded_error("WebP canvas is too large to decode")),
    }
}

/// Begins a WebP animation. Past the budget, and where the machine has no memory for the canvas, it is
/// refused as too large.
pub fn begin_webp(width: u32, height: u32, has_frames: bool, maximum_frames: usize) -> (result:
    Result<SequenceReading, DecodeError>)
    ensures
        match result {
            Ok(reading) => webp_refusal(width, height, has_frames) is None
                && reading.compositor@ == compositor::blank_composition(width, height)
                && reading.compositor@.sound() && reading.maximum_frames == maximum_frames,
            Err(error) => match webp_refusal(width, height, has_frames) {
                Some(refusal) => error@ == refusal,
                None => error@ == image::uncoded("WebP canvas is too large to decode"@),
            },
        },
        compositor::canvas_bytes(width, height) > pixels::MAXIMUM_ANIMATION_FRAMES_BYTES
            ==> result is Err,
{
    if width == 0 || height == 0 || !has_frames {
        return begin_webp_on(width, height, has_frames, None, maximum_frames);
    }
    begin_webp_on(
        width,
        height,
        has_frames,
        FrameCompositor::new(width, height),
        maximum_frames,
    )
}

/// Begins an AVIF sequence on a canvas of its size; refused as too large where there is none.
pub fn begin_avif_on(
    width: u32,
    height: u32,
    canvas: Option<FrameCompositor>,
    maximum_frames: usize,
) -> (result: Result<SequenceReading, DecodeError>)
    ensures
        if width == 0 || height == 0 {
            result matches Err(error) && error@ == image::uncoded("AVIF canvas has no size"@)
        } else {
            match canvas {
                Some(compositor) => result matches Ok(reading) && reading.compositor@
                    == compositor@ && reading.maximum_frames == maximum_frames,
                None => result matches Err(error) && error@ == image::uncoded(
                    "AVIF canvas is too large to decode"@,
                ),
            }
        },
{
    if width == 0 || height == 0 {
        return Err(uncoded_error("AVIF canvas has no size"));
    }
    match canvas {
        Some(compositor) => Ok(SequenceReading { compositor, maximum_frames }),
        None => Err(uncoded_error("AVIF canvas is too large to decode")),
    }
}

/// Begins an AVIF sequence. Past the budget, and where the machine has no memory for the canvas, it is
/// refused as too large.
pub fn begin_avif(width: u32, height: u32, maximum_frames: usize) -> (result: Result<
    SequenceReading,
    DecodeError,
>)
    ensures
        match result {
            Ok(reading) => width > 0 && height > 0 && reading.compositor@
                == compositor::blank_composition(width, height) && reading.compositor@.sound()
                && reading.maximum_frames == maximum_frames,
            Err(error) => error@ == (if width == 0 || height == 0 {
                image::uncoded("AVIF canvas has no size"@)
            } else {
                image::uncoded("AVIF canvas is too large to decode"@)
            }),
        },
        compositor::canvas_bytes(width, height) > pixels::MAXIMUM_ANIMATION_FRAMES_BYTES
            ==> result is Err,
{
    if width == 0 || height == 0 {
        return begin_avif_on(width, height, None, maximum_frames);
    }
    begin_avif_on(width, height, FrameCompositor::new(width, height), maximum_frames)
}

/// The status a sequence decoder ends with once nothing is left.
pub const HEIF_END_OF_SEQUENCE: i32 = 13;

/// What a call of the HEIF decoder came to: its own text where it gave one.
pub fn heif_result(code: i32, message: Option<&str>) -> (result: Result<(), DecodeError>)
    ensures
        match result {
            Ok(_) => code == 0,
            Err(error) => code != 0 && error@ == image::uncoded(
                match message {
                    Some(text) => text@,
                    None => "HEIF decode failed"@,
                },
            ),
        },
{
    if code == 0 {
        return Ok(());
    }
    match message {
        Some(text) => Err(uncoded_error(text)),
        None => Err(uncoded_error("HEIF decode failed")),
    }
}

/// Whether a sequence goes on: None once it has ended, else what the call came to.
pub fn sequence_status(code: i32, message: Option<&str>) -> (status: Option<
    Result<(), DecodeError>,
>)
    ensures
        status is None <==> code == HEIF_END_OF_SEQUENCE,
        status matches Some(Ok(_)) ==> code == 0,
        status matches Some(Err(error)) ==> code != 0 && error@ == image::uncoded(
            match message {
                Some(text) => text@,
                None => "HEIF decode failed"@,
            },
        ),
{
    if code == HEIF_END_OF_SEQUENCE {
        None
    } else {
        Some(heif_result(code, message))
    }
}

/// A sequence image is the size of its canvas and its rows are whole.
pub open spec fn sequence_image_fits(
    has_plane: bool,
    width: i32,
    height: i32,
    stride: i32,
    canvas_width: u32,
    canvas_height: u32,
) -> bool {
    has_plane && width == canvas_width && height == canvas_height && stride >= canvas_width * 4
}

pub fn check_sequence_image(
    has_plane: bool,
    width: i32,
    height: i32,
    stride: i32,
    canvas_width: u32,
    canvas_height: u32,
) -> (result: Result<(), DecodeError>)
    ensures
        match result {
            Ok(_) => sequence_image_fits(
                has_plane,
                width,
                height,
                stride,
                canvas_width,
                canvas_height,
            ),
            Err(error) => !sequence_image_fits(
                has_plane,
                width,
                height,
                stride,
                canvas_width,
                canvas_height,
            ) && error@ == image::uncoded("AVIF frame differs from its sequence header"@),
        },
{
    if !has_plane || width as i64 != canvas_width as i64 || height as i64 != canvas_height as i64
        || (stride as i64) < canvas_width as i64 * 4 {
        return Err(uncoded_error("AVIF frame differs from its sequence header"));
    }
    Ok(())
}

/// The color facts of a HEIF image as an HDR encoding; None for SDR transfers and unknown primaries.
pub fn heif_hdr_encoding(primaries: i32, transfer: i32) -> (encoding: Option<HdrEncoding>)
    ensures
        encoding == (if 0 <= primaries <= 255 && 0 <= transfer <= 255 {
            hdr::encoding_of(primaries as u8, transfer as u8)
        } else {
            None
        }),
{
    if 0 <= primaries && primaries <= 255 && 0 <= transfer && transfer <= 255 {
        cicp_hdr_encoding(primaries as u8, transfer as u8)
    } else {
        None
    }
}

/// What the HEIF decoder is asked for.
#[derive(Clone, Copy, PartialEq, Eq, Structural, Debug)]
pub enum HeifChroma {
    /// 8-bit interleaved RGBA.
    Rgba,
    /// 16-bit little-endian interleaved RGBA.
    Rgba16,
}

/// The chroma to ask for and the storage it produces; the two must stay paired. PQ/HLG survives only
/// a 16-bit request.
pub open spec fn heif_target(encoding: Option<HdrEncoding>) -> (HeifChroma, PixelStorage) {
    match encoding {
        Some(_) => (HeifChroma::Rgba16, PixelStorage::RgbaHalf),
        None => (HeifChroma::Rgba, PixelStorage::Bgra8),
    }
}

pub fn heif_pixel_target(encoding: Option<HdrEncoding>) -> (target: (HeifChroma, PixelStorage))
    ensures
        target == heif_target(encoding),
{
    match encoding {
        Some(_) => (HeifChroma::Rgba16, PixelStorage::RgbaHalf),
        None => (HeifChroma::Rgba, PixelStorage::Bgra8),
    }
}

/// What a probe of a HEIF image says: its size and the storage its decode will produce, so the budget
/// matches it.
pub fn probed_heif(width: i32, height: i32, encoding: Option<HdrEncoding>) -> (probed: Option<
    (u32, u32, PixelStorage),
>)
    ensures
        probed == (if width > 0 && height > 0 {
            Some((width as u32, height as u32, heif_target(encoding).1))
        } else {
            None
        }),
{
    if width > 0 && height > 0 {
        Some((width as u32, height as u32, heif_pixel_target(encoding).1))
    } else {
        None
    }
}

/// A decoded HEIF image as its decoder describes it.
#[derive(Clone, Copy, PartialEq, Eq, Structural, Debug)]
pub struct HeifPlane {
    pub present: bool,
    pub width: i32,
    pub height: i32,
    /// The depth of the codes, 8 without an HDR encoding.
    pub source_bits: i32,
    pub stride: i32,
}

impl HeifPlane {
    pub open spec fn row_bytes(self, storage: PixelStorage) -> int {
        self.width * storage.pixel_size()
    }

    /// The plane is there, has a size and a depth, and its rows are whole.
    pub open spec fn usable(self, storage: PixelStorage) -> bool {
        &&& self.present
        &&& self.width > 0
        &&& self.height > 0
        &&& 1 <= self.source_bits <= MAXIMUM_HDR_SOURCE_BITS
        &&& self.stride >= self.row_bytes(storage)
    }
}

/// Bytes of a HEIF image's rows and of the whole of it; a plane that cannot be read and an image past
/// the size policy are refused.
pub fn heif_extent(plane: &HeifPlane, storage: PixelStorage) -> (result: Result<
    (u64, u64),
    DecodeError,
>)
    ensures
        match result {
            Ok((row_bytes, total_bytes)) => plane.usable(storage) && plane.width * plane.height
                <= MAXIMUM_FALLBACK_PIXELS && row_bytes == plane.row_bytes(storage) && total_bytes
                == plane.row_bytes(storage) * plane.height,
            Err(error) => if !plane.usable(storage) {
                error@ == image::uncoded("HEIF image plane unavailable"@)
            } else {
                plane.width * plane.height > MAXIMUM_FALLBACK_PIXELS && error@ == image::uncoded(
                    "HEIF has too many pixels to decode"@,
                )
            },
        },
{
    let pixel_size: i64 = storage.bytes_per_pixel() as i64;
    assert(plane.width * pixel_size <= 0x7FFF_FFFF * 8 && plane.width * pixel_size >= -0x8000_0000
        * 8) by (nonlinear_arith)
        requires
            -0x8000_0000 <= plane.width <= 0x7FFF_FFFF,
            0 <= pixel_size <= 8,
    ;
    let row_bytes: i64 = plane.width as i64 * pixel_size;
    if !plane.present || plane.width <= 0 || plane.height <= 0 || plane.source_bits < 1
        || plane.source_bits > MAXIMUM_HDR_SOURCE_BITS || (plane.stride as i64) < row_bytes {
        return Err(uncoded_error("HEIF image plane unavailable"));
    }
    assert(plane.width * plane.height <= 0x7FFF_FFFF * 0x7FFF_FFFF && 0 <= plane.width
        * plane.height) by (nonlinear_arith)
        requires
            0 <= plane.width <= 0x7FFF_FFFF,
            0 <= plane.height <= 0x7FFF_FFFF,
    ;
    let pixel_count: u64 = plane.width as u64 * plane.height as u64;
    if pixel_count > MAXIMUM_FALLBACK_PIXELS {
        return Err(uncoded_error("HEIF has too many pixels to decode"));
    }
    assert(row_bytes * plane.height == plane.width * plane.height * pixel_size)
        by (nonlinear_arith)
        requires
            row_bytes == plane.width * pixel_size,
    ;
    assert(0 <= plane.width * plane.height * pixel_size <= 1073741824 * 8) by (nonlinear_arith)
        requires
            0 <= plane.width * plane.height <= 1073741824,
            0 <= pixel_size <= 8,
    ;
    Ok((row_bytes as u64, row_bytes as u64 * plane.height as u64))
}

/// The rows of a plane without what pads them.
pub open spec fn packed_rows(plane: Seq<u8>, stride: int, row_bytes: int, rows: int) -> Seq<u8> {
    Seq::new(
        (row_bytes * rows) as nat,
        |index: int| plane[index / row_bytes * stride + index % row_bytes],
    )
}

/// A byte of the image: the codes as the decoder wrote them where an encoding is yet to be undone,
/// premultiplied BGRA otherwise.
pub open spec fn heif_bytes(packed: Seq<u8>, encoded: bool) -> Seq<u8> {
    if encoded {
        packed
    } else {
        Seq::new(packed.len(), |index: int| pixels::bgra_of_rgba(packed, index / 4, index % 4))
    }
}

proof fn lemma_packed_place(stride: int, row_bytes: int, row: int, offset: int)
    requires
        0 < row_bytes,
        0 <= row,
        0 <= offset < row_bytes,
    ensures
        (row * row_bytes + offset) / row_bytes == row,
        (row * row_bytes + offset) % row_bytes == offset,
{
    vstd::arithmetic::div_mod::lemma_fundamental_div_mod_converse(
        row * row_bytes + offset,
        row_bytes,
        row,
        offset,
    );
}

/// Copies the rows of a HEIF plane into the buffer there was memory for, premultiplying as it goes
/// where no encoding is left to undo; refused where there was none.
pub fn heif_rows_on_buffer(
    buffer: Option<Vec<u8>>,
    plane: &[u8],
    stride: usize,
    row_bytes: usize,
    rows: usize,
    encoded: bool,
) -> (result: Result<Vec<u8>, DecodeError>)
    requires
        0 < row_bytes <= stride,
        row_bytes % 4 == 0,
        rows > 0 ==> (rows - 1) * stride + row_bytes <= plane@.len(),
        buffer matches Some(zeroed) ==> zeroed@.len() == row_bytes * rows,
    ensures
        match buffer {
            Some(_) => result matches Ok(bytes) && bytes@ == heif_bytes(
                packed_rows(plane@, stride as int, row_bytes as int, rows as int),
                encoded,
            ),
            None => result matches Err(error) && error@ == image::uncoded(
                "HEIF is too large to fit in memory"@,
            ),
        },
{
    let ghost packed = packed_rows(plane@, stride as int, row_bytes as int, rows as int);
    let ghost wanted = heif_bytes(packed, encoded);
    assert(0 <= row_bytes * rows) by (nonlinear_arith);
    assert(plane.len() <= usize::MAX);
    let mut bytes = match buffer {
        Some(buffer) => buffer,
        None => {
            return Err(uncoded_error("HEIF is too large to fit in memory"));
        },
    };
    let total: usize = bytes.len();
    let mut row: usize = 0;
    while row < rows
        invariant
            packed == packed_rows(plane@, stride as int, row_bytes as int, rows as int),
            wanted == heif_bytes(packed, encoded),
            0 < row_bytes <= stride,
            row_bytes % 4 == 0,
            rows > 0 ==> (rows - 1) * stride + row_bytes <= plane@.len(),
            plane@.len() <= usize::MAX,
            total == row_bytes * rows,
            total <= usize::MAX,
            row <= rows,
            bytes@.len() == total,
            wanted.len() == total,
            (row * row_bytes) % 4 == 0,
            forall|index: int| 0 <= index < row * row_bytes ==> bytes@[index] == wanted[index],
        decreases rows - row,
    {
        assert(row * stride + row_bytes <= (rows - 1) * stride + row_bytes) by (nonlinear_arith)
            requires
                row <= rows - 1,
        ;
        assert(row * row_bytes + row_bytes <= rows * row_bytes) by (nonlinear_arith)
            requires
                row + 1 <= rows,
        ;
        assert(row_bytes * rows == rows * row_bytes) by (nonlinear_arith);
        assert(0 <= row * row_bytes && 0 <= row * stride) by (nonlinear_arith);
        assert((row + 1) * row_bytes == row * row_bytes + row_bytes) by (nonlinear_arith);
        let source: usize = row * stride;
        let target: usize = row * row_bytes;
        let mut offset: usize = 0;
        while offset < row_bytes
            invariant
                packed == packed_rows(plane@, stride as int, row_bytes as int, rows as int),
                wanted == heif_bytes(packed, encoded),
                0 < row_bytes <= stride,
                row_bytes % 4 == 0,
                plane@.len() <= usize::MAX,
                source == row * stride,
                source + row_bytes <= plane@.len(),
                target == row * row_bytes,
                target + row_bytes <= total,
                target % 4 == 0,
                total == row_bytes * rows,
                bytes@.len() == total,
                wanted.len() == total,
                packed.len() == total,
                offset <= row_bytes,
                offset % 4 == 0,
                forall|index: int|
                    0 <= index < target + offset ==> bytes@[index] == wanted[index],
            decreases row_bytes - offset,
        {
            let place: usize = source + offset;
            let first: u8 = plane[place];
            let second: u8 = plane[place + 1];
            let third: u8 = plane[place + 2];
            let alpha: u8 = plane[place + 3];
            proof {
                lemma_packed_place(stride as int, row_bytes as int, row as int, offset as int);
                lemma_packed_place(stride as int, row_bytes as int, row as int, offset + 1);
                lemma_packed_place(stride as int, row_bytes as int, row as int, offset + 2);
                lemma_packed_place(stride as int, row_bytes as int, row as int, offset + 3);
                assert(packed[target + offset] == first);
                assert(packed[target + (offset + 1)] == second);
                assert(packed[target + (offset + 2)] == third);
                assert(packed[target + (offset + 3)] == alpha);
                assert((target + offset) / 4 * 4 == target + offset);
            }
            if encoded {
                bytes.set(target + offset, first);
                bytes.set(target + offset + 1, second);
                bytes.set(target + offset + 2, third);
            } else {
                bytes.set(target + offset, pixels::premultiply(third, alpha));
                bytes.set(target + offset + 1, pixels::premultiply(second, alpha));
                bytes.set(target + offset + 2, pixels::premultiply(first, alpha));
            }
            bytes.set(target + offset + 3, alpha);
            offset += 4;
        }
        row += 1;
    }
    assert(row_bytes * rows == rows * row_bytes) by (nonlinear_arith);
    assert(bytes@ =~= wanted);
    Ok(bytes)
}

/// The image's bytes out of the rows of a HEIF plane; refused where the machine has no memory for them.
pub fn heif_rows(plane: &[u8], stride: usize, row_bytes: usize, rows: usize, encoded: bool) -> (
    result: Result<Vec<u8>, DecodeError>)
    requires
        0 < row_bytes <= stride,
        row_bytes % 4 == 0,
        rows > 0 ==> (rows - 1) * stride + row_bytes <= plane@.len(),
        row_bytes * rows <= usize::MAX,
    ensures
        match result {
            Ok(bytes) => bytes@ == heif_bytes(
                packed_rows(plane@, stride as int, row_bytes as int, rows as int),
                encoded,
            ),
            Err(error) => rows > 0 && error@ == image::uncoded(
                "HEIF is too large to fit in memory"@,
            ),
        },
        row_bytes * rows > isize::MAX ==> result is Err,
{
    assert(0 <= row_bytes * rows) by (nonlinear_arith);
    assert(rows == 0 ==> row_bytes * rows == 0) by (nonlinear_arith);
    let buffer = try_zeroed_buffer(row_bytes * rows);
    heif_rows_on_buffer(buffer, plane, stride, row_bytes, rows, encoded)
}

/// Bytes of the buffer an EXR decodes into: four halves a pixel. An unreadable header and an image past
/// the size policy are refused.
pub fn exr_buffer_bytes(dimensions: Option<(u32, u32)>) -> (result: Result<u64, DecodeError>)
    ensures
        match dimensions {
            None => result matches Err(error) && error@ == image::uncoded(
                "EXR header is unreadable"@,
            ),
            Some((width, height)) => if width * height > MAXIMUM_FALLBACK_PIXELS {
                result matches Err(error) && error@ == image::uncoded(
                    "EXR has too many pixels to decode"@,
                )
            } else {
                result == Ok::<u64, DecodeError>((width * height * 8) as u64)
            },
        },
{
    match dimensions {
        None => Err(uncoded_error("EXR header is unreadable")),
        Some((width, height)) => {
            assert(0 <= width * height <= 0xFFFF_FFFF * 0xFFFF_FFFF) by (nonlinear_arith)
                requires
                    width <= 0xFFFF_FFFF,
                    height <= 0xFFFF_FFFF,
            ;
            let pixel_count: u64 = width as u64 * height as u64;
            if pixel_count > MAXIMUM_FALLBACK_PIXELS {
                return Err(uncoded_error("EXR has too many pixels to decode"));
            }
            Ok(pixel_count * 8)
        },
    }
}

/// Where the first zero of a buffer is, from an index on.
pub open spec fn zero_from(buffer: Seq<u8>, index: int) -> Option<int>
    decreases buffer.len() - index,
{
    if index < 0 || index >= buffer.len() {
        None
    } else if buffer[index] == 0 {
        Some(index)
    } else {
        zero_from(buffer, index + 1)
    }
}

/// The text a decoder left in a buffer: what comes before the first zero, where there is one and it is
/// text.
pub open spec fn left_message(buffer: Seq<u8>) -> Option<Seq<char>> {
    match zero_from(buffer, 0) {
        Some(end) => if vstd::utf8::valid_utf8(buffer.take(end)) {
            Some(vstd::utf8::decode_utf8(buffer.take(end)))
        } else {
            None
        },
        None => None,
    }
}

/// Why an EXR decode failed: the decoder's own text, where it left one.
pub fn exr_failure(buffer: &[u8]) -> (error: DecodeError)
    ensures
        error@ == image::uncoded(
            match left_message(buffer@) {
                Some(text) => text,
                None => "EXR decode failed"@,
            },
        ),
{
    let mut index: usize = 0;
    while index < buffer.len()
        invariant
            index <= buffer@.len(),
            zero_from(buffer@, 0) == zero_from(buffer@, index as int),
        decreases buffer@.len() - index,
    {
        if buffer[index] == 0 {
            let bytes = vstd::slice::slice_subrange(buffer, 0, index);
            assert(bytes@ =~= buffer@.take(index as int));
            return match text_from_utf8(bytes) {
                Some(text) => uncoded_error(text.as_str()),
                None => uncoded_error("EXR decode failed"),
            };
        }
        index += 1;
    }
    uncoded_error("EXR decode failed")
}

/// Cuts a buffer to the size that was decoded: a file that shrank between the probe and the read leaves
/// the tail untouched.
pub fn cut_to_size(pixels: &mut Vec<u8>, width: u32, height: u32)
    ensures
        final(pixels)@ == (if width * height * 8 < old(pixels)@.len() {
            old(pixels)@.take(width * height * 8)
        } else {
            old(pixels)@
        }),
{
    assert(0 <= width * height <= 0xFFFF_FFFF * 0xFFFF_FFFF) by (nonlinear_arith)
        requires
            width <= 0xFFFF_FFFF,
            height <= 0xFFFF_FFFF,
    ;
    let bytes: u128 = width as u128 * height as u128 * 8;
    if bytes < pixels.len() as u128 {
        pixels.truncate(bytes as usize);
    }
}

} // verus!
