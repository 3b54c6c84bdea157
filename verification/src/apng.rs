//! Animated PNG: read frame by frame, composed onto one canvas.

use std::sync::atomic::AtomicBool;

use vstd::prelude::*;

use crate::compositor;
use crate::compositor::{
    finish_animation, CompositionModel, FrameBlend, FrameCompositor, FrameDisposal, FrameRegion,
    RegionModel,
};
use crate::image;
use crate::image::{uncoded_error, DecodeError, DecodedImage, ErrorModel, ImageModel};
use crate::pixels;
use crate::pixels::{pixels_to_premultiplied_bgra_into, ColorType};
use crate::weight;
use crate::weight::decoded_weight;

verus! {

/// `png::Reader`: the frames of a PNG not read yet. Verus refuses the type's own bounds, so it is held
/// here.
#[verifier::external_body]
pub struct PngReader {
    reader: png::Reader<std::io::Cursor<Vec<u8>>>,
}

/// The bytes a reader was opened on.
pub uninterp spec fn bytes_behind(reader: PngReader) -> Seq<u8>;

/// The calls a reader has answered well, in order: true for a frame read, false for an advance to a
/// frame.
pub uninterp spec fn calls_answered(reader: PngReader) -> Seq<bool>;

/// Why `png::Decoder::read_info` refuses these bytes, none where it does not; `normalized` says that 8
/// bits per channel and expanded palettes are asked for, `reach` is the greatest address.
pub uninterp spec fn png_refusal(bytes: Seq<u8>, normalized: bool, reach: usize) -> Option<Seq<char>>;

/// What `png::Reader::info` says of these bytes before a frame is read: width, height, color profile,
/// and how many frames an animation declares.
pub uninterp spec fn png_information(bytes: Seq<u8>) -> (u32, u32, Option<Seq<u8>>, Option<u32>);

/// What `png::Reader::info` says of the frame ahead once these calls were answered.
pub uninterp spec fn png_control(bytes: Seq<u8>, calls: Seq<bool>) -> Option<FrameControl>;

/// The bytes `png::Reader::output_buffer_size` asks for, at 8 bits per channel and expanded palettes.
pub uninterp spec fn png_buffer_size(bytes: Seq<u8>, reach: usize) -> Option<usize>;

/// Why `png::Reader::next_frame_info` refuses to go on once these calls were answered, none where it
/// does not.
pub uninterp spec fn png_standstill(bytes: Seq<u8>, calls: Seq<bool>) -> Option<Seq<char>>;

/// What `png::Reader::next_frame` answers once these calls were answered and the buffer held this:
/// the color type, the size, and the buffer it leaves, or why it refuses.
pub uninterp spec fn png_frame(bytes: Seq<u8>, calls: Seq<bool>, buffer: Seq<u8>) -> Result<
    (ColorType, u32, u32, Seq<u8>),
    Seq<char>,
>;

/// Where a frame goes and how long it shows.
#[derive(Clone, Copy, PartialEq, Eq, Structural, Debug)]
pub struct FrameControl {
    pub width: u32,
    pub height: u32,
    pub x_offset: u32,
    pub y_offset: u32,
    pub delay_num: u16,
    pub delay_den: u16,
    pub disposal: FrameDisposal,
    pub blend: FrameBlend,
}

/// What a PNG says of itself before its first frame is read.
pub struct PngInformation {
    pub width: u32,
    pub height: u32,
    pub icc_profile: Option<Vec<u8>>,
    /// How many frames the animation declares; none where there is no animation.
    pub animation_frames: Option<u32>,
}

/// A frame as it was read: the color type and the size of its pixels in the buffer.
pub struct PngFrame {
    pub color_type: ColorType,
    pub width: u32,
    pub height: u32,
}

impl ColorType {
    /// Samples per pixel.
    pub open spec fn samples(self) -> int {
        match self {
            ColorType::Grayscale => 1,
            ColorType::Rgb => 3,
            ColorType::Indexed => 1,
            ColorType::GrayscaleAlpha => 2,
            ColorType::Rgba => 4,
        }
    }
}

impl PngReader {
    /// `png::Decoder::read_info` with `set_transformations` to 8 bits per channel and expanded palettes:
    /// opens the bytes, or says why they are refused.
    #[verifier::external_body]
    fn open(bytes: Vec<u8>) -> (opened: Result<PngReader, String>)
        ensures
            match opened {
                Ok(reader) => png_refusal(bytes@, true, usize::MAX) is None && bytes_behind(reader)
                    == bytes@ && calls_answered(reader).len() == 0,
                Err(reason) => png_refusal(bytes@, true, usize::MAX) == Some(reason@),
            },
    {
        let mut decoder = png::Decoder::new(std::io::Cursor::new(bytes));
        decoder.set_transformations(png::Transformations::normalize_to_color8());
        match decoder.read_info() {
            Ok(reader) => Ok(PngReader { reader }),
            Err(error) => Err(error.to_string()),
        }
    }

    /// `png::Reader::info` before the first frame: the size, the color profile, and the frames an
    /// animation declares.
    #[verifier::external_body]
    fn information(&self) -> (information: PngInformation)
        requires
            calls_answered(*self).len() == 0,
        ensures
            (
                information.width,
                information.height,
                image::optional_bytes(information.icc_profile),
                information.animation_frames,
            ) == png_information(bytes_behind(*self)),
    {
        let information = self.reader.info();
        PngInformation {
            width: information.width,
            height: information.height,
            icc_profile: information.icc_profile.as_ref().map(|profile| profile.to_vec()),
            animation_frames: information.animation_control.map(|control| control.num_frames),
        }
    }

    /// `png::Reader::info`, the control of the frame ahead. The decoder takes no control whose frame
    /// leaves the canvas.
    #[verifier::external_body]
    fn control(&self) -> (control: Option<FrameControl>)
        ensures
            control == png_control(bytes_behind(*self), calls_answered(*self)),
            control matches Some(found) ==> found.x_offset + found.width <= png_information(
                bytes_behind(*self),
            ).0 && found.y_offset + found.height <= png_information(bytes_behind(*self)).1,
    {
        self.reader.info().frame_control.map(|control| FrameControl {
            width: control.width, height: control.height,
            x_offset: control.x_offset, y_offset: control.y_offset,
            delay_num: control.delay_num, delay_den: control.delay_den,
            disposal: match control.dispose_op {
                png::DisposeOp::Background => FrameDisposal::Background,
                png::DisposeOp::Previous => FrameDisposal::Previous,
                png::DisposeOp::None => FrameDisposal::Keep,
            },
            blend: match control.blend_op {
                png::BlendOp::Source => FrameBlend::Replace,
                png::BlendOp::Over => FrameBlend::Over,
            },
        })
    }

    /// `png::Reader::output_buffer_size`: the bytes that hold any frame.
    #[verifier::external_body]
    fn buffer_size(&self) -> (size: Option<usize>)
        requires
            calls_answered(*self).len() == 0,
        ensures
            size == png_buffer_size(bytes_behind(*self), usize::MAX),
    {
        self.reader.output_buffer_size()
    }

    /// `png::Reader::next_frame_info`: goes on to the next frame of the animation. It is asked only
    /// after a frame was read.
    #[verifier::external_body]
    fn advance(&mut self) -> (advanced: Result<(), String>)
        requires
            calls_answered(*old(self)).len() > 0,
            calls_answered(*old(self)).last(),
        ensures
            match advanced {
                Ok(_) => png_standstill(bytes_behind(*old(self)), calls_answered(*old(self)))
                    is None && bytes_behind(*final(self)) == bytes_behind(*old(self))
                    && calls_answered(*final(self)) == calls_answered(*old(self)).push(false),
                Err(reason) => png_standstill(
                    bytes_behind(*old(self)),
                    calls_answered(*old(self)),
                ) == Some(reason@),
            },
    {
        match self.reader.next_frame_info() {
            Ok(_) => Ok(()),
            Err(error) => Err(error.to_string()),
        }
    }

    /// `png::Reader::next_frame`: reads the frame ahead into the buffer, as many bytes as its size and
    /// its color type's samples make. The frame is as large as its control says, the canvas where it
    /// has none. A frame is read once. The buffer is no longer than the size asked for at opening: what
    /// comes between frames may make the decoder ask for more, which a longer buffer would meet and the
    /// rows would not.
    #[verifier::external_body]
    fn read_frame(&mut self, buffer: &mut Vec<u8>) -> (read: Result<PngFrame, String>)
        requires
            calls_answered(*old(self)).len() > 0 ==> !calls_answered(*old(self)).last(),
            png_buffer_size(bytes_behind(*old(self)), usize::MAX) matches Some(size)
                && old(buffer)@.len() <= size,
        ensures
            final(buffer)@.len() == old(buffer)@.len(),
            match read {
                Ok(frame) => png_frame(
                    bytes_behind(*old(self)),
                    calls_answered(*old(self)),
                    old(buffer)@,
                ) == Ok::<(ColorType, u32, u32, Seq<u8>), Seq<char>>(
                    (frame.color_type, frame.width, frame.height, final(buffer)@),
                ) && bytes_behind(*final(self)) == bytes_behind(*old(self)) && calls_answered(
                    *final(self),
                ) == calls_answered(*old(self)).push(true) && frame.width * frame.height
                    * frame.color_type.samples() <= final(buffer)@.len() && (frame.width, frame.height)
                    == (match png_control(bytes_behind(*old(self)), calls_answered(*old(self))) {
                    Some(control) => (control.width, control.height),
                    None => (
                        png_information(bytes_behind(*old(self))).0,
                        png_information(bytes_behind(*old(self))).1,
                    ),
                }),
                Err(reason) => png_frame(
                    bytes_behind(*old(self)),
                    calls_answered(*old(self)),
                    old(buffer)@,
                ) == Err::<(ColorType, u32, u32, Seq<u8>), Seq<char>>(reason@),
            },
    {
        match self.reader.next_frame(buffer) {
            Ok(frame) => Ok(PngFrame {
                color_type: match frame.color_type {
                    png::ColorType::Grayscale => ColorType::Grayscale,
                    png::ColorType::Rgb => ColorType::Rgb,
                    png::ColorType::Indexed => ColorType::Indexed,
                    png::ColorType::GrayscaleAlpha => ColorType::GrayscaleAlpha,
                    png::ColorType::Rgba => ColorType::Rgba,
                },
                width: frame.width,
                height: frame.height,
            }),
            Err(error) => Err(error.to_string()),
        }
    }
}

/// `png::Decoder::read_info` without transformations, then `png::Reader::info`: what the bytes say of
/// themselves, or why they are refused.
#[verifier::external_body]
fn read_information(bytes: &[u8]) -> (read: Result<PngInformation, String>)
    ensures
        match read {
            Ok(information) => png_refusal(bytes@, false, usize::MAX) is None && (
                information.width,
                information.height,
                image::optional_bytes(information.icc_profile),
                information.animation_frames,
            ) == png_information(bytes@),
            Err(reason) => png_refusal(bytes@, false, usize::MAX) == Some(reason@),
        },
{
    match png::Decoder::new(std::io::Cursor::new(bytes)).read_info() {
        Ok(reader) => Ok(PngInformation {
            width: reader.info().width,
            height: reader.info().height,
            icc_profile: reader.info().icc_profile.as_ref().map(|profile| profile.to_vec()),
            animation_frames: reader.info().animation_control.map(|control| control.num_frames),
        }),
        Err(error) => Err(error.to_string()),
    }
}

/// The frames a PNG of this declaration weighs by: one where there is no animation.
pub open spec fn declared_frames(animation_frames: Option<u32>) -> u32 {
    match animation_frames {
        Some(count) => count,
        None => 1,
    }
}

/// What a PNG with this size and this animation weighs.
pub fn information_weight(width: u32, height: u32, animation_frames: Option<u32>) -> (bytes: u64)
    ensures
        bytes == weight::held_weight(
            weight::weight(width, height, 4, declared_frames(animation_frames) as u64),
        ),
{
    let frame_count: u32 = match animation_frames {
        Some(count) => count,
        None => 1,
    };
    decoded_weight(width, height, 4, frame_count as u64)
}

/// What an animated PNG weighs: its size and its declared frames sit before the image data. None when
/// the bytes are refused.
pub fn probe_apng_weight(bytes: &[u8]) -> (weighed: Option<u64>)
    ensures
        match weighed {
            Some(total) => png_refusal(bytes@, false, usize::MAX) is None && total
                == weight::held_weight(
                weight::weight(
                    png_information(bytes@).0,
                    png_information(bytes@).1,
                    4,
                    declared_frames(png_information(bytes@).3) as u64,
                ),
            ),
            None => png_refusal(bytes@, false, usize::MAX) is Some,
        },
{
    match read_information(bytes) {
        Ok(information) => Some(
            information_weight(
                information.width,
                information.height,
                information.animation_frames,
            ),
        ),
        Err(_) => None,
    }
}

/// How many frames an animated PNG declares, one where it declares no animation. None when the bytes are
/// refused.
pub fn probe_apng_frames(bytes: &[u8]) -> (frames: Option<u32>)
    ensures
        match frames {
            Some(count) => png_refusal(bytes@, false, usize::MAX) is None && count == declared_frames(
                png_information(bytes@).3,
            ),
            None => png_refusal(bytes@, false, usize::MAX) is Some,
        },
{
    match read_information(bytes) {
        Ok(information) => Some(
            match information.animation_frames {
                Some(count) => count,
                None => 1,
            },
        ),
        Err(_) => None,
    }
}

/// The control of a frame that declares none: the whole canvas, replaced, shown for a thirtieth of a
/// second.
pub open spec fn whole_canvas(width: u32, height: u32) -> FrameControl {
    FrameControl {
        width,
        height,
        x_offset: 0,
        y_offset: 0,
        delay_num: 1,
        delay_den: 30,
        disposal: FrameDisposal::Keep,
        blend: FrameBlend::Replace,
    }
}

/// How long a frame shows, 10 ms at least; a denominator of 0 counts hundredths.
pub open spec fn delay_of(delay_num: u16, delay_den: u16) -> u32 {
    let denominator: int = if delay_den == 0 {
        100
    } else {
        delay_den as int
    };
    let milliseconds = delay_num * 1000 / denominator;
    if milliseconds < 10 {
        10
    } else {
        milliseconds as u32
    }
}

/// How long a frame with this delay fraction shows.
pub fn frame_delay(delay_num: u16, delay_den: u16) -> (milliseconds: u32)
    ensures
        milliseconds == delay_of(delay_num, delay_den),
{
    let denominator: u32 = if delay_den == 0 {
        100
    } else {
        delay_den as u32
    };
    let milliseconds: u32 = delay_num as u32 * 1000 / denominator;
    if milliseconds < 10 {
        10
    } else {
        milliseconds
    }
}

/// A frame placed on the canvas as its control says.
pub open spec fn placed(control: FrameControl, color: ColorType, read: Seq<u8>) -> RegionModel {
    RegionModel {
        pixels: pixels::converted(read, color, control.width * control.height),
        left: control.x_offset,
        top: control.y_offset,
        width: control.width,
        height: control.height,
        blend: control.blend,
        disposal: control.disposal,
        delay_milliseconds: delay_of(control.delay_num, control.delay_den),
    }
}

/// One frame more on a composition: none where its kind of pixels is not converted.
pub open spec fn with_read_frame(
    composition: CompositionModel,
    control: FrameControl,
    color: ColorType,
    read: Seq<u8>,
) -> Result<CompositionModel, ErrorModel> {
    if color.converted_bytes() == 0 {
        Err(image::uncoded(pixels::unsupported_color(color)))
    } else {
        Ok(composition.with_frame(placed(control, color, read)))
    }
}

/// The composition of the frames from `index` on: each is asked for while the budget lasts, the first
/// needs no advance where it is the image itself, and the first refusal ends it all.
pub open spec fn composed_from(
    bytes: Seq<u8>,
    calls: Seq<bool>,
    buffer: Seq<u8>,
    composition: CompositionModel,
    index: int,
    count: int,
    image_is_first: bool,
) -> Result<CompositionModel, ErrorModel>
    decreases count - index,
{
    if index >= count {
        Ok(composition)
    } else if !composition.accepts(composition.frames.len() as int + 1) {
        Ok(composition.asked(composition.frames.len() as int + 1))
    } else {
        let ahead = if index == 0 && image_is_first {
            calls
        } else {
            calls.push(false)
        };
        let control = match png_control(bytes, ahead) {
            Some(found) => found,
            None => whole_canvas(composition.width, composition.height),
        };
        if !(index == 0 && image_is_first) && png_standstill(bytes, calls) is Some {
            Err(image::uncoded(png_standstill(bytes, calls)->0))
        } else {
            match png_frame(bytes, ahead, buffer) {
                Err(reason) => Err(image::uncoded(reason)),
                Ok((color, width, height, read)) => match with_read_frame(
                    composition,
                    control,
                    color,
                    read,
                ) {
                    Err(error) => Err(error),
                    Ok(next) => composed_from(
                        bytes,
                        ahead.push(true),
                        read,
                        next,
                        index + 1,
                        count,
                        image_is_first,
                    ),
                },
            }
        }
    }
}

/// Why a canvas is not composed on.
pub open spec fn canvas_refusal() -> ErrorModel {
    image::uncoded("APNG canvas is too large to decode"@)
}

/// What an animated PNG decodes to, where nothing cancels it and the machine has the memory.
pub open spec fn decoded(bytes: Seq<u8>, format_name: Seq<char>) -> Result<ImageModel, ErrorModel> {
    let (width, height, icc_profile, animation_frames) = png_information(bytes);
    let first_is_frame = png_control(bytes, Seq::empty()) is Some;
    let blank = compositor::blank_composition(width, height);
    match png_refusal(bytes, true, usize::MAX) {
        Some(reason) => Err(image::uncoded(reason)),
        None => if compositor::canvas_bytes(width, height) > pixels::MAXIMUM_ANIMATION_FRAMES_BYTES {
            Err(canvas_refusal())
        } else {
            match png_buffer_size(bytes, usize::MAX) {
                None => Err(image::uncoded("APNG output buffer size overflow"@)),
                Some(size) => {
                    let buffer = Seq::new(size as nat, |index: int| 0u8);
                    let composed = if animation_frames is Some && !first_is_frame {
                        match png_frame(bytes, Seq::empty(), buffer) {
                            Err(reason) => Err(image::uncoded(reason)),
                            Ok((color, _, _, read)) => composed_from(
                                bytes,
                                Seq::empty().push(true),
                                read,
                                blank,
                                0,
                                declared_frames(animation_frames) as int,
                                false,
                            ),
                        }
                    } else {
                        composed_from(
                            bytes,
                            Seq::empty(),
                            buffer,
                            blank,
                            0,
                            declared_frames(animation_frames) as int,
                            true,
                        )
                    };
                    match composed {
                        Ok(composition) => Ok(
                            compositor::composed_image(composition, icc_profile, format_name),
                        ),
                        Err(error) => Err(error),
                    }
                },
            }
        },
    }
}

/// The bytes are read, and their canvas has pixels: memory is asked for.
pub open spec fn asks_for_memory(bytes: Seq<u8>) -> bool {
    png_refusal(bytes, true, usize::MAX) is None && png_information(bytes).0 > 0 && png_information(
        bytes,
    ).1 > 0
}

/// The bytes are read as far as their first frame, before which a cancellation is looked for.
pub open spec fn reaches_frames(bytes: Seq<u8>) -> bool {
    let (width, height, _, animation_frames) = png_information(bytes);
    &&& png_refusal(bytes, true, usize::MAX) is None
    &&& compositor::canvas_bytes(width, height) <= pixels::MAXIMUM_ANIMATION_FRAMES_BYTES
    &&& png_buffer_size(bytes, usize::MAX) is Some
    &&& declared_frames(animation_frames) > 0
}

/// What a decode ended in.
pub open spec fn outcome(result: Result<DecodedImage, DecodeError>) -> Result<
    ImageModel,
    ErrorModel,
> {
    match result {
        Ok(image) => Ok(image@),
        Err(error) => Err(error@),
    }
}

fn is_raised(cancellation: &AtomicBool) -> bool {
    cancellation.load(std::sync::atomic::Ordering::Relaxed)
}

/// Puts a frame that was read on the canvas.
pub fn add_read_frame(
    compositor: &mut FrameCompositor,
    control: FrameControl,
    color_type: ColorType,
    read: &[u8],
    region_pixels: &mut Vec<u8>,
) -> (added: Result<(), DecodeError>)
    requires
        old(compositor)@.sound(),
        control.width * control.height * 4 <= usize::MAX,
        control.width * control.height * color_type.converted_bytes() <= read@.len(),
    ensures
        match added {
            Ok(_) => with_read_frame(old(compositor)@, control, color_type, read@) == Ok::<
                CompositionModel,
                ErrorModel,
            >(final(compositor)@) && final(compositor)@.sound(),
            Err(error) => with_read_frame(old(compositor)@, control, color_type, read@) == Err::<
                CompositionModel,
                ErrorModel,
            >(error@),
        },
{
    match pixels_to_premultiplied_bgra_into(
        read,
        color_type,
        control.width,
        control.height,
        region_pixels,
    ) {
        Ok(_) => {},
        Err(error) => {
            return Err(error);
        },
    }
    let region = FrameRegion {
        pixels: region_pixels.as_slice(),
        left: control.x_offset,
        top: control.y_offset,
        width: control.width,
        height: control.height,
        blend: control.blend,
        disposal: control.disposal,
        delay_milliseconds: frame_delay(control.delay_num, control.delay_den),
    };
    proof {
        assert(0 <= control.width * control.height) by (nonlinear_arith);
        assert(region@ =~= placed(control, color_type, read@));
        compositor::lemma_region_is_held(compositor@, region@);
    }
    compositor.add_frame(region);
    Ok(())
}

/// The reader and the canvas belong together, the frame ahead is the one to compose, and the buffer is no
/// longer than what was asked for at opening.
pub open spec fn ready(
    reader: PngReader,
    composition: CompositionModel,
    buffer: Seq<u8>,
    index: int,
    image_is_first: bool,
) -> bool {
    let bytes = bytes_behind(reader);
    let calls = calls_answered(reader);
    &&& composition.sound()
    &&& composition.width == png_information(bytes).0
    &&& composition.height == png_information(bytes).1
    &&& if index == 0 && image_is_first {
        calls.len() == 0
    } else {
        calls.len() > 0 && calls.last()
    }
    &&& png_buffer_size(bytes, usize::MAX) matches Some(size) && buffer.len() <= size
}

/// Reads and composes one frame, unless a cancellation is raised; says whether to go on with the next one.
/// The count an animation declares is untrusted, so the budget runs frame by frame.
pub fn compose_frame(
    reader: &mut PngReader,
    compositor: &mut FrameCompositor,
    buffer: &mut Vec<u8>,
    index: u32,
    count: u32,
    image_is_first: bool,
    raised: bool,
) -> (step: Result<bool, DecodeError>)
    requires
        index < count,
        ready(*old(reader), old(compositor)@, old(buffer)@, index as int, image_is_first),
    ensures
        raised ==> (step matches Err(error) && error@ == image::cancelled_error()),
        !raised ==> ({
            let wanted = composed_from(
                bytes_behind(*old(reader)),
                calls_answered(*old(reader)),
                old(buffer)@,
                old(compositor)@,
                index as int,
                count as int,
                image_is_first,
            );
            match step {
                Ok(true) => bytes_behind(*final(reader)) == bytes_behind(*old(reader)) && ready(
                    *final(reader),
                    final(compositor)@,
                    final(buffer)@,
                    index + 1,
                    image_is_first,
                ) && wanted == composed_from(
                    bytes_behind(*final(reader)),
                    calls_answered(*final(reader)),
                    final(buffer)@,
                    final(compositor)@,
                    index + 1,
                    count as int,
                    image_is_first,
                ),
                Ok(false) => wanted == Ok::<CompositionModel, ErrorModel>(final(compositor)@),
                Err(error) => wanted == Err::<CompositionModel, ErrorModel>(error@),
            }
        }),
{
    if raised {
        return Err(DecodeError::cancelled());
    }
    let ghost before = compositor@;
    if !compositor.accepts_one_more() {
        return Ok(false);
    }
    assert(compositor@ =~= before);
    if !(index == 0 && image_is_first) {
        match reader.advance() {
            Ok(_) => {},
            Err(reason) => {
                return Err(uncoded_error(reason.as_str()));
            },
        }
    }
    let control = match reader.control() {
        Some(control) => control,
        None => FrameControl {
            width: compositor.width,
            height: compositor.height,
            x_offset: 0,
            y_offset: 0,
            delay_num: 1,
            delay_den: 30,
            disposal: FrameDisposal::Keep,
            blend: FrameBlend::Replace,
        },
    };
    let frame = match reader.read_frame(buffer) {
        Ok(frame) => frame,
        Err(reason) => {
            return Err(uncoded_error(reason.as_str()));
        },
    };
    proof {
        assert(control.width * control.height <= compositor.width * compositor.height)
            by (nonlinear_arith)
            requires
                control.width <= compositor.width,
                control.height <= compositor.height,
        ;
        assert(control.width * control.height * frame.color_type.converted_bytes()
            <= control.width * control.height * frame.color_type.samples()) by (nonlinear_arith)
            requires
                frame.color_type.converted_bytes() <= frame.color_type.samples(),
                0 <= control.width * control.height,
        ;
    }
    let mut region_pixels: Vec<u8> = Vec::new();
    match add_read_frame(
        compositor,
        control,
        frame.color_type,
        buffer.as_slice(),
        &mut region_pixels,
    ) {
        Ok(_) => Ok(true),
        Err(error) => Err(error),
    }
}

/// Reads and composes the frames of an animation, looking for a cancellation before each.
fn compose_frames(
    reader: &mut PngReader,
    compositor: FrameCompositor,
    buffer: &mut Vec<u8>,
    count: u32,
    image_is_first: bool,
    cancellation: &AtomicBool,
) -> (composed: Result<FrameCompositor, DecodeError>)
    requires
        ready(*old(reader), compositor@, old(buffer)@, 0, image_is_first),
    ensures
        ({
            let wanted = composed_from(
                bytes_behind(*old(reader)),
                calls_answered(*old(reader)),
                old(buffer)@,
                compositor@,
                0,
                count as int,
                image_is_first,
            );
            match composed {
                Ok(whole) => wanted == Ok::<CompositionModel, ErrorModel>(whole@),
                Err(error) => wanted == Err::<CompositionModel, ErrorModel>(error@) || (count > 0
                    && error@ == image::cancelled_error()),
            }
        }),
{
    let ghost wanted = composed_from(
        bytes_behind(*reader),
        calls_answered(*reader),
        buffer@,
        compositor@,
        0,
        count as int,
        image_is_first,
    );
    let mut work = compositor;
    let mut index: u32 = 0;
    while index < count
        invariant
            index <= count,
            ready(*reader, work@, buffer@, index as int, image_is_first),
            wanted == composed_from(
                bytes_behind(*reader),
                calls_answered(*reader),
                buffer@,
                work@,
                index as int,
                count as int,
                image_is_first,
            ),
            wanted == composed_from(
                bytes_behind(*old(reader)),
                calls_answered(*old(reader)),
                old(buffer)@,
                compositor@,
                0,
                count as int,
                image_is_first,
            ),
        decreases count - index,
    {
        match compose_frame(
            reader,
            &mut work,
            buffer,
            index,
            count,
            image_is_first,
            is_raised(cancellation),
        ) {
            Ok(true) => {},
            Ok(false) => {
                return Ok(work);
            },
            Err(error) => {
                return Err(error);
            },
        }
        index += 1;
    }
    Ok(work)
}

/// Decodes an animated PNG. Whether it is cancelled between frames, and whether the machine has the memory
/// for a canvas with pixels, is not the bytes' to say.
pub fn decode_apng(bytes: Vec<u8>, format_name: &'static str, cancellation: &AtomicBool) -> (result:
    Result<DecodedImage, DecodeError>)
    ensures
        outcome(result) == decoded(bytes@, format_name@) || (reaches_frames(bytes@) && outcome(result)
            == Err::<ImageModel, ErrorModel>(image::cancelled_error())) || (asks_for_memory(bytes@)
            && outcome(result) == Err::<ImageModel, ErrorModel>(canvas_refusal())),
{
    let ghost whole = bytes@;
    let mut reader = match PngReader::open(bytes) {
        Ok(reader) => reader,
        Err(reason) => {
            return Err(uncoded_error(reason.as_str()));
        },
    };
    let information = reader.information();
    // Untrusted size: an over-budget canvas is refused, which bounds the frame buffer.
    let compositor = match FrameCompositor::new(information.width, information.height) {
        Some(compositor) => compositor,
        None => {
            return Err(uncoded_error("APNG canvas is too large to decode"));
        },
    };
    assert(calls_answered(reader) =~= Seq::empty());
    let first_is_frame: bool = reader.control().is_some();
    let size: usize = match reader.buffer_size() {
        Some(size) => size,
        None => {
            return Err(uncoded_error("APNG output buffer size overflow"));
        },
    };
    let mut buffer: Vec<u8> = Vec::new();
    buffer.resize(size, 0);
    assert(buffer@ =~= Seq::new(size as nat, |index: int| 0u8));
    let image_is_first: bool = information.animation_frames.is_none() || first_is_frame;
    if !image_is_first {
        match reader.read_frame(&mut buffer) {
            Ok(_) => {},
            Err(reason) => {
                return Err(uncoded_error(reason.as_str()));
            },
        }
    }
    let count: u32 = match information.animation_frames {
        Some(count) => count,
        None => 1,
    };
    match compose_frames(
        &mut reader,
        compositor,
        &mut buffer,
        count,
        image_is_first,
        cancellation,
    ) {
        Ok(composed) => Ok(finish_animation(composed, information.icc_profile, format_name)),
        Err(error) => Err(error),
    }
}

} // verus!
