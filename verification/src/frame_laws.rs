//! What frames look like, pixel by pixel.

use vstd::prelude::*;

use crate::apng;
use crate::apng::FrameControl;
use crate::bundled;
use crate::bundled::WebPFrame;
use crate::compositor;
use crate::compositor::{CompositionModel, FrameBlend, FrameDisposal, RegionModel};
use crate::decode;
use crate::decode::Turn;
use crate::gif;
use crate::gif::FrameMetadata;
use crate::pixels;
use crate::pixels::ColorType;
use crate::weight;

verus! {

/// Where a channel of the pixel in column `x` of row `y` stands in rows of this many pixels.
pub open spec fn byte_of(row_length: int, x: int, y: int, channel: int) -> int {
    (y * row_length + x) * 4 + channel
}

proof fn lemma_byte_belongs_to_its_pixel(width: int, height: int, x: int, y: int, channel: int)
    requires
        0 <= x < width,
        0 <= y < height,
        0 <= channel < 4,
    ensures
        0 <= byte_of(width, x, y, channel) < width * height * 4,
        byte_of(width, x, y, channel) / 4 == y * width + x,
        byte_of(width, x, y, channel) % 4 == channel,
        pixels::column(width, byte_of(width, x, y, channel)) == x,
        pixels::row_of(width, byte_of(width, x, y, channel)) == y,
{
    let index = byte_of(width, x, y, channel);
    vstd::arithmetic::div_mod::lemma_fundamental_div_mod_converse(
        index,
        4,
        y * width + x,
        channel,
    );
    vstd::arithmetic::div_mod::lemma_fundamental_div_mod_converse(y * width + x, width, y, x);
    assert(y * width + x < width * height) by (nonlinear_arith)
        requires
            0 <= x < width,
            0 <= y < height,
    ;
    assert(0 <= y * width) by (nonlinear_arith)
        requires
            0 <= x < width,
            0 <= y,
    ;
}

/// Disposing of a frame to the background clears exactly the rectangle the frame lay on: a pixel
/// from `left` to `left + width` and from `top` to `top + height` is transparent black, and every
/// other pixel stays as the frame showed it. Keeping a frame leaves what it showed, and restoring
/// the previous canvas leaves what was there before.
pub proof fn lemma_disposal_clears_the_region_alone(
    composition: CompositionModel,
    region: RegionModel,
    x: int,
    y: int,
    channel: int,
)
    requires
        composition.sound(),
        0 <= x < composition.width,
        0 <= y < composition.height,
        0 <= channel < 4,
    ensures
        ({
            let after = composition.with_frame(region);
            let shown = after.frames[composition.frames.len() as int].pixels;
            let place = (y * composition.width + x) * 4 + channel;
            &&& after.canvas.len() == composition.width * composition.height * 4
            &&& region.disposal == FrameDisposal::Background ==> after.canvas[place] == if region.left
                <= x < region.left + region.width && region.top <= y < region.top + region.height {
                0u8
            } else {
                shown[place]
            }
            &&& region.disposal == FrameDisposal::Keep ==> after.canvas[place] == shown[place]
            &&& region.disposal == FrameDisposal::Previous ==> after.canvas[place]
                == composition.canvas[place]
        }),
{
    lemma_byte_belongs_to_its_pixel(
        composition.width as int,
        composition.height as int,
        x,
        y,
        channel,
    );
}

/// A frame shows nothing outside its rectangle but what was on the canvas, and inside it its own
/// pixel, row by row from its top left corner: in place of the canvas, or over it.
pub proof fn lemma_frame_shows_in_its_place(
    composition: CompositionModel,
    region: RegionModel,
    x: int,
    y: int,
    channel: int,
)
    requires
        composition.sound(),
        region.pixels.len() == region.width * region.height * 4,
        0 <= x < composition.width,
        0 <= y < composition.height,
        0 <= channel < 4,
    ensures
        ({
            let after = composition.with_frame(region);
            let shown = after.frames[composition.frames.len() as int].pixels;
            let place = (y * composition.width + x) * 4 + channel;
            let own = ((y - region.top) * region.width + (x - region.left)) * 4;
            let covered = region.left <= x < region.left + region.width && region.top <= y
                < region.top + region.height;
            &&& shown.len() == composition.width * composition.height * 4
            &&& !covered ==> shown[place] == composition.canvas[place]
            &&& covered ==> 0 <= own && own + 4 <= region.pixels.len()
            &&& covered && region.blend == FrameBlend::Replace ==> shown[place]
                == region.pixels[own + channel]
            &&& covered && region.blend == FrameBlend::Over ==> {
                let source = region.pixels[own + channel] as int;
                let behind = composition.canvas[place] as int;
                let alpha = region.pixels[own + 3] as int;
                let exact = 255 * source + behind * (255 - alpha);
                let result = shown[place] as int;
                &&& result < 255 ==> -255 <= 2 * (255 * result - exact) <= 255
                &&& result == 255 ==> 2 * (255 * 255 - exact) <= 255
                &&& alpha == 255 ==> result == source
                &&& alpha == 0 && source == 0 ==> result == behind
            }
        }),
{
    lemma_byte_belongs_to_its_pixel(
        composition.width as int,
        composition.height as int,
        x,
        y,
        channel,
    );
    let place = (y * composition.width + x) * 4 + channel;
    let own = ((y - region.top) * region.width + (x - region.left)) * 4;
    let after = composition.with_frame(region);
    assert(after.frames[composition.frames.len() as int].pixels == composition.composed(region));
    if region.left <= x < region.left + region.width && region.top <= y < region.top
        + region.height {
        lemma_byte_belongs_to_its_pixel(
            region.width as int,
            region.height as int,
            x - region.left,
            y - region.top,
            channel,
        );
        lemma_byte_belongs_to_its_pixel(
            region.width as int,
            region.height as int,
            x - region.left,
            y - region.top,
            3,
        );
        lemma_byte_belongs_to_its_pixel(
            region.width as int,
            region.height as int,
            x - region.left,
            y - region.top,
            0,
        );
        assert(pixels::source_index(
            composition.width as int,
            region.width as int,
            region.left as int,
            region.top as int,
            place,
        ) == own + channel);
        lemma_over_rounds_to_nearest(
            region.pixels[own + channel],
            composition.canvas[place],
            region.pixels[own + 3],
        );
    }
}

/// One channel laid over another is the nearest whole number to the source plus what shows
/// through of the canvas, as far as a byte holds it: an opaque source hides the canvas, and a
/// clear one leaves it.
pub proof fn lemma_over_rounds_to_nearest(source: u8, behind: u8, alpha: u8)
    ensures
        ({
            let exact = 255 * source + behind * (255 - alpha);
            let result = pixels::over(source, behind, alpha) as int;
            &&& result < 255 ==> -255 <= 2 * (255 * result - exact) <= 255
            &&& result == 255 ==> 2 * (255 * 255 - exact) <= 255
            &&& source <= result
            &&& alpha == 255 ==> result == source
            &&& alpha == 0 && source == 0 ==> result == behind
        }),
{
    let through = behind * (255 - alpha);
    assert(0 <= through) by (nonlinear_arith)
        requires
            through == behind * (255 - alpha),
            0 <= alpha <= 255,
            0 <= behind,
    ;
    assert(alpha == 255 ==> through == 0) by (nonlinear_arith)
        requires
            through == behind * (255 - alpha),
    ;
    assert(alpha == 0 ==> through == 255 * behind) by (nonlinear_arith)
        requires
            through == behind * (255 - alpha),
    ;
}

/// Composing a frame adds that frame at the end, for as long as it asks to show, and changes
/// neither the frames before it nor the size of the canvas.
pub proof fn lemma_frame_joins_the_others(composition: CompositionModel, region: RegionModel)
    ensures
        composition.with_frame(region).frames.len() == composition.frames.len() + 1,
        forall|index: int|
            0 <= index < composition.frames.len() ==> #[trigger] composition.with_frame(
                region,
            ).frames[index] == composition.frames[index],
        composition.with_frame(region).frames.last().delay_milliseconds
            == region.delay_milliseconds,
        composition.with_frame(region).width == composition.width,
        composition.with_frame(region).height == composition.height,
        composition.with_frame(region).truncated == composition.truncated,
{
}

/// An animation is cut short exactly where its frames would take more than a gibibyte, and then
/// keeps its first frame alone.
pub proof fn lemma_budget_cuts_to_one_frame(composition: CompositionModel, declared_frames: int)
    requires
        composition.sound(),
        !composition.truncated,
        composition.frames.len() > 0,
    ensures
        composition.asked(declared_frames).truncated <==> declared_frames * (composition.width
            * composition.height * 4) > 1024 * 1024 * 1024,
        composition.asked(declared_frames).truncated
            ==> composition.asked(declared_frames).kept_frames().len() == 1
            && composition.asked(declared_frames).kept_frames()[0] == composition.frames[0],
        !composition.asked(declared_frames).truncated
            ==> composition.asked(declared_frames).kept_frames() == composition.frames,
{
}

/// The image of a composed animation is as large as its canvas and shows the frames that were
/// kept, in 8 bits.
pub proof fn lemma_composed_image_is_its_canvas(
    composition: CompositionModel,
    icc_profile: Option<Seq<u8>>,
    format_name: Seq<char>,
)
    requires
        composition.sound(),
    ensures
        ({
            let image = compositor::composed_image(composition, icc_profile, format_name);
            &&& image.width == composition.width && image.pixel_width == composition.width
            &&& image.height == composition.height && image.pixel_height == composition.height
            &&& image.icc_profile == icc_profile
            &&& image.format_name == format_name
            &&& image.source_bits_per_channel == 8
            &&& image.frames_truncated == composition.truncated
            &&& image.frames.len() <= composition.frames.len()
            &&& forall|index: int|
                0 <= index < image.frames.len() ==> #[trigger] image.frames[index]
                    == composition.frames[index] && image.frames[index].pixels.len()
                    == image.pixel_width * image.pixel_height * 4
        }),
{
}

/// A GIF frame is laid over the canvas where its metadata says, at the corner where it says
/// nothing; ten milliseconds show for every hundredth it asks for, but a tenth of a second where it
/// asks for less than two.
pub proof fn lemma_gif_frame_is_placed_as_declared(
    metadata: FrameMetadata,
    pixels: Seq<u8>,
    width: u32,
    height: u32,
)
    ensures
        ({
            let region = gif::placed(metadata, pixels, width, height);
            &&& region.pixels == pixels
            &&& region.width == width
            &&& region.height == height
            &&& metadata.left matches Some(left) ==> region.left == left
            &&& metadata.top matches Some(top) ==> region.top == top
            &&& metadata.left is None ==> region.left == 0
            &&& metadata.top is None ==> region.top == 0
            &&& region.blend == FrameBlend::Over
            &&& metadata.delay_centiseconds is None ==> region.delay_milliseconds == 100
            &&& metadata.delay_centiseconds matches Some(count) ==> {
                &&& count < 2 ==> region.delay_milliseconds == 100
                &&& 2 <= count <= 0xFFFF ==> region.delay_milliseconds == count * 10
            }
        }),
        gif::placed(metadata, pixels, width, height).disposal == FrameDisposal::Background
            <==> metadata.disposal == Some(2u32),
        gif::placed(metadata, pixels, width, height).disposal == FrameDisposal::Previous
            <==> metadata.disposal == Some(3u32),
{
}

/// An animated PNG's frame shows for its fraction of a second, rounded down to the millisecond,
/// a denominator of zero counting hundredths; none shows for less than ten milliseconds.
pub proof fn lemma_apng_delay_is_its_fraction(delay_num: u16, delay_den: u16)
    ensures
        ({
            let delay = apng::delay_of(delay_num, delay_den) as int;
            let parts = if delay_den == 0 {
                100
            } else {
                delay_den as int
            };
            &&& delay >= 10
            &&& delay > 10 ==> delay * parts <= delay_num * 1000
            &&& delay_num * 1000 < (delay + 1) * parts
        }),
{
    let parts = if delay_den == 0 {
        100
    } else {
        delay_den as int
    };
    let whole = delay_num * 1000 / parts;
    vstd::arithmetic::div_mod::lemma_fundamental_div_mod(delay_num * 1000, parts);
    vstd::arithmetic::div_mod::lemma_mod_bound(delay_num * 1000, parts);
    assert(0 <= whole <= delay_num * 1000) by (nonlinear_arith)
        requires
            whole == delay_num * 1000 / parts,
            1 <= parts,
            0 <= delay_num,
    ;
    let delay = apng::delay_of(delay_num, delay_den) as int;
    assert(whole * parts <= delay_num * 1000 < (whole + 1) * parts) by (nonlinear_arith)
        requires
            delay_num * 1000 == parts * whole + delay_num * 1000 % parts,
            0 <= delay_num * 1000 % parts < parts,
    ;
    assert((whole + 1) * parts <= (delay + 1) * parts) by (nonlinear_arith)
        requires
            whole <= delay,
            1 <= parts,
    ;
}

/// An animated PNG's frame lies where its control says, as large, blended and disposed of as its
/// control says.
pub proof fn lemma_apng_frame_is_placed_as_declared(
    control: FrameControl,
    color: ColorType,
    read: Seq<u8>,
)
    ensures
        ({
            let region = apng::placed(control, color, read);
            &&& region.left == control.x_offset
            &&& region.top == control.y_offset
            &&& region.width == control.width
            &&& region.height == control.height
            &&& region.blend == control.blend
            &&& region.disposal == control.disposal
            &&& region.delay_milliseconds == apng::delay_of(control.delay_num, control.delay_den)
            &&& region.pixels.len() == control.width * control.height * 4
        }),
{
    assert(0 <= control.width * control.height) by (nonlinear_arith);
}

/// A channel premultiplied by its alpha is the exact product, rounded down: an opaque pixel keeps
/// it, a clear one loses it.
pub proof fn lemma_premultiplied_channel_is_the_product(value: u8, alpha: u8)
    ensures
        255 * pixels::premultiplied(value, alpha) <= value * alpha < 255 * (pixels::premultiplied(
            value,
            alpha,
        ) + 1),
        pixels::premultiplied(value, alpha) <= alpha,
        alpha == 255 ==> pixels::premultiplied(value, alpha) == value,
        alpha == 0 ==> pixels::premultiplied(value, alpha) == 0,
{
    assert(0 <= value * alpha <= 255 * alpha && value * alpha <= 255 * 255) by (nonlinear_arith)
        requires
            0 <= value <= 255,
            0 <= alpha <= 255,
    ;
    assert(alpha == 255 ==> value * alpha == 255 * value) by (nonlinear_arith);
    assert(alpha == 0 ==> value * alpha == 0) by (nonlinear_arith);
}

/// Converting turns red, green and blue round: the first byte of a pixel is its blue, the third
/// its red, the fourth its alpha, and the colors are premultiplied. A pixel without alpha is
/// opaque.
pub proof fn lemma_conversion_turns_the_channels_round(
    source: Seq<u8>,
    color: ColorType,
    count: int,
    pixel: int,
)
    requires
        0 <= pixel < count,
    ensures
        ({
            let result = pixels::converted(source, color, count);
            let red = result[pixel * 4 + 2];
            let green = result[pixel * 4 + 1];
            let blue = result[pixel * 4];
            let alpha = result[pixel * 4 + 3];
            &&& result.len() == count * 4
            &&& color == ColorType::Rgba ==> {
                &&& alpha == source[pixel * 4 + 3]
                &&& 255 * red <= source[pixel * 4] * alpha < 255 * (red + 1)
                &&& 255 * green <= source[pixel * 4 + 1] * alpha < 255 * (green + 1)
                &&& 255 * blue <= source[pixel * 4 + 2] * alpha < 255 * (blue + 1)
            }
            &&& color == ColorType::Rgb ==> {
                &&& alpha == 255
                &&& red == source[pixel * 3]
                &&& green == source[pixel * 3 + 1]
                &&& blue == source[pixel * 3 + 2]
            }
        }),
{
    lemma_premultiplied_channel_is_the_product(source[pixel * 4], source[pixel * 4 + 3]);
    lemma_premultiplied_channel_is_the_product(source[pixel * 4 + 1], source[pixel * 4 + 3]);
    lemma_premultiplied_channel_is_the_product(source[pixel * 4 + 2], source[pixel * 4 + 3]);
}

/// Premultiplying in place scales each color of a whole pixel by that pixel's own alpha, and keeps
/// the alpha and whatever is left over behind the last whole pixel.
pub proof fn lemma_premultiplying_scales_each_color(source: Seq<u8>, index: int)
    requires
        0 <= index < source.len(),
    ensures
        ({
            let result = bundled::premultiplied_bgra(source);
            let pixel = index / 4;
            &&& result.len() == source.len()
            &&& index % 4 == 3 || pixel * 4 + 3 >= source.len() ==> result[index] == source[index]
            &&& index % 4 != 3 && pixel * 4 + 3 < source.len() ==> 255 * result[index]
                <= source[index] * source[pixel * 4 + 3] < 255 * (result[index] + 1)
        }),
{
    if index / 4 * 4 + 3 < source.len() {
        lemma_premultiplied_channel_is_the_product(source[index], source[index / 4 * 4 + 3]);
    }
}

/// A WebP frame lies where its container says and shows for as long as it says, a tenth of a second
/// where it says nothing; it is disposed of to the background or kept, never to what was before.
pub proof fn lemma_webp_frame_is_placed_as_declared(frame: WebPFrame, source: Seq<u8>)
    ensures
        ({
            let region = bundled::webp_region(frame, source);
            &&& frame.x_offset >= 0 ==> region.left == frame.x_offset
            &&& frame.y_offset >= 0 ==> region.top == frame.y_offset
            &&& frame.width >= 0 ==> region.width == frame.width
            &&& frame.height >= 0 ==> region.height == frame.height
            &&& frame.x_offset < 0 ==> region.left == 0
            &&& frame.y_offset < 0 ==> region.top == 0
            &&& frame.width < 0 ==> region.width == 0
            &&& frame.height < 0 ==> region.height == 0
            &&& region.pixels.len() == source.len()
            &&& frame.duration_milliseconds > 0 ==> region.delay_milliseconds
                == frame.duration_milliseconds
            &&& frame.duration_milliseconds <= 0 ==> region.delay_milliseconds == 100
            &&& region.disposal != FrameDisposal::Previous
            &&& region.disposal == FrameDisposal::Background <==> frame.dispose_method == 1
            &&& region.blend == FrameBlend::Replace <==> frame.blend_method == 1
        }),
{
}

/// A frame of a sequence shows for its ticks, rounded down to the millisecond: a tenth of a second
/// where that comes to nothing or there is no clock, and no longer than the counter holds.
pub proof fn lemma_sequence_delay_is_its_ticks(duration_ticks: u32, timescale: u32)
    ensures
        ({
            let delay = bundled::sequence_delay(duration_ticks, timescale) as int;
            let thousandfold = duration_ticks * 1000;
            &&& delay > 0
            &&& timescale == 0 || thousandfold < timescale ==> delay == 100
            &&& timescale > 0 && thousandfold >= timescale ==> delay * timescale <= thousandfold
            &&& timescale > 0 && thousandfold >= timescale && delay < u32::MAX ==> thousandfold < (
            delay + 1) * timescale
        }),
{
    if timescale > 0 {
        let thousandfold = duration_ticks * 1000;
        let whole = thousandfold / timescale as int;
        vstd::arithmetic::div_mod::lemma_fundamental_div_mod(thousandfold, timescale as int);
        vstd::arithmetic::div_mod::lemma_mod_bound(thousandfold, timescale as int);
        assert(whole * timescale <= thousandfold < (whole + 1) * timescale) by (nonlinear_arith)
            requires
                thousandfold == timescale * whole + thousandfold % (timescale as int),
                0 <= thousandfold % (timescale as int) && thousandfold % (timescale as int) < timescale,
        ;
        assert(whole == 0 <==> thousandfold < timescale) by (nonlinear_arith)
            requires
                whole * timescale <= thousandfold < (whole + 1) * timescale,
                0 <= thousandfold,
                0 < timescale,
        ;
        assert(whole >= 0) by (nonlinear_arith)
            requires
                whole * timescale <= thousandfold < (whole + 1) * timescale,
                0 <= thousandfold,
                0 < timescale,
        ;
        let delay = bundled::sequence_delay(duration_ticks, timescale) as int;
        if whole > 0 {
            assert(delay * timescale <= whole * timescale) by (nonlinear_arith)
                requires
                    delay <= whole,
                    0 < timescale,
            ;
        }
    }
}

/// A frame of a sequence replaces the whole canvas and stays.
pub proof fn lemma_sequence_frame_fills_the_canvas(
    composition: CompositionModel,
    pixels: Seq<u8>,
    duration_ticks: u32,
    timescale: u32,
)
    requires
        composition.sound(),
        pixels.len() == composition.width * composition.height * 4,
    ensures
        ({
            let region = bundled::sequence_region(composition, pixels, duration_ticks, timescale);
            let after = composition.with_frame(region);
            &&& after.frames.last().pixels == pixels
            &&& after.canvas == pixels
            &&& after.frames.last().delay_milliseconds == bundled::sequence_delay(
                duration_ticks,
                timescale,
            )
        }),
{
    let region = bundled::sequence_region(composition, pixels, duration_ticks, timescale);
    let after = composition.with_frame(region);
    let width = composition.width as int;
    assert forall|index: int| 0 <= index < pixels.len() implies #[trigger] after.canvas[index]
        == pixels[index] && after.frames.last().pixels[index] == pixels[index] by {
        let pixel = index / 4;
        let y = pixel / width;
        let x = pixel % width;
        assert(0 < width) by (nonlinear_arith)
            requires
                index < width * composition.height * 4,
                0 <= index,
                0 <= width,
        ;
        vstd::arithmetic::div_mod::lemma_fundamental_div_mod(pixel, width);
        vstd::arithmetic::div_mod::lemma_mod_bound(pixel, width);
        assert(0 <= y < composition.height) by (nonlinear_arith)
            requires
                pixel == width * y + x,
                0 <= x < width,
                0 <= pixel < width * composition.height,
        ;
        assert(pixel == y * width + x) by (nonlinear_arith)
            requires
                pixel == width * y + x,
        ;
        lemma_frame_shows_in_its_place(composition, region, x, y, index % 4);
        lemma_disposal_clears_the_region_alone(composition, region, x, y, index % 4);
    }
    assert(after.canvas =~= pixels);
    assert(after.frames.last().pixels =~= pixels);
}

/// Where a pixel comes to lie once the image was turned clockwise by this many quarters.
pub open spec fn turned_clockwise(quarters: nat, width: int, height: int, x: int, y: int) -> (
    int,
    int,
)
    decreases quarters,
{
    if quarters == 0 {
        (x, y)
    } else {
        turned_clockwise((quarters - 1) as nat, height, width, height - 1 - y, x)
    }
}

/// Where a turn brings a pixel: the quarters first, the mirrors of what they leave after them.
pub open spec fn brought_to(turn: Option<Turn>, width: int, height: int, x: int, y: int) -> (
    int,
    int,
) {
    match turn {
        None => (x, y),
        Some(found) => {
            let (column, row) = turned_clockwise(found.quarter_turns as nat, width, height, x, y);
            let (columns, rows) = if found.quarter_turns % 2 == 1 {
                (height, width)
            } else {
                (width, height)
            };
            (
                if found.flip_horizontal {
                    columns - 1 - column
                } else {
                    column
                },
                if found.flip_vertical {
                    rows - 1 - row
                } else {
                    row
                },
            )
        },
    }
}

/// The turn for an orientation brings the stored pixel to where the orientation says it belongs:
/// its first row to the side, and its first column to the side, that the number stands for. The
/// odd one out mirrors once, the rotations never.
pub proof fn lemma_turn_brings_pixels_upright(
    orientation: u32,
    width: int,
    height: int,
    x: int,
    y: int,
)
    ensures
        ({
            let shown = brought_to(decode::turn_of(orientation), width, height, x, y);
            &&& orientation <= 1 || orientation > 8 ==> shown == (x, y)
            &&& orientation == 2 ==> shown == (width - 1 - x, y)
            &&& orientation == 3 ==> shown == (width - 1 - x, height - 1 - y)
            &&& orientation == 4 ==> shown == (x, height - 1 - y)
            &&& orientation == 5 ==> shown == (y, x)
            &&& orientation == 6 ==> shown == (height - 1 - y, x)
            &&& orientation == 7 ==> shown == (height - 1 - y, width - 1 - x)
            &&& orientation == 8 ==> shown == (y, width - 1 - x)
        }),
        decode::turn_of(orientation) matches Some(turn) ==> {
            &&& turn.quarter_turns < 4
            &&& (turn.flip_horizontal != turn.flip_vertical) <==> (orientation == 2 || orientation
                == 4 || orientation == 5 || orientation == 7)
            &&& !(turn.flip_horizontal && turn.flip_vertical)
            &&& turn.quarter_turns % 2 == 1 <==> orientation >= 5
        },
        decode::turn_of(orientation) is Some <==> 2 <= orientation <= 8,
{
    reveal_with_fuel(turned_clockwise, 4);
}

/// An image within the texture limit keeps its size; a larger one is scaled so that its longer side
/// meets the limit and its shorter side is in proportion, rounded down, but a pixel at least.
pub proof fn lemma_limited_size_keeps_proportions(width: int, height: int)
    requires
        0 < width,
        0 < height,
    ensures
        ({
            let (limited_width, limited_height) = weight::limited_size(width, height);
            &&& width <= 16384 && height <= 16384 ==> limited_width == width && limited_height
                == height
            &&& width > 16384 && width >= height ==> {
                &&& limited_width == 16384
                &&& 1 <= limited_height
                &&& height * 16384 < (limited_height + 1) * width
                &&& limited_height > 1 ==> limited_height * width <= height * 16384
            }
            &&& height > 16384 && height >= width ==> {
                &&& limited_height == 16384
                &&& 1 <= limited_width
                &&& width * 16384 < (limited_width + 1) * height
                &&& limited_width > 1 ==> limited_width * height <= width * 16384
            }
        }),
{
    let longest = if width >= height {
        width
    } else {
        height
    };
    lemma_scaled_side(width, longest);
    lemma_scaled_side(height, longest);
}

proof fn lemma_scaled_side(side: int, longest: int)
    requires
        0 < side <= longest,
    ensures
        ({
            let scaled = weight::limited_side(side, longest);
            &&& 1 <= scaled
            &&& side * 16384 < (scaled + 1) * longest
            &&& scaled > 1 ==> scaled * longest <= side * 16384
            &&& side == longest ==> scaled == 16384
        }),
{
    let whole = side * 16384 / longest;
    vstd::arithmetic::div_mod::lemma_fundamental_div_mod(side * 16384, longest);
    vstd::arithmetic::div_mod::lemma_mod_bound(side * 16384, longest);
    assert(whole * longest <= side * 16384 < (whole + 1) * longest) by (nonlinear_arith)
        requires
            side * 16384 == longest * whole + side * 16384 % longest,
            0 <= side * 16384 % longest < longest,
    ;
    assert(side == longest ==> whole == 16384) by (nonlinear_arith)
        requires
            whole * longest <= side * 16384 < (whole + 1) * longest,
            0 < longest,
    ;
    let scaled = weight::limited_side(side, longest);
    assert((whole + 1) * longest <= (scaled + 1) * longest) by (nonlinear_arith)
        requires
            whole <= scaled,
            0 < longest,
    ;
}

/// A still weighs what its pixels take once it is within the texture limit, an animation what all
/// its frames take, or one frame where all would take more than a gibibyte.
pub proof fn lemma_weight_counts_what_is_kept(
    width: u32,
    height: u32,
    bytes_per_pixel: u32,
    frame_count: u64,
)
    ensures
        ({
            let frame = width * height * bytes_per_pixel;
            let weighed = weight::weight(width, height, bytes_per_pixel, frame_count);
            &&& frame_count > 1 && frame_count * frame <= 1024 * 1024 * 1024 ==> weighed
                == frame_count * frame
            &&& frame_count > 1 && frame_count * frame > 1024 * 1024 * 1024 ==> weighed == frame
            &&& frame_count <= 1 && width <= 16384 && height <= 16384 ==> weighed == frame
        }),
{
}

/// An animation has the color profile of its first frame, whatever the later ones bring; a frame is asked
/// for only while there are frames left and nothing calls the reading off, and it is the next one.
pub proof fn lemma_first_profile_stands_for_the_animation(
    reading: gif::ReadingModel,
    region: RegionModel,
    profile: Option<Seq<u8>>,
    cancelled: bool,
)
    ensures
        reading.index == 0 ==> reading.with_frame(region, profile).icc_profile == profile,
        reading.index > 0 ==> reading.with_frame(region, profile).icc_profile == reading.icc_profile,
        reading.step(cancelled) == gif::AnimationStep::Cancelled <==> cancelled && reading.index
            < reading.frame_count,
        reading.index >= reading.frame_count ==> reading.step(cancelled) == gif::AnimationStep::Finish,
        reading.step(cancelled) matches gif::AnimationStep::Read(asked) ==> asked == reading.index
            && !cancelled && reading.index < reading.frame_count,
        reading.index == 0 && reading.composition.frames.len() == 0 && reading.frame_count > 0
            && !cancelled ==> reading.step(cancelled) == gif::AnimationStep::Read(0),
{
}

} // verus!
