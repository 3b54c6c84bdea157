//! Sizes: what a decode weighs, what a texture may be, how work is cut into pieces.

use vstd::prelude::*;

use crate::image::{DecodedImage, ImageModel, UploadDevice};
use crate::pixels;
use crate::pixels::{MAXIMUM_ANIMATION_FRAMES_BYTES, MAXIMUM_TEXTURE_DIMENSION};

verus! {

/// One side scaled so that the longest side meets the texture limit.
pub open spec fn limited_side(side: int, longest: int) -> int {
    let scaled = side * MAXIMUM_TEXTURE_DIMENSION / longest;
    if scaled < 1 {
        1
    } else {
        scaled
    }
}

/// The size that keeps the aspect ratio under the texture limit.
pub open spec fn limited_size(width: int, height: int) -> (int, int) {
    let longest = if width >= height {
        width
    } else {
        height
    };
    if longest <= MAXIMUM_TEXTURE_DIMENSION {
        (width, height)
    } else {
        (limited_side(width, longest), limited_side(height, longest))
    }
}

fn limit_side(side: u32, longest: u32) -> (scaled: u32)
    requires
        side <= longest,
        0 < longest,
    ensures
        scaled == limited_side(side as int, longest as int),
        1 <= scaled <= MAXIMUM_TEXTURE_DIMENSION,
{
    assert(side * MAXIMUM_TEXTURE_DIMENSION <= u64::MAX) by (nonlinear_arith)
        requires
            side <= u32::MAX,
            MAXIMUM_TEXTURE_DIMENSION == 16384,
    ;
    let product: u64 = side as u64 * MAXIMUM_TEXTURE_DIMENSION as u64;
    let scaled: u64 = product / longest as u64;
    assert(scaled <= 16384) by (nonlinear_arith)
        requires
            scaled == product / (longest as u64),
            product == side * 16384,
            side <= longest,
            0 < longest,
    ;
    if scaled < 1 {
        1
    } else {
        scaled as u32
    }
}

/// KeepAspectRatio fit under the texture limit; identity when already within it.
pub fn device_limited_size(width: u32, height: u32) -> (size: (u32, u32))
    ensures
        (size.0 as int, size.1 as int) == limited_size(width as int, height as int),
        size.0 <= MAXIMUM_TEXTURE_DIMENSION,
        size.1 <= MAXIMUM_TEXTURE_DIMENSION,
{
    let longest: u32 = if width >= height {
        width
    } else {
        height
    };
    if longest <= MAXIMUM_TEXTURE_DIMENSION {
        return (width, height);
    }
    (limit_side(width, longest), limit_side(height, longest))
}

/// A limited size is within the limit, and limiting it again changes nothing.
pub proof fn lemma_limited_size_settles(width: int, height: int)
    requires
        0 <= width,
        0 <= height,
    ensures
        limited_size(width, height).0 <= MAXIMUM_TEXTURE_DIMENSION,
        limited_size(width, height).1 <= MAXIMUM_TEXTURE_DIMENSION,
        limited_size(limited_size(width, height).0, limited_size(width, height).1) == limited_size(
            width,
            height,
        ),
        width > 0 ==> limited_size(width, height).0 > 0,
        height > 0 ==> limited_size(width, height).1 > 0,
{
    let longest = if width >= height {
        width
    } else {
        height
    };
    if longest > MAXIMUM_TEXTURE_DIMENSION {
        assert(width * 16384 / longest <= 16384) by (nonlinear_arith)
            requires
                0 <= width <= longest,
                0 < longest,
        ;
        assert(height * 16384 / longest <= 16384) by (nonlinear_arith)
            requires
                0 <= height <= longest,
                0 < longest,
        ;
    }
}

/// Bitmap bytes a full decode produces: a still after the texture limit, an animation at canvas
/// size, as many frames as the budget keeps.
pub open spec fn weight(width: u32, height: u32, bytes_per_pixel: u32, frame_count: u64) -> int {
    let claimed = width * height * bytes_per_pixel;
    if frame_count > 1 {
        if pixels::past_animation_budget(frame_count as int, claimed) {
            claimed
        } else {
            frame_count * claimed
        }
    } else {
        let (limited_width, limited_height) = limited_size(width as int, height as int);
        limited_width * limited_height * bytes_per_pixel
    }
}

/// A weight as far as 64 bits hold it; one that they do not hold fits no budget either way.
pub open spec fn held_weight(bytes: int) -> int {
    if bytes <= u64::MAX {
        bytes
    } else {
        u64::MAX as int
    }
}

/// Bitmap bytes a full decode would produce; submission and eviction budget this number.
pub fn decoded_weight(width: u32, height: u32, bytes_per_pixel: u32, frame_count: u64) -> (bytes:
    u64)
    ensures
        bytes == held_weight(weight(width, height, bytes_per_pixel, frame_count)),
{
    if frame_count > 1 {
        // Animations are never downscaled; the compositor works at canvas size.
        assert(width * height <= u32::MAX * u32::MAX) by (nonlinear_arith)
            requires
                width <= u32::MAX,
                height <= u32::MAX,
        ;
        assert(0 <= width * height) by (nonlinear_arith);
        let area: u64 = width as u64 * height as u64;
        assert(area * bytes_per_pixel <= u64::MAX * u32::MAX) by (nonlinear_arith)
            requires
                area <= u64::MAX,
                bytes_per_pixel <= u32::MAX,
        ;
        let claimed: u128 = area as u128 * bytes_per_pixel as u128;
        assert(claimed == width * height * bytes_per_pixel);
        if claimed > MAXIMUM_ANIMATION_FRAMES_BYTES as u128 {
            assert(frame_count * claimed >= claimed) by (nonlinear_arith)
                requires
                    frame_count >= 1,
                    claimed >= 0,
            ;
            assert(frame_count * (width * height * bytes_per_pixel) == frame_count * claimed);
            return if claimed <= u64::MAX as u128 {
                claimed as u64
            } else {
                u64::MAX
            };
        }
        assert(frame_count * claimed <= u64::MAX * 1073741824) by (nonlinear_arith)
            requires
                frame_count <= u64::MAX,
                claimed <= 1073741824,
        ;
        let whole: u128 = frame_count as u128 * claimed;
        if whole > MAXIMUM_ANIMATION_FRAMES_BYTES as u128 {
            claimed as u64
        } else {
            whole as u64
        }
    } else {
        let (limited_width, limited_height) = device_limited_size(width, height);
        assert(limited_width * limited_height <= 16384 * 16384) by (nonlinear_arith)
            requires
                limited_width <= 16384,
                limited_height <= 16384,
        ;
        let area: u64 = limited_width as u64 * limited_height as u64;
        assert(area * bytes_per_pixel <= 268435456 * u32::MAX) by (nonlinear_arith)
            requires
                area <= 268435456,
                bytes_per_pixel <= u32::MAX,
        ;
        area * bytes_per_pixel as u64
    }
}

/// Three little-endian bytes of a header, one added.
pub open spec fn canvas_side(header: Seq<u8>, offset: int) -> int {
    1 + header[offset] + header[offset + 1] * 0x100 + header[offset + 2] * 0x10000
}

fn read_canvas_side(header: &[u8], offset: usize) -> (side: u32)
    requires
        offset + 3 <= header@.len(),
    ensures
        side == canvas_side(header@, offset as int),
{
    1 + header[offset] as u32 + header[offset + 1] as u32 * 0x100 + header[offset + 2] as u32
        * 0x10000
}

/// What an animated WebP weighs by its VP8X canvas, which sits in the header; counting frames would
/// walk the file.
pub fn probe_webp_weight(header: &[u8]) -> (bytes: Option<u64>)
    ensures
        match bytes {
            Some(weighed) => header@.len() >= 30 && weighed == held_weight(
                weight(
                    canvas_side(header@, 24) as u32,
                    canvas_side(header@, 27) as u32,
                    4,
                    1,
                ),
            ),
            None => header@.len() < 30,
        },
{
    if header.len() < 30 {
        return None;
    }
    Some(decoded_weight(read_canvas_side(header, 24), read_canvas_side(header, 27), 4, 1))
}

/// The size asked of a decoder that scales: a quarter for float sources, half for the rest, or
/// smaller where that is still past the monitor.
pub open spec fn preview_size(width: int, height: int, float_native: bool, monitor: int) -> (int, int) {
    let target = if monitor < MAXIMUM_TEXTURE_DIMENSION {
        monitor
    } else {
        MAXIMUM_TEXTURE_DIMENSION as int
    };
    let longest = if width >= height {
        width
    } else {
        height
    };
    let at_least: int = if float_native {
        4
    } else {
        2
    };
    let needed = (longest + target - 1) / target;
    let divisor = if needed > at_least {
        needed
    } else {
        at_least
    };
    (at_least_one(width / divisor), at_least_one(height / divisor))
}

pub open spec fn at_least_one(value: int) -> int {
    if value < 1 {
        1
    } else {
        value
    }
}

/// Preview request: a quarter for float sources, half for the rest, capped near the monitor's long
/// side.
pub fn subresolution_target_size(width: u32, height: u32, float_native: bool, monitor: u32) -> (size:
    (u32, u32))
    requires
        monitor > 0,
    ensures
        (size.0 as int, size.1 as int) == preview_size(
            width as int,
            height as int,
            float_native,
            monitor as int,
        ),
{
    let target: u32 = if monitor < MAXIMUM_TEXTURE_DIMENSION {
        monitor
    } else {
        MAXIMUM_TEXTURE_DIMENSION
    };
    let longest: u32 = if width >= height {
        width
    } else {
        height
    };
    let at_least: u32 = if float_native {
        4
    } else {
        2
    };
    let needed: u64 = (longest as u64 + target as u64 - 1) / target as u64;
    let divisor: u64 = if needed > at_least as u64 {
        needed
    } else {
        at_least as u64
    };
    let across: u64 = width as u64 / divisor;
    let down: u64 = height as u64 / divisor;
    assert(across <= width && down <= height) by (nonlinear_arith)
        requires
            across == width as u64 / divisor,
            down == height as u64 / divisor,
            divisor >= 1,
    ;
    (
        if across < 1 {
            1
        } else {
            across as u32
        },
        if down < 1 {
            1
        } else {
            down as u32
        },
    )
}

/// The documented D3D11 resource limit: min(max(128, 0.25 x dedicated VRAM), 2048) MB.
pub fn maximum_resource_bytes(dedicated_video_memory: u64) -> (bytes: u64)
    ensures
        bytes == (if dedicated_video_memory / 4 < 134217728 {
            134217728
        } else if dedicated_video_memory / 4 > 2147483648 {
            2147483648
        } else {
            dedicated_video_memory / 4
        }),
{
    let quarter: u64 = dedicated_video_memory / 4;
    if quarter < 134217728 {
        134217728
    } else if quarter > 2147483648 {
        2147483648
    } else {
        quarter
    }
}

/// A still frame whose buffer is as long as its geometry says and that the device takes.
pub open spec fn uploads(device: UploadDevice, image: ImageModel) -> bool {
    &&& image.frames.len() == 1
    &&& image.frames[0].pixels.len() == image.frame_byte_length()
    &&& image.frames[0].pixels.len() <= device.maximum_frame_bytes
}

/// Whether a worker uploads the image; what it does not upload is left to the window's own upload.
pub fn uploads_still(upload_device: &UploadDevice, image: &DecodedImage) -> (uploaded: bool)
    requires
        image@.addressable(),
    ensures
        uploaded == uploads(*upload_device, image@),
{
    assert(image@.frames.len() == image.frames@.len());
    if image.frames.len() != 1 {
        return false;
    }
    assert(image@.frames[0] == image.frames@[0]@);
    let length = image.frames[0].pixels.len();
    length == image.frame_byte_length() && length as u64 <= upload_device.maximum_frame_bytes
}

/// Pixels per worker block; smaller buffers stay on one thread.
pub const PARALLEL_BLOCK_MINIMUM_PIXELS: usize = 262144;

/// How many blocks a buffer of this many pixels is cut into: one per core at most, none smaller
/// than the minimum, one at least.
pub open spec fn block_count(pixel_count: int, cores: int) -> int {
    let worthwhile = pixel_count / PARALLEL_BLOCK_MINIMUM_PIXELS as int;
    at_least_one(
        if cores < worthwhile {
            cores
        } else {
            worthwhile
        },
    )
}

/// Bytes of a block: up to one block per core, each a whole number of pixels.
pub open spec fn block_bytes(total_bytes: int, bytes_per_pixel: int, cores: int) -> int {
    let pixel_count = total_bytes / bytes_per_pixel;
    let blocks = block_count(pixel_count, cores);
    (pixel_count + blocks - 1) / blocks * bytes_per_pixel
}

/// Block size in bytes: up to one block per core, each a whole number of pixels.
pub fn parallel_block_bytes(total_bytes: usize, bytes_per_pixel: usize, cores: usize) -> (bytes:
    usize)
    requires
        bytes_per_pixel > 0,
    ensures
        bytes == block_bytes(total_bytes as int, bytes_per_pixel as int, cores as int),
{
    let pixel_count: usize = total_bytes / bytes_per_pixel;
    let worthwhile: usize = pixel_count / PARALLEL_BLOCK_MINIMUM_PIXELS;
    let wanted: usize = if cores < worthwhile {
        cores
    } else {
        worthwhile
    };
    let blocks: usize = if wanted < 1 {
        1
    } else {
        wanted
    };
    proof {
        lemma_share_is_no_more_than_all(pixel_count as int, blocks as int);
        lemma_whole_pixels_fit(total_bytes as int, bytes_per_pixel as int);
        let share = (pixel_count + blocks - 1) / blocks as int;
        assert(share * bytes_per_pixel <= pixel_count * bytes_per_pixel) by (nonlinear_arith)
            requires
                share <= pixel_count,
                0 < bytes_per_pixel,
        ;
    }
    let share: u128 = (pixel_count as u128 + blocks as u128 - 1) / blocks as u128;
    share as usize * bytes_per_pixel
}

proof fn lemma_share_is_no_more_than_all(pixel_count: int, blocks: int)
    requires
        0 <= pixel_count,
        1 <= blocks,
    ensures
        0 <= (pixel_count + blocks - 1) / blocks <= pixel_count,
{
    let share = (pixel_count + blocks - 1) / blocks;
    assert(0 <= share <= pixel_count) by (nonlinear_arith)
        requires
            share == (pixel_count + blocks - 1) / blocks,
            0 <= pixel_count,
            1 <= blocks,
    ;
}

proof fn lemma_whole_pixels_fit(total: int, unit: int)
    requires
        0 <= total,
        0 < unit,
    ensures
        total / unit * unit <= total,
        0 <= total / unit,
{
    vstd::arithmetic::div_mod::lemma_fundamental_div_mod(total, unit);
    vstd::arithmetic::div_mod::lemma_mod_bound(total, unit);
    assert(unit * (total / unit) == total / unit * unit) by (nonlinear_arith);
    vstd::arithmetic::div_mod::lemma_div_pos_is_pos(total, unit);
}

/// As many blocks as were planned cover the buffer's pixels, and each is a whole number of them.
pub proof fn lemma_blocks_cover_the_buffer(total_bytes: int, bytes_per_pixel: int, cores: int)
    requires
        0 <= total_bytes,
        0 < bytes_per_pixel,
        0 <= cores,
    ensures
        ({
            let blocks = block_count(total_bytes / bytes_per_pixel, cores);
            &&& blocks * block_bytes(total_bytes, bytes_per_pixel, cores) >= total_bytes
                / bytes_per_pixel * bytes_per_pixel
            &&& block_bytes(total_bytes, bytes_per_pixel, cores) % bytes_per_pixel == 0
            &&& 1 <= blocks
            &&& blocks <= cores || blocks == 1
        }),
{
    lemma_whole_pixels_fit(total_bytes, bytes_per_pixel);
    let pixel_count = total_bytes / bytes_per_pixel;
    let blocks = block_count(pixel_count, cores);
    let share = (pixel_count + blocks - 1) / blocks;
    vstd::arithmetic::div_mod::lemma_fundamental_div_mod(pixel_count + blocks - 1, blocks);
    vstd::arithmetic::div_mod::lemma_mod_bound(pixel_count + blocks - 1, blocks);
    assert(blocks * share >= pixel_count);
    assert(blocks * (share * bytes_per_pixel) >= pixel_count * bytes_per_pixel) by (nonlinear_arith)
        requires
            blocks * share >= pixel_count,
            0 < bytes_per_pixel,
    ;
    vstd::arithmetic::div_mod::lemma_mod_multiples_basic(share, bytes_per_pixel);
}

/// The area of a size.
pub open spec fn area(size: (u32, u32)) -> int {
    size.0 * size.1
}

/// The first of the first `count` sizes with the greatest area, 0 where all are empty.
pub open spec fn largest_of(sizes: Seq<(u32, u32)>, count: int) -> int
    decreases count,
{
    if count <= 0 {
        0
    } else {
        let earlier = largest_of(sizes, count - 1);
        let least = if earlier < count - 1 {
            area(sizes[earlier])
        } else {
            0
        };
        if area(sizes[count - 1]) > least {
            count - 1
        } else {
            earlier
        }
    }
}

/// Index of the frame with the most pixels; the size-variant display rule.
pub fn largest_frame_index(sizes: &Vec<(u32, u32)>) -> (index: usize)
    ensures
        index == largest_of(sizes@, sizes@.len() as int),
{
    let mut largest_index: usize = 0;
    let mut largest_pixels: u64 = 0;
    let mut index: usize = 0;
    while index < sizes.len()
        invariant
            index <= sizes.len(),
            largest_index == largest_of(sizes@, index as int),
            largest_index < index || (largest_index == 0 && index == 0),
            index > 0 ==> largest_pixels == area(sizes@[largest_index as int]),
            index == 0 ==> largest_pixels == 0,
        decreases sizes.len() - index,
    {
        let (width, height) = sizes[index];
        assert(width * height <= u32::MAX * u32::MAX) by (nonlinear_arith)
            requires
                width <= u32::MAX,
                height <= u32::MAX,
        ;
        assert(0 <= width * height) by (nonlinear_arith);
        let pixel_count: u64 = width as u64 * height as u64;
        if pixel_count > largest_pixels {
            largest_pixels = pixel_count;
            largest_index = index;
        }
        index += 1;
    }
    largest_index
}

/// The chosen frame has at least the pixels of every other, and more than every earlier one.
pub proof fn lemma_largest_frame_wins(sizes: Seq<(u32, u32)>, count: int)
    requires
        0 <= count <= sizes.len(),
    ensures
        count > 0 ==> 0 <= largest_of(sizes, count) < count,
        forall|index: int|
            0 <= index < count ==> area(#[trigger] sizes[index]) <= area(
                sizes[largest_of(sizes, count)],
            ),
        forall|index: int|
            0 <= index < largest_of(sizes, count) ==> area(#[trigger] sizes[index]) < area(
                sizes[largest_of(sizes, count)],
            ),
    decreases count,
{
    if count > 0 {
        lemma_largest_frame_wins(sizes, count - 1);
        assert(0 <= area(sizes[count - 1])) by (nonlinear_arith)
            requires
                area(sizes[count - 1]) == sizes[count - 1].0 * sizes[count - 1].1,
        ;
        assert forall|index: int| 0 <= index < count implies 0 <= area(#[trigger] sizes[index]) by {
            assert(0 <= sizes[index].0 * sizes[index].1) by (nonlinear_arith);
        }
    }
}

/// The longest side of the monitors, kept until the display changes.
pub struct MonitorSize {
    /// 0 means the system is queried again.
    pub cached: u32,
}

/// The bounds of a monitor: left, top, right, bottom.
pub type Bounds = (i32, i32, i32, i32);

/// The longest side among the first `count` bounds, 0 where none is positive.
pub open spec fn longest_side(bounds: Seq<Bounds>, count: int) -> int
    decreases count,
{
    if count <= 0 {
        0
    } else {
        let (left, top, right, bottom) = bounds[count - 1];
        let earlier = longest_side(bounds, count - 1);
        let wider = if right - left > earlier {
            right - left
        } else {
            earlier
        };
        if bottom - top > wider {
            bottom - top
        } else {
            wider
        }
    }
}

impl MonitorSize {
    pub fn new() -> (size: Self)
        ensures
            size.cached == 0,
    {
        MonitorSize { cached: 0 }
    }

    /// Forgets the monitor size; the listing invalidates display-sized weights alongside.
    pub fn invalidate_monitor_size(&mut self)
        ensures
            final(self).cached == 0,
    {
        self.cached = 0;
    }

    /// The longest monitor side: the one kept, else that of these bounds, else a common one where
    /// no monitor answered.
    pub fn largest_monitor_long_side(&mut self, bounds: &Vec<Bounds>) -> (side: u32)
        ensures
            side == final(self).cached,
            side > 0,
            side == (if old(self).cached > 0 {
                old(self).cached as int
            } else if longest_side(bounds@, bounds@.len() as int) > 0 {
                longest_side(bounds@, bounds@.len() as int)
            } else {
                1920
            }),
    {
        if self.cached > 0 {
            return self.cached;
        }
        let mut longest: i64 = 0;
        let mut index: usize = 0;
        while index < bounds.len()
            invariant
                index <= bounds.len(),
                longest == longest_side(bounds@, index as int),
                0 <= longest <= u32::MAX,
            decreases bounds.len() - index,
        {
            let (left, top, right, bottom) = bounds[index];
            let across: i64 = right as i64 - left as i64;
            let down: i64 = bottom as i64 - top as i64;
            if across > longest {
                longest = across;
            }
            if down > longest {
                longest = down;
            }
            index += 1;
        }
        self.cached = if longest > 0 {
            longest as u32
        } else {
            1920
        };
        self.cached
    }
}

/// Rows copied at a time, so a cancelled decode can stop between strips.
pub const STRIP_ROWS: u32 = 256;

/// The rows of the strip that starts at a row.
pub fn strip_rows(row: u32, height: u32) -> (rows: u32)
    requires
        row < height,
    ensures
        rows == (if height - row < STRIP_ROWS {
            height - row
        } else {
            STRIP_ROWS as int
        }),
        0 < rows <= STRIP_ROWS,
        row + rows <= height,
{
    if height - row < STRIP_ROWS {
        height - row
    } else {
        STRIP_ROWS
    }
}

/// The rows at which the strips of an image start, from a row that starts one on.
pub open spec fn strip_starts(height: int, row: int) -> Seq<int>
    decreases height - row,
{
    if row < 0 || row >= height {
        Seq::empty()
    } else {
        let rows = if height - row < STRIP_ROWS {
            height - row
        } else {
            STRIP_ROWS as int
        };
        seq![row] + strip_starts(height, row + rows)
    }
}

/// Where the strips of an image start.
pub fn strips(height: u32) -> (starts: Vec<u32>)
    ensures
        starts@.map_values(|start: u32| start as int) == strip_starts(height as int, 0),
{
    let mut starts: Vec<u32> = Vec::new();
    let mut row: u32 = 0;
    assert(starts@.map_values(|start: u32| start as int) =~= Seq::<int>::empty());
    while row < height
        invariant
            row <= height,
            strip_starts(height as int, 0) == starts@.map_values(|start: u32| start as int)
                + strip_starts(height as int, row as int),
        decreases height - row,
    {
        let ghost before = starts@.map_values(|start: u32| start as int);
        let rows = strip_rows(row, height);
        starts.push(row);
        assert(starts@.map_values(|start: u32| start as int) =~= before.push(row as int));
        assert(before + (seq![row as int] + strip_starts(height as int, row + rows)) =~= before.push(
            row as int,
        ) + strip_starts(height as int, row + rows));
        row += rows;
    }
    assert(starts@.map_values(|start: u32| start as int) =~= strip_starts(height as int, 0));
    starts
}

} // verus!
