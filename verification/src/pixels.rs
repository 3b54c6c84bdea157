//! Pixel arithmetic: rectangles on a canvas, blending, premultiplied conversions.

use vstd::prelude::*;

use crate::image::{DecodeError, uncoded_error};

verus! {

/// D3D11 FL11 texture limit; larger sources are downscaled before upload.
pub const MAXIMUM_TEXTURE_DIMENSION: u32 = 16384;

/// Cap on an animation's expanded frames; past it only the first frame is kept.
pub const MAXIMUM_ANIMATION_FRAMES_BYTES: u64 = 1073741824;

/// The extent of a rectangle's part that lies on a canvas, from where it starts.
pub open spec fn visible_extent(canvas: int, extent: int, start: int) -> int {
    if start >= canvas {
        0
    } else if extent < canvas - start {
        extent
    } else {
        canvas - start
    }
}

/// The part of a `width` x `height` rectangle at (`left`, `top`) that lies on the canvas.
pub fn visible_rectangle(
    canvas_width: u32,
    canvas_height: u32,
    width: u32,
    height: u32,
    left: u32,
    top: u32,
) -> (visible: Option<(usize, usize)>)
    ensures
        ({
            let across = visible_extent(canvas_width as int, width as int, left as int);
            let down = visible_extent(canvas_height as int, height as int, top as int);
            match visible {
                Some((shown_width, shown_height)) => shown_width == across && shown_height == down
                    && across > 0 && down > 0,
                None => across == 0 || down == 0,
            }
        }),
{
    let room_across: u32 = if left >= canvas_width {
        0
    } else {
        canvas_width - left
    };
    let room_down: u32 = if top >= canvas_height {
        0
    } else {
        canvas_height - top
    };
    let across: u32 = if width < room_across {
        width
    } else {
        room_across
    };
    let down: u32 = if height < room_down {
        height
    } else {
        room_down
    };
    // An off-canvas offset clips everything; the row start would still index past the end.
    if across > 0 && down > 0 {
        Some((across as usize, down as usize))
    } else {
        None
    }
}

/// The column of the pixel a canvas byte belongs to.
pub open spec fn column(canvas_width: int, index: int) -> int {
    (index / 4) % canvas_width
}

/// The row of the pixel a canvas byte belongs to.
pub open spec fn row_of(canvas_width: int, index: int) -> int {
    (index / 4) / canvas_width
}

/// A canvas byte lies inside a rectangle of the canvas.
pub open spec fn inside(
    canvas_width: int,
    left: int,
    top: int,
    width: int,
    height: int,
    index: int,
) -> bool {
    &&& left <= column(canvas_width, index) < left + width
    &&& top <= row_of(canvas_width, index) < top + height
}

/// A canvas with the bytes inside a rectangle replaced by ink.
pub open spec fn painted(
    canvas: Seq<u8>,
    canvas_width: int,
    left: int,
    top: int,
    width: int,
    height: int,
    ink: spec_fn(int) -> u8,
) -> Seq<u8> {
    Seq::new(
        canvas.len(),
        |index: int|
            if inside(canvas_width, left, top, width, height, index) {
                ink(index)
            } else {
                canvas[index]
            },
    )
}

/// Where a rectangle's own bytes stand: the source byte behind a canvas byte.
pub open spec fn source_index(
    canvas_width: int,
    source_width: int,
    left: int,
    top: int,
    index: int,
) -> int {
    ((row_of(canvas_width, index) - top) * source_width + (column(canvas_width, index) - left)) * 4
        + index % 4
}

/// One channel of a premultiplied source over the canvas, rounded to nearest.
pub open spec fn over(source: u8, canvas: u8, alpha: u8) -> u8 {
    let blended = source + (canvas * (255 - alpha) + 127) / 255;
    if blended > 255 {
        255
    } else {
        blended as u8
    }
}

/// The ink of a frame blended over a canvas.
pub open spec fn over_ink(
    canvas: Seq<u8>,
    canvas_width: int,
    source: Seq<u8>,
    source_width: int,
    left: int,
    top: int,
) -> spec_fn(int) -> u8 {
    |index: int|
        {
            let place = source_index(canvas_width, source_width, left, top, index);
            over(source[place], canvas[index], source[place - index % 4 + 3])
        }
}

/// The ink of a frame that replaces what it covers.
pub open spec fn copy_ink(
    canvas_width: int,
    source: Seq<u8>,
    source_width: int,
    left: int,
    top: int,
) -> spec_fn(int) -> u8 {
    |index: int| source[source_index(canvas_width, source_width, left, top, index)]
}

/// A canvas with a frame blended over it, clipped to it.
pub open spec fn blended_over(
    canvas: Seq<u8>,
    canvas_width: u32,
    canvas_height: u32,
    source: Seq<u8>,
    source_width: u32,
    source_height: u32,
    left: u32,
    top: u32,
) -> Seq<u8> {
    painted(
        canvas,
        canvas_width as int,
        left as int,
        top as int,
        visible_extent(canvas_width as int, source_width as int, left as int),
        visible_extent(canvas_height as int, source_height as int, top as int),
        over_ink(
            canvas,
            canvas_width as int,
            source,
            source_width as int,
            left as int,
            top as int,
        ),
    )
}

/// A canvas with a frame put in place of what it covers, clipped to it.
pub open spec fn copied_onto(
    canvas: Seq<u8>,
    canvas_width: u32,
    canvas_height: u32,
    source: Seq<u8>,
    source_width: u32,
    source_height: u32,
    left: u32,
    top: u32,
) -> Seq<u8> {
    painted(
        canvas,
        canvas_width as int,
        left as int,
        top as int,
        visible_extent(canvas_width as int, source_width as int, left as int),
        visible_extent(canvas_height as int, source_height as int, top as int),
        copy_ink(canvas_width as int, source, source_width as int, left as int, top as int),
    )
}

/// A canvas with a rectangle cleared, clipped to it.
pub open spec fn cleared(
    canvas: Seq<u8>,
    canvas_width: u32,
    canvas_height: u32,
    left: u32,
    top: u32,
    width: u32,
    height: u32,
) -> Seq<u8> {
    painted(
        canvas,
        canvas_width as int,
        left as int,
        top as int,
        visible_extent(canvas_width as int, width as int, left as int),
        visible_extent(canvas_height as int, height as int, top as int),
        |index: int| 0u8,
    )
}

/// The bytes a rectangle's rows reach in a buffer of this row length, from (`left`, `top`) on.
pub open spec fn reach(row_length: int, left: int, top: int, width: int, height: int) -> int {
    if width <= 0 || height <= 0 {
        0
    } else {
        ((top + height - 1) * row_length + left + width) * 4
    }
}

/// A frame's buffer holds every row of it that shows on the canvas.
pub open spec fn covers_visible(
    length: int,
    canvas_width: u32,
    canvas_height: u32,
    width: u32,
    height: u32,
    left: u32,
    top: u32,
) -> bool {
    reach(
        width as int,
        0,
        0,
        visible_extent(canvas_width as int, width as int, left as int),
        visible_extent(canvas_height as int, height as int, top as int),
    ) <= length
}

/// A canvas buffer holds the part of it that a rectangle covers.
pub open spec fn canvas_holds(
    length: int,
    canvas_width: u32,
    canvas_height: u32,
    width: u32,
    height: u32,
    left: u32,
    top: u32,
) -> bool {
    reach(
        canvas_width as int,
        left as int,
        top as int,
        visible_extent(canvas_width as int, width as int, left as int),
        visible_extent(canvas_height as int, height as int, top as int),
    ) <= length
}

/// The bytes of one row of a rectangle are those of a run of pixels, and nothing else is.
proof fn lemma_row_is_a_run(
    canvas_width: int,
    left: int,
    row: int,
    width: int,
    index: int,
)
    requires
        0 < canvas_width,
        0 <= left,
        0 <= row,
        0 < width,
        left + width <= canvas_width,
        0 <= index,
    ensures
        ({
            let start = (row * canvas_width + left) * 4;
            let across = column(canvas_width, index);
            let down = row_of(canvas_width, index);
            &&& (start <= index < start + width * 4) <==> (down == row && left <= across < left
                + width)
            &&& start <= index < start + width * 4 ==> index == start + (across - left) * 4 + index
                % 4
        }),
{
    let pixel = index / 4;
    let across = pixel % canvas_width;
    let down = pixel / canvas_width;
    assert(pixel == down * canvas_width + across) by {
        vstd::arithmetic::div_mod::lemma_fundamental_div_mod(pixel, canvas_width);
        assert(canvas_width * down == down * canvas_width) by (nonlinear_arith);
    }
    assert(0 <= across < canvas_width) by {
        vstd::arithmetic::div_mod::lemma_mod_bound(pixel, canvas_width);
    }
    if down < row {
        assert(down * canvas_width + canvas_width <= row * canvas_width) by (nonlinear_arith)
            requires
                down + 1 <= row,
                0 < canvas_width,
        ;
    } else if down > row {
        assert(row * canvas_width + canvas_width <= down * canvas_width) by (nonlinear_arith)
            requires
                row + 1 <= down,
                0 < canvas_width,
        ;
    }
}

/// One row more of a rectangle painted: the run of pixels of that row takes the ink.
proof fn lemma_next_row(
    canvas: Seq<u8>,
    canvas_width: int,
    left: int,
    top: int,
    width: int,
    rows: int,
    ink: spec_fn(int) -> u8,
    now: Seq<u8>,
)
    requires
        0 < canvas_width,
        0 <= left,
        0 <= top,
        0 < width,
        left + width <= canvas_width,
        0 <= rows,
        now.len() == canvas.len(),
        ({
            let start = ((top + rows) * canvas_width + left) * 4;
            let before = painted(canvas, canvas_width, left, top, width, rows, ink);
            &&& start + width * 4 <= canvas.len()
            &&& forall|index: int|
                0 <= index < canvas.len() ==> #[trigger] now[index] == if start <= index < start
                    + width * 4 {
                    ink(index)
                } else {
                    before[index]
                }
        }),
    ensures
        now == painted(canvas, canvas_width, left, top, width, rows + 1, ink),
{
    let after = painted(canvas, canvas_width, left, top, width, rows + 1, ink);
    assert forall|index: int| 0 <= index < canvas.len() implies now[index] == after[index] by {
        lemma_row_is_a_run(canvas_width, left, top + rows, width, index);
    }
    assert(now =~= after);
}

/// The rows of a rectangle that a buffer holds end inside it.
proof fn lemma_row_ends_inside(
    row_length: int,
    left: int,
    top: int,
    width: int,
    height: int,
    row: int,
    length: int,
)
    requires
        0 <= row_length,
        0 <= left,
        0 <= top,
        0 < width,
        0 <= row < height,
        reach(row_length, left, top, width, height) <= length,
    ensures
        ((top + row) * row_length + left) * 4 + width * 4 <= length,
        0 <= (top + row) * row_length,
{
    assert((top + row) * row_length <= (top + height - 1) * row_length) by (nonlinear_arith)
        requires
            row <= height - 1,
            0 <= row_length,
    ;
    assert(0 <= (top + row) * row_length) by (nonlinear_arith)
        requires
            0 <= top + row,
            0 <= row_length,
    ;
}

/// One channel of a premultiplied source over the canvas.
pub fn over_channel(source: u8, canvas: u8, alpha: u8) -> (blended: u8)
    ensures
        blended == over(source, canvas, alpha),
{
    let inverse_alpha: u32 = 255 - alpha as u32;
    assert(canvas * inverse_alpha <= 255 * 255) by (nonlinear_arith)
        requires
            canvas <= 255,
            inverse_alpha <= 255,
    ;
    let sum: u32 = source as u32 + (canvas as u32 * inverse_alpha + 127) / 255;
    if sum > 255 {
        255
    } else {
        sum as u8
    }
}

/// Premultiplied source-over blend, clipped to the canvas.
pub fn blend_over(
    canvas: &mut Vec<u8>,
    canvas_width: u32,
    canvas_height: u32,
    source: &[u8],
    source_width: u32,
    source_height: u32,
    left: u32,
    top: u32,
)
    requires
        canvas_holds(
            old(canvas)@.len() as int,
            canvas_width,
            canvas_height,
            source_width,
            source_height,
            left,
            top,
        ),
        covers_visible(
            source@.len() as int,
            canvas_width,
            canvas_height,
            source_width,
            source_height,
            left,
            top,
        ),
    ensures
        final(canvas)@ == blended_over(
            old(canvas)@,
            canvas_width,
            canvas_height,
            source@,
            source_width,
            source_height,
            left,
            top,
        ),
{
    let ghost before = canvas@;
    let ghost ink = over_ink(
        before,
        canvas_width as int,
        source@,
        source_width as int,
        left as int,
        top as int,
    );
    let (width, height) = match visible_rectangle(
        canvas_width,
        canvas_height,
        source_width,
        source_height,
        left,
        top,
    ) {
        Some(visible) => visible,
        None => {
            assert(canvas@ =~= blended_over(
                before,
                canvas_width,
                canvas_height,
                source@,
                source_width,
                source_height,
                left,
                top,
            ));
            return ;
        },
    };
    assert(canvas@ =~= painted(
        before,
        canvas_width as int,
        left as int,
        top as int,
        width as int,
        0,
        ink,
    ));
    let mut row: usize = 0;
    assert(canvas.len() <= usize::MAX && source.len() <= usize::MAX);
    while row < height
        invariant
            ink == over_ink(
                before,
                canvas_width as int,
                source@,
                source_width as int,
                left as int,
                top as int,
            ),
            0 < width,
            row <= height,
            left + width <= canvas_width,
            top + height <= canvas_height,
            reach(canvas_width as int, left as int, top as int, width as int, height as int)
                <= before.len(),
            reach(source_width as int, 0, 0, width as int, height as int) <= source@.len(),
            before.len() <= usize::MAX,
            source@.len() <= usize::MAX,
            canvas@.len() == before.len(),
            canvas@ == painted(
                before,
                canvas_width as int,
                left as int,
                top as int,
                width as int,
                row as int,
                ink,
            ),
        decreases height - row,
    {
        proof {
            lemma_row_ends_inside(
                canvas_width as int,
                left as int,
                top as int,
                width as int,
                height as int,
                row as int,
                before.len() as int,
            );
            lemma_row_ends_inside(
                source_width as int,
                0,
                0,
                width as int,
                height as int,
                row as int,
                source@.len() as int,
            );
            assert((0 + row) * source_width == row * source_width);
        }
        let source_start: usize = row * source_width as usize * 4;
        let canvas_start: usize = ((top as usize + row) * canvas_width as usize + left as usize)
            * 4;
        let ghost painted_so_far = canvas@;
        let ghost start = canvas_start as int;
        let mut column: usize = 0;
        while column < width
            invariant
                column <= width,
                canvas@.len() == before.len(),
                painted_so_far.len() == before.len(),
                painted_so_far == painted(
                    before,
                    canvas_width as int,
                    left as int,
                    top as int,
                    width as int,
                    row as int,
                    ink,
                ),
                ink == over_ink(
                    before,
                    canvas_width as int,
                    source@,
                    source_width as int,
                    left as int,
                    top as int,
                ),
                start == canvas_start,
                start == ((top + row) * canvas_width + left) * 4,
                source_start == row * source_width * 4,
                start + width * 4 <= before.len(),
                source_start + width * 4 <= source@.len(),
                before.len() <= usize::MAX,
                source@.len() <= usize::MAX,
                0 < width,
                left + width <= canvas_width,
                forall|index: int|
                    0 <= index < before.len() ==> #[trigger] canvas@[index] == if start <= index
                        < start + column * 4 {
                        ink(index)
                    } else {
                        painted_so_far[index]
                    },
            decreases width - column,
        {
            let place: usize = source_start + column * 4;
            let spot: usize = canvas_start + column * 4;
            let alpha = source[place + 3];
            proof {
                assert forall|channel: int| 0 <= channel < 4 implies #[trigger] ink(spot + channel)
                    == over(
                    source@[place + channel],
                    before[spot + channel],
                    source@[place + 3],
                ) && painted_so_far[spot + channel] == before[spot + channel] by {
                    let index = spot + channel;
                    lemma_row_is_a_run(
                        canvas_width as int,
                        left as int,
                        top + row,
                        width as int,
                        index,
                    );
                    assert(index % 4 == channel) by {
                        assert(start % 4 == 0);
                    }
                    assert((row as int) * (source_width as int) == (row_of(
                        canvas_width as int,
                        index,
                    ) - top) * source_width);
                    assert(source_index(
                        canvas_width as int,
                        source_width as int,
                        left as int,
                        top as int,
                        index,
                    ) == place + channel);
                }
                assert(ink(spot + 0) == over(source@[place + 0], before[spot + 0], alpha));
                assert(ink(spot + 1) == over(source@[place + 1], before[spot + 1], alpha));
                assert(ink(spot + 2) == over(source@[place + 2], before[spot + 2], alpha));
                assert(ink(spot + 3) == over(source@[place + 3], before[spot + 3], alpha));
            }
            let blue = over_channel(source[place], canvas[spot], alpha);
            let green = over_channel(source[place + 1], canvas[spot + 1], alpha);
            let red = over_channel(source[place + 2], canvas[spot + 2], alpha);
            let opacity = over_channel(source[place + 3], canvas[spot + 3], alpha);
            canvas.set(spot, blue);
            canvas.set(spot + 1, green);
            canvas.set(spot + 2, red);
            canvas.set(spot + 3, opacity);
            column += 1;
        }
        proof {
            lemma_next_row(
                before,
                canvas_width as int,
                left as int,
                top as int,
                width as int,
                row as int,
                ink,
                canvas@,
            );
        }
        row += 1;
    }
}

/// Puts a frame in place of what it covers, clipped to the canvas.
pub fn copy_rectangle(
    canvas: &mut Vec<u8>,
    canvas_width: u32,
    canvas_height: u32,
    source: &[u8],
    source_width: u32,
    source_height: u32,
    left: u32,
    top: u32,
)
    requires
        canvas_holds(
            old(canvas)@.len() as int,
            canvas_width,
            canvas_height,
            source_width,
            source_height,
            left,
            top,
        ),
        covers_visible(
            source@.len() as int,
            canvas_width,
            canvas_height,
            source_width,
            source_height,
            left,
            top,
        ),
    ensures
        final(canvas)@ == copied_onto(
            old(canvas)@,
            canvas_width,
            canvas_height,
            source@,
            source_width,
            source_height,
            left,
            top,
        ),
{
    let ghost before = canvas@;
    let ghost ink = copy_ink(
        canvas_width as int,
        source@,
        source_width as int,
        left as int,
        top as int,
    );
    let (width, height) = match visible_rectangle(
        canvas_width,
        canvas_height,
        source_width,
        source_height,
        left,
        top,
    ) {
        Some(visible) => visible,
        None => {
            assert(canvas@ =~= copied_onto(
                before,
                canvas_width,
                canvas_height,
                source@,
                source_width,
                source_height,
                left,
                top,
            ));
            return ;
        },
    };
    assert(canvas@ =~= painted(
        before,
        canvas_width as int,
        left as int,
        top as int,
        width as int,
        0,
        ink,
    ));
    let mut row: usize = 0;
    assert(canvas.len() <= usize::MAX && source.len() <= usize::MAX);
    while row < height
        invariant
            ink == copy_ink(
                canvas_width as int,
                source@,
                source_width as int,
                left as int,
                top as int,
            ),
            0 < width,
            row <= height,
            left + width <= canvas_width,
            top + height <= canvas_height,
            reach(canvas_width as int, left as int, top as int, width as int, height as int)
                <= before.len(),
            reach(source_width as int, 0, 0, width as int, height as int) <= source@.len(),
            before.len() <= usize::MAX,
            source@.len() <= usize::MAX,
            canvas@.len() == before.len(),
            canvas@ == painted(
                before,
                canvas_width as int,
                left as int,
                top as int,
                width as int,
                row as int,
                ink,
            ),
        decreases height - row,
    {
        proof {
            lemma_row_ends_inside(
                canvas_width as int,
                left as int,
                top as int,
                width as int,
                height as int,
                row as int,
                before.len() as int,
            );
            lemma_row_ends_inside(
                source_width as int,
                0,
                0,
                width as int,
                height as int,
                row as int,
                source@.len() as int,
            );
            assert((0 + row) * source_width == row * source_width);
        }
        let source_start: usize = row * source_width as usize * 4;
        let canvas_start: usize = ((top as usize + row) * canvas_width as usize + left as usize)
            * 4;
        let ghost painted_so_far = canvas@;
        let ghost start = canvas_start as int;
        let length: usize = width * 4;
        let mut offset: usize = 0;
        while offset < length
            invariant
                offset <= length,
                length == width * 4,
                canvas@.len() == before.len(),
                painted_so_far.len() == before.len(),
                ink == copy_ink(
                    canvas_width as int,
                    source@,
                    source_width as int,
                    left as int,
                    top as int,
                ),
                start == canvas_start,
                start == ((top + row) * canvas_width + left) * 4,
                source_start == row * source_width * 4,
                start + length <= before.len(),
                source_start + length <= source@.len(),
                before.len() <= usize::MAX,
                source@.len() <= usize::MAX,
                0 < width,
                left + width <= canvas_width,
                forall|index: int|
                    0 <= index < before.len() ==> #[trigger] canvas@[index] == if start <= index
                        < start + offset {
                        ink(index)
                    } else {
                        painted_so_far[index]
                    },
            decreases length - offset,
        {
            proof {
                let index = canvas_start + offset;
                lemma_row_is_a_run(
                    canvas_width as int,
                    left as int,
                    top + row,
                    width as int,
                    index,
                );
                assert((row as int) * (source_width as int) == (row_of(canvas_width as int, index)
                    - top) * source_width);
                assert(source_index(
                    canvas_width as int,
                    source_width as int,
                    left as int,
                    top as int,
                    index,
                ) == source_start + offset);
                assert(ink(index) == source@[source_start + offset]);
            }
            canvas.set(canvas_start + offset, source[source_start + offset]);
            offset += 1;
        }
        proof {
            lemma_next_row(
                before,
                canvas_width as int,
                left as int,
                top as int,
                width as int,
                row as int,
                ink,
                canvas@,
            );
        }
        row += 1;
    }
}

/// Clears a rectangle, clipped to the canvas.
pub fn clear_rectangle(
    canvas: &mut Vec<u8>,
    canvas_width: u32,
    canvas_height: u32,
    left: u32,
    top: u32,
    width: u32,
    height: u32,
)
    requires
        canvas_holds(
            old(canvas)@.len() as int,
            canvas_width,
            canvas_height,
            width,
            height,
            left,
            top,
        ),
    ensures
        final(canvas)@ == cleared(
            old(canvas)@,
            canvas_width,
            canvas_height,
            left,
            top,
            width,
            height,
        ),
{
    let ghost before = canvas@;
    let ghost ink = |index: int| 0u8;
    let (shown_width, shown_height) = match visible_rectangle(
        canvas_width,
        canvas_height,
        width,
        height,
        left,
        top,
    ) {
        Some(visible) => visible,
        None => {
            assert(canvas@ =~= cleared(
                before,
                canvas_width,
                canvas_height,
                left,
                top,
                width,
                height,
            ));
            return ;
        },
    };
    assert(canvas@ =~= painted(
        before,
        canvas_width as int,
        left as int,
        top as int,
        shown_width as int,
        0,
        ink,
    ));
    let mut row: usize = 0;
    assert(canvas.len() <= usize::MAX);
    while row < shown_height
        invariant
            ink == (|index: int| 0u8),
            0 < shown_width,
            row <= shown_height,
            left + shown_width <= canvas_width,
            top + shown_height <= canvas_height,
            reach(
                canvas_width as int,
                left as int,
                top as int,
                shown_width as int,
                shown_height as int,
            ) <= before.len(),
            before.len() <= usize::MAX,
            canvas@.len() == before.len(),
            canvas@ == painted(
                before,
                canvas_width as int,
                left as int,
                top as int,
                shown_width as int,
                row as int,
                ink,
            ),
        decreases shown_height - row,
    {
        proof {
            lemma_row_ends_inside(
                canvas_width as int,
                left as int,
                top as int,
                shown_width as int,
                shown_height as int,
                row as int,
                before.len() as int,
            );
        }
        let start: usize = ((top as usize + row) * canvas_width as usize + left as usize) * 4;
        let ghost painted_so_far = canvas@;
        let length: usize = shown_width * 4;
        let mut offset: usize = 0;
        while offset < length
            invariant
                offset <= length,
                ink == (|index: int| 0u8),
                canvas@.len() == before.len(),
                painted_so_far.len() == before.len(),
                start + length <= before.len(),
                before.len() <= usize::MAX,
                forall|index: int|
                    0 <= index < before.len() ==> #[trigger] canvas@[index] == if start <= index
                        < start + offset {
                        ink(index)
                    } else {
                        painted_so_far[index]
                    },
            decreases length - offset,
        {
            canvas.set(start + offset, 0);
            offset += 1;
        }
        proof {
            lemma_next_row(
                before,
                canvas_width as int,
                left as int,
                top as int,
                shown_width as int,
                row as int,
                ink,
                canvas@,
            );
        }
        row += 1;
    }
}

/// A rectangle that lies off the canvas changes nothing of it, whatever is painted there.
pub proof fn lemma_off_canvas_changes_nothing(
    canvas: Seq<u8>,
    canvas_width: u32,
    canvas_height: u32,
    source: Seq<u8>,
    width: u32,
    height: u32,
    left: u32,
    top: u32,
)
    requires
        left >= canvas_width || top >= canvas_height || width == 0 || height == 0,
    ensures
        blended_over(canvas, canvas_width, canvas_height, source, width, height, left, top)
            == canvas,
        copied_onto(canvas, canvas_width, canvas_height, source, width, height, left, top)
            == canvas,
        cleared(canvas, canvas_width, canvas_height, left, top, width, height) == canvas,
{
    assert(blended_over(canvas, canvas_width, canvas_height, source, width, height, left, top)
        =~= canvas);
    assert(copied_onto(canvas, canvas_width, canvas_height, source, width, height, left, top)
        =~= canvas);
    assert(cleared(canvas, canvas_width, canvas_height, left, top, width, height) =~= canvas);
}

/// An opaque source byte replaces the canvas, and a byte of a fully transparent source, which
/// premultiplied is 0, leaves it.
pub proof fn lemma_blending_at_the_ends(source: u8, canvas: u8)
    ensures
        over(source, canvas, 255) == source,
        over(0, canvas, 0) == canvas,
{
    assert((canvas * 0 + 127) / 255 == 0) by (nonlinear_arith);
    assert((canvas * 255 + 127) / 255 == canvas) by (nonlinear_arith);
}

/// A channel scaled by the alpha that premultiplies it.
pub open spec fn premultiplied(value: u8, alpha: u8) -> u8 {
    (value * alpha / 255) as u8
}

/// The premultiplied BGRA bytes of a straight RGBA pixel.
pub open spec fn bgra_of_rgba(source: Seq<u8>, pixel: int, channel: int) -> u8 {
    let alpha = source[pixel * 4 + 3];
    if channel == 0 {
        premultiplied(source[pixel * 4 + 2], alpha)
    } else if channel == 1 {
        premultiplied(source[pixel * 4 + 1], alpha)
    } else if channel == 2 {
        premultiplied(source[pixel * 4], alpha)
    } else {
        alpha
    }
}

/// The BGRA bytes of an opaque RGB pixel.
pub open spec fn bgra_of_rgb(source: Seq<u8>, pixel: int, channel: int) -> u8 {
    if channel == 0 {
        source[pixel * 3 + 2]
    } else if channel == 1 {
        source[pixel * 3 + 1]
    } else if channel == 2 {
        source[pixel * 3]
    } else {
        255
    }
}

pub fn premultiply(value: u8, alpha: u8) -> (scaled: u8)
    ensures
        scaled == premultiplied(value, alpha),
{
    assert(value * alpha <= 255 * 255) by (nonlinear_arith)
        requires
            value <= 255,
            alpha <= 255,
    ;
    (value as u16 * alpha as u16 / 255) as u8
}

/// Straight RGBA to premultiplied BGRA, for as many whole pixels as both buffers hold.
pub fn premultiplied_bgra_from_rgba(source: &[u8], output: &mut Vec<u8>)
    ensures
        final(output)@.len() == old(output)@.len(),
        forall|index: int|
            0 <= index < old(output)@.len() ==> #[trigger] final(output)@[index] == if index / 4
                < source@.len() / 4 && index / 4 < old(output)@.len() / 4 {
                bgra_of_rgba(source@, index / 4, index % 4)
            } else {
                old(output)@[index]
            },
{
    let ghost before = output@;
    let held: usize = source.len() / 4;
    let room: usize = output.len() / 4;
    let count: usize = if held < room {
        held
    } else {
        room
    };
    let mut pixel: usize = 0;
    while pixel < count
        invariant
            pixel <= count,
            count * 4 <= source@.len(),
            count * 4 <= before.len(),
            output@.len() == before.len(),
            before.len() <= usize::MAX,
            forall|index: int|
                0 <= index < before.len() ==> #[trigger] output@[index] == if index < pixel * 4 {
                    bgra_of_rgba(source@, index / 4, index % 4)
                } else {
                    before[index]
                },
        decreases count - pixel,
    {
        let place: usize = pixel * 4;
        let alpha = source[place + 3];
        assert(alpha * 255 / 255 == alpha);
        output.set(place, premultiply(source[place + 2], alpha));
        output.set(place + 1, premultiply(source[place + 1], alpha));
        output.set(place + 2, premultiply(source[place], alpha));
        output.set(place + 3, alpha);
        assert forall|index: int| 0 <= index < before.len() implies #[trigger] output@[index]
            == if index < (pixel + 1) * 4 {
            bgra_of_rgba(source@, index / 4, index % 4)
        } else {
            before[index]
        } by {
            if place <= index < place + 4 {
                assert(index / 4 == pixel);
            }
        }
        pixel += 1;
    }
}

/// How a decoded PNG stores its pixels.
#[derive(Clone, Copy, PartialEq, Eq, Structural, Debug)]
pub enum ColorType {
    Grayscale,
    Rgb,
    Indexed,
    GrayscaleAlpha,
    Rgba,
}

impl ColorType {
    pub open spec fn title(self) -> Seq<char> {
        match self {
            ColorType::Grayscale => "Grayscale"@,
            ColorType::Rgb => "Rgb"@,
            ColorType::Indexed => "Indexed"@,
            ColorType::GrayscaleAlpha => "GrayscaleAlpha"@,
            ColorType::Rgba => "Rgba"@,
        }
    }

    pub fn name(self) -> (name: &'static str)
        ensures
            name@ == self.title(),
    {
        match self {
            ColorType::Grayscale => "Grayscale",
            ColorType::Rgb => "Rgb",
            ColorType::Indexed => "Indexed",
            ColorType::GrayscaleAlpha => "GrayscaleAlpha",
            ColorType::Rgba => "Rgba",
        }
    }

    /// The bytes a pixel of a kind that is converted takes, 0 for every other kind.
    pub open spec fn converted_bytes(self) -> int {
        match self {
            ColorType::Rgba => 4,
            ColorType::Rgb => 3,
            _ => 0,
        }
    }
}

/// The converted pixels of a region: premultiplied BGRA.
pub open spec fn converted(pixels: Seq<u8>, color: ColorType, count: int) -> Seq<u8> {
    Seq::new(
        (count * 4) as nat,
        |index: int|
            if color == ColorType::Rgba {
                bgra_of_rgba(pixels, index / 4, index % 4)
            } else {
                bgra_of_rgb(pixels, index / 4, index % 4)
            },
    )
}

/// Why a kind of pixels is not converted.
pub open spec fn unsupported_color(color: ColorType) -> Seq<char> {
    "Unsupported PNG color type after normalization: "@ + color.title()
}

fn resized(output: &mut Vec<u8>, length: usize)
    ensures
        final(output)@.len() == length,
{
    output.resize(length, 0);
}

/// Fills `output` with the converted region, so an animation reuses one buffer across frames.
pub fn pixels_to_premultiplied_bgra_into(
    pixels: &[u8],
    color_type: ColorType,
    width: u32,
    height: u32,
    output: &mut Vec<u8>,
) -> (result: Result<(), DecodeError>)
    requires
        width * height * 4 <= usize::MAX,
        width * height * color_type.converted_bytes() <= pixels@.len(),
    ensures
        match result {
            Ok(_) => color_type.converted_bytes() > 0 && final(output)@ == converted(
                pixels@,
                color_type,
                width * height,
            ),
            Err(error) => color_type.converted_bytes() == 0 && error@ == crate::image::uncoded(
                unsupported_color(color_type),
            ),
        },
{
    assert(0 <= width * height) by (nonlinear_arith);
    let pixel_count: usize = width as usize * height as usize;
    resized(output, pixel_count * 4);
    match color_type {
        ColorType::Rgba => {
            premultiplied_bgra_from_rgba(pixels, output);
            assert(output@ =~= converted(pixels@, color_type, width * height));
            Ok(())
        },
        ColorType::Rgb => {
            let mut pixel: usize = 0;
            assert(pixels.len() <= usize::MAX);
            while pixel < pixel_count
                invariant
                    pixel <= pixel_count,
                    output@.len() == pixel_count * 4,
                    pixel_count * 4 <= usize::MAX,
                    pixel_count * 3 <= pixels@.len(),
                    forall|index: int|
                        0 <= index < pixel * 4 ==> #[trigger] output@[index] == bgra_of_rgb(
                            pixels@,
                            index / 4,
                            index % 4,
                        ),
                decreases pixel_count - pixel,
            {
                let place: usize = pixel * 3;
                let spot: usize = pixel * 4;
                let ghost before = output@;
                output.set(spot, pixels[place + 2]);
                output.set(spot + 1, pixels[place + 1]);
                output.set(spot + 2, pixels[place]);
                output.set(spot + 3, 255);
                assert forall|index: int| 0 <= index < (pixel + 1) * 4 implies #[trigger]
                    output@[index] == bgra_of_rgb(pixels@, index / 4, index % 4) by {
                    if spot <= index {
                        assert(index / 4 == pixel);
                    } else {
                        assert(output@[index] == before[index]);
                    }
                }
                pixel += 1;
            }
            assert(output@ =~= converted(pixels@, color_type, width * height));
            Ok(())
        },
        _ => {
            let mut message = "Unsupported PNG color type after normalization: ".to_owned();
            message.append(color_type.name());
            Err(uncoded_error(message.as_str()))
        },
    }
}

/// This many zeros on an empty buffer that was reserved for them; None where none could be.
pub fn zeroed_on(reserved: Option<Vec<u8>>, bytes: usize) -> (buffer: Option<Vec<u8>>)
    requires
        reserved matches Some(empty) ==> empty@.len() == 0,
    ensures
        match buffer {
            Some(zeroed) => reserved is Some && zeroed@ == Seq::new(
                bytes as nat,
                |index: int| 0u8,
            ),
            None => reserved is None,
        },
{
    match reserved {
        Some(empty) => {
            let mut buffer = empty;
            buffer.resize(bytes, 0);
            assert(buffer@ =~= Seq::new(bytes as nat, |index: int| 0u8));
            Some(buffer)
        },
        None => None,
    }
}

/// A buffer of this many zeros, or None when memory runs short. No bytes need no memory, and more than a
/// buffer can ever hold are refused; between the two, whether the memory is there is the machine's to
/// say.
pub fn try_zeroed_buffer(bytes: usize) -> (buffer: Option<Vec<u8>>)
    ensures
        buffer matches Some(zeroed) ==> zeroed@ == Seq::new(bytes as nat, |index: int| 0u8),
        bytes == 0 ==> buffer is Some,
        bytes > isize::MAX ==> buffer is None,
{
    if bytes > isize::MAX as usize {
        return None;
    }
    let mut buffer: Vec<u8> = Vec::new();
    if bytes == 0 {
        return zeroed_on(Some(buffer), bytes);
    }
    match buffer.try_reserve(bytes) {
        Ok(_) => zeroed_on(Some(buffer), bytes),
        Err(_) => zeroed_on(None, bytes),
    }
}

/// Bytes of this many canvas-sized frames pass the limit.
pub open spec fn past_animation_budget(frame_count: int, canvas_bytes: int) -> bool {
    frame_count * canvas_bytes > MAXIMUM_ANIMATION_FRAMES_BYTES
}

/// Whether `frame_count` canvas-sized frames would expand past the byte limit.
pub fn animation_budget_exceeded(frame_count: u64, canvas_bytes: u64) -> (exceeded: bool)
    ensures
        exceeded == past_animation_budget(frame_count as int, canvas_bytes as int),
{
    assert(frame_count * canvas_bytes <= u64::MAX * u64::MAX) by (nonlinear_arith)
        requires
            frame_count <= u64::MAX,
            canvas_bytes <= u64::MAX,
    ;
    frame_count as u128 * canvas_bytes as u128 > MAXIMUM_ANIMATION_FRAMES_BYTES as u128
}

} // verus!
