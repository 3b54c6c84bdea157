//! Where a dialog is placed and where its controls sit.

use vstd::prelude::*;

verus! {

/// A rectangle by its edges.
#[derive(Clone, Copy, PartialEq, Eq, Structural, Debug)]
pub struct Rect {
    pub left: i32,
    pub top: i32,
    pub right: i32,
    pub bottom: i32,
}

impl Rect {
    pub open spec fn across(self) -> int {
        self.right - self.left
    }

    pub open spec fn down(self) -> int {
        self.bottom - self.top
    }

    /// Its width and height are numbers a coordinate can hold.
    pub open spec fn measurable(self) -> bool {
        i32::MIN <= self.across() <= i32::MAX && i32::MIN <= self.down() <= i32::MAX
    }
}

/// Half of a number, rounded toward zero.
pub open spec fn half(value: int) -> int {
    if value >= 0 {
        value / 2
    } else {
        -((-value) / 2)
    }
}

fn halved(value: i64) -> (result: i64)
    requires
        -0x1_0000_0000_0000 <= value <= 0x1_0000_0000_0000,
    ensures
        result == half(value as int),
{
    if value >= 0 {
        (value as u64 / 2) as i64
    } else {
        -(((-value) as u64 / 2) as i64)
    }
}

/// Where a dialog goes that is centered within its owner.
pub open spec fn centered(owner: Rect, dialog: Rect) -> (int, int) {
    (
        owner.left + half(owner.across() - dialog.across()),
        owner.top + half(owner.down() - dialog.down()),
    )
}

/// A place the coordinates of the screen can hold.
pub open spec fn placeable(place: (int, int)) -> bool {
    i32::MIN <= place.0 <= i32::MAX && i32::MIN <= place.1 <= i32::MAX
}

pub fn center_on_owner(owner: &Rect, dialog: &Rect) -> (place: (i32, i32))
    requires
        owner.measurable(),
        dialog.measurable(),
        placeable(centered(*owner, *dialog)),
    ensures
        (place.0 as int, place.1 as int) == centered(*owner, *dialog),
{
    let across: i64 = (owner.right as i64 - owner.left as i64) - (dialog.right as i64
        - dialog.left as i64);
    let down: i64 = (owner.bottom as i64 - owner.top as i64) - (dialog.bottom as i64
        - dialog.top as i64);
    let x: i64 = owner.left as i64 + halved(across);
    let y: i64 = owner.top as i64 + halved(down);
    (x as i32, y as i32)
}

/// A coordinate held between the two ends of the work area; the low end counts where both cannot.
pub open spec fn held(place: int, extent: int, low: int, high: int) -> int {
    let kept = if place < high - extent {
        place
    } else {
        high - extent
    };
    if kept > low {
        kept
    } else {
        low
    }
}

fn hold(place: i32, extent: i32, low: i32, high: i32) -> (kept: i32)
    requires
        i32::MIN <= high - extent <= i32::MAX,
    ensures
        kept == held(place as int, extent as int, low as int, high as int),
{
    let limit: i32 = high - extent;
    let kept: i32 = if place < limit {
        place
    } else {
        limit
    };
    if kept > low {
        kept
    } else {
        low
    }
}

/// Holds a placement inside a work area. Clamped low last, so a dialog taller than the work area keeps
/// its top left corner.
pub fn clamp_to_work_area(x: i32, y: i32, width: i32, height: i32, work_area: &Rect) -> (place: (
    i32,
    i32,
))
    requires
        i32::MIN <= work_area.right - width <= i32::MAX,
        i32::MIN <= work_area.bottom - height <= i32::MAX,
    ensures
        place.0 == held(x as int, width as int, work_area.left as int, work_area.right as int),
        place.1 == held(y as int, height as int, work_area.top as int, work_area.bottom as int),
{
    (
        hold(x, width, work_area.left, work_area.right),
        hold(y, height, work_area.top, work_area.bottom),
    )
}

/// A dialog that fits the work area lies inside it; one that does not keeps its top left corner there.
pub proof fn lemma_clamped_dialog_is_in_view(place: int, extent: int, low: int, high: int)
    requires
        low <= high,
        0 <= extent,
    ensures
        low <= held(place, extent, low, high),
        extent <= high - low ==> held(place, extent, low, high) + extent <= high,
        extent > high - low ==> held(place, extent, low, high) == low,
        low <= place && place + extent <= high ==> held(place, extent, low, high) == place,
{
}

/// Centering leaves as much room on one side as on the other, but for a rounding.
pub proof fn lemma_centering_is_even(owner: Rect, dialog: Rect)
    requires
        dialog.across() <= owner.across(),
    ensures
        ({
            let before = centered(owner, dialog).0 - owner.left;
            let after = owner.right - (centered(owner, dialog).0 + dialog.across());
            before == after || before + 1 == after
        }),
{
}

/// How much wider and taller a page is than the template it was written for.
pub fn page_stretch(template: &Rect, client: &Rect) -> (stretch: (i32, i32))
    requires
        i32::MIN <= client.right - template.right <= i32::MAX,
        i32::MIN <= client.bottom - template.bottom <= i32::MAX,
    ensures
        stretch.0 == client.right - template.right,
        stretch.1 == client.bottom - template.bottom,
{
    (client.right - template.right, client.bottom - template.bottom)
}

/// A row of the About page: where it begins and how tall it is.
#[derive(Clone, Copy, PartialEq, Eq, Structural, Debug)]
pub struct RowBounds {
    pub top: i32,
    pub height: i32,
}

/// How far the rows move so that they stand in the middle of the page as one block.
pub open spec fn block_offset(page_height: int, rows: Seq<RowBounds>) -> int {
    let top = rows[0].top;
    let bottom = rows.last().top + rows.last().height;
    half(page_height - (bottom - top)) - top
}

/// Where each row of a page goes: the rows keep their spacing and stand in the middle as one block.
pub fn layout_centered(page_height: i32, rows: &Vec<RowBounds>) -> (tops: Vec<i32>)
    requires
        rows@.len() > 0,
        forall|index: int|
            0 <= index < rows@.len() ==> i32::MIN <= (#[trigger] rows@[index]).top + block_offset(
                page_height as int,
                rows@,
            ) <= i32::MAX,
    ensures
        tops@.len() == rows@.len(),
        forall|index: int|
            0 <= index < rows@.len() ==> #[trigger] tops@[index] == rows@[index].top + block_offset(
                page_height as int,
                rows@,
            ),
{
    let first: i64 = rows[0].top as i64;
    let last = rows[rows.len() - 1];
    let bottom: i64 = last.top as i64 + last.height as i64;
    let offset: i64 = halved(page_height as i64 - (bottom - first)) - first;
    let mut tops: Vec<i32> = Vec::new();
    let mut index: usize = 0;
    while index < rows.len()
        invariant
            rows@.len() > 0,
            offset == block_offset(page_height as int, rows@),
            -0x1_0000_0000_0000 <= offset <= 0x1_0000_0000_0000,
            index <= rows@.len(),
            tops@.len() == index,
            forall|place: int|
                0 <= place < rows@.len() ==> i32::MIN <= (#[trigger] rows@[place]).top
                    + block_offset(page_height as int, rows@) <= i32::MAX,
            forall|earlier: int|
                0 <= earlier < index ==> #[trigger] tops@[earlier] == rows@[earlier].top
                    + block_offset(page_height as int, rows@),
        decreases rows@.len() - index,
    {
        assert(i32::MIN <= rows@[index as int].top + block_offset(page_height as int, rows@)
            <= i32::MAX);
        let top: i64 = rows[index].top as i64 + offset;
        tops.push(top as i32);
        index += 1;
    }
    tops
}

/// The block leaves as much room above as below, but for a rounding, and its rows keep their distances.
pub proof fn lemma_block_is_centered(page_height: int, rows: Seq<RowBounds>)
    requires
        rows.len() > 0,
        rows.last().top + rows.last().height - rows[0].top <= page_height,
    ensures
        ({
            let offset = block_offset(page_height, rows);
            let above = rows[0].top + offset;
            let below = page_height - (rows.last().top + rows.last().height + offset);
            above == below || above + 1 == below
        }),
{
}

/// Where the link goes: shrunk to its ideal size and centered, or across the whole row where it cannot
/// be measured. (left, width, height)
pub open spec fn link_bounds(
    page_width: int,
    ideal_width: int,
    ideal_height: int,
    measured_height: int,
    fallback_height: int,
) -> (int, int, int) {
    if ideal_width > 0 {
        (
            half(page_width - ideal_width),
            ideal_width,
            if measured_height > ideal_height {
                measured_height
            } else {
                ideal_height
            },
        )
    } else {
        (0, page_width, fallback_height)
    }
}

pub fn place_link(
    page_width: i32,
    ideal_width: i32,
    ideal_height: i32,
    measured_height: i32,
    fallback_height: i32,
) -> (bounds: (i32, i32, i32))
    requires
        i32::MIN <= page_width - ideal_width <= i32::MAX,
    ensures
        (bounds.0 as int, bounds.1 as int, bounds.2 as int) == link_bounds(
            page_width as int,
            ideal_width as int,
            ideal_height as int,
            measured_height as int,
            fallback_height as int,
        ),
{
    if ideal_width > 0 {
        let height: i32 = if measured_height > ideal_height {
            measured_height
        } else {
            ideal_height
        };
        (halved(page_width as i64 - ideal_width as i64) as i32, ideal_width, height)
    } else {
        (0, page_width, fallback_height)
    }
}

/// The dots per inch a screen is taken to have, at least.
pub const MINIMUM_DPI: u32 = 96;

/// The height a font of this point size takes, in dots.
pub open spec fn dots_high(point_size: u32, dpi: u32) -> int {
    point_size * (if dpi < MINIMUM_DPI {
        MINIMUM_DPI
    } else {
        dpi
    }) / 72
}

/// The height a font of this point size is asked for; a negative height is that of the characters.
pub fn font_height(point_size: u32, dpi: u32) -> (height: i32)
    requires
        dots_high(point_size, dpi) <= i32::MAX,
    ensures
        height == -dots_high(point_size, dpi),
{
    let dots: u32 = if dpi < MINIMUM_DPI {
        MINIMUM_DPI
    } else {
        dpi
    };
    assert(0 <= point_size * dots <= u32::MAX * u32::MAX) by (nonlinear_arith)
        requires
            0 <= point_size <= u32::MAX,
            0 <= dots <= u32::MAX,
    ;
    let height: u64 = point_size as u64 * dots as u64 / 72;
    -(height as i32)
}

/// The part of a buffer before the first zero, from an index on.
pub open spec fn end_from(units: Seq<u16>, index: int) -> int
    decreases units.len() - index,
{
    if index < 0 || index >= units.len() || units[index] == 0 {
        index
    } else {
        end_from(units, index + 1)
    }
}

/// Where the text in a buffer ends: at the first zero, or with the buffer.
pub fn text_end(units: &[u16]) -> (end: usize)
    ensures
        end == end_from(units@, 0),
        end <= units@.len(),
{
    let mut index: usize = 0;
    while index < units.len() && units[index] != 0
        invariant
            index <= units@.len(),
            end_from(units@, 0) == end_from(units@, index as int),
        decreases units@.len() - index,
    {
        index += 1;
    }
    index
}

} // verus!
