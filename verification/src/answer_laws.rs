//! What the answers of single functions come to.

use vstd::prelude::*;

use crate::actions::{Action, ActionRequirement};
use crate::apng;
use crate::archive;
use crate::archive::{ArchiveError, EntryHeader, MemberInfo, MemberVerdict};
use crate::build_plan;
use crate::bundled;
use crate::bundled::HeifPlane;
use crate::bytes;
use crate::capture;
use crate::capture::{FieldAction, KeyFieldEvent, ListAction, ListEvent};
use crate::decode;
use crate::decode::{SubresolutionStep, Turn};
use crate::display::{AdvancedColorKind, DisplayCapabilities};
use crate::frame_laws;
use crate::frame_pipeline::{FramePipeline, PeakSource};
use crate::gain_map::MpfReader;
use crate::gain_map_laws;
use crate::gif;
use crate::hdr;
use crate::hdr::{HdrEncoding, HdrPrimaries, HdrTransfer, Peak};
use crate::icc;
use crate::icc::ToneCurve;
use crate::image::{DecodeError, DecodedImage, GainMapPlane, PixelStorage, PrimaryBits};
use crate::keys;
use crate::keys::MouseBase;
use crate::listing;
use crate::listing::{CoreOptions, ItemMetadata, ListingEntry, SortMode};
use crate::listing_laws;
use crate::location::{ItemLocation, Place};
use crate::navigation::{AnchorIndex, NavigationCommand};
use crate::path::FilePath;
use crate::placement;
use crate::placement::Rect;
use crate::registry;
use crate::registry::{ImageFormat, PreviewStage};
use crate::resource;
use crate::search;
use crate::session::ImageCore;
use crate::session_model::RequestModel;
use crate::session_parts;
use crate::session_parts::{DecodeJob, PlaylistWindow};
use crate::settings_dialog;
use crate::strings;
use crate::svg;
use crate::text_input;
use crate::text_input::{TextInputAction, TextInputEvent, TextInputRequest};
use crate::view_laws;
use crate::weight;
use crate::worker;
use crate::worker::{NetworkError, ProbeStep};

verus! {

/// A pixel's bits are shared out evenly among its channels, and what is left over is less than one each.
pub proof fn lemma_channels_share_the_bits(bits_per_pixel: u32, channel_count: u32, bits: u32)
    requires
        call_ensures(decode::bits_per_channel, (bits_per_pixel, channel_count), bits),
    ensures
        channel_count > 0 ==> bits * channel_count <= bits_per_pixel < (bits + 1) * channel_count,
        channel_count == 0 ==> bits == 8,
{
    if channel_count > 0 {
        vstd::arithmetic::div_mod::lemma_fundamental_div_mod(
            bits_per_pixel as int,
            channel_count as int,
        );
        vstd::arithmetic::div_mod::lemma_mod_bound(bits_per_pixel as int, channel_count as int);
        assert(bits * channel_count <= bits_per_pixel < (bits + 1) * channel_count)
            by (nonlinear_arith)
            requires
                bits_per_pixel == channel_count * bits + bits_per_pixel as int
                    % (channel_count as int),
                0 <= bits_per_pixel as int % (channel_count as int),
                bits_per_pixel as int % (channel_count as int) < channel_count,
        ;
    }
}

/// The four ways to pan are a unit each, and opposite ways are opposite units: the view that goes up brings
/// the image down, and the view that goes left brings it to the right. No other action pans.
pub proof fn lemma_panning_goes_four_ways(
    up: Option<(i32, i32)>,
    down: Option<(i32, i32)>,
    left: Option<(i32, i32)>,
    right: Option<(i32, i32)>,
    other: Action,
    none: Option<(i32, i32)>,
)
    requires
        call_ensures(Action::pan_direction, (Action::PanUp,), up),
        call_ensures(Action::pan_direction, (Action::PanDown,), down),
        call_ensures(Action::pan_direction, (Action::PanLeft,), left),
        call_ensures(Action::pan_direction, (Action::PanRight,), right),
        call_ensures(Action::pan_direction, (other,), none),
        other != Action::PanUp && other != Action::PanDown && other != Action::PanLeft && other
            != Action::PanRight,
    ensures
        none is None,
        up matches Some(way) && way.0 == 0 && way.1 == 1 && down == Some(
            (-way.0 as i32, -way.1 as i32),
        ),
        left matches Some(way) && way.0 == 1 && way.1 == 0 && right == Some(
            (-way.0 as i32, -way.1 as i32),
        ),
{
}

/// A time in two words has the high one count as many times the low one holds, and none is before 1970.
pub proof fn lemma_time_is_put_together(high: u32, low: u32, time: Option<u64>)
    requires
        call_ensures(decode::taken_time, (high, low), time),
    ensures
        time matches Some(found) ==> found as int % 0x1_0000_0000 == low && found as int
            / 0x1_0000_0000 == high && found >= archive::member_time(0),
        time is None ==> high * 0x1_0000_0000 + low < archive::member_time(0),
{
}

/// A gain map reaches no further than the display's peak, nor than what it sustains over a full frame, and
/// as far as the lesser of the two; without HDR or a peak it has no ceiling.
pub proof fn lemma_gain_map_reaches_the_lesser_limit(
    capabilities: DisplayCapabilities,
    ceiling: Option<u32>,
)
    requires
        call_ensures(DisplayCapabilities::gain_map_ceiling, (&capabilities,), ceiling),
    ensures
        ceiling is Some <==> capabilities.hdr && capabilities.maximum_luminance_nits is Some,
        ceiling matches Some(nits) ==> {
            &&& nits <= capabilities.maximum_luminance_nits->0
            &&& capabilities.maximum_full_frame_luminance_nits matches Some(full_frame) ==> nits
                <= full_frame
            &&& nits == capabilities.maximum_luminance_nits->0
                || capabilities.maximum_full_frame_luminance_nits == Some(nits)
        },
{
}

/// White is boosted on an HDR output alone, and the display's own profile is read where nothing else
/// manages its color.
pub proof fn lemma_boost_and_profile_follow_the_mode(
    capabilities: DisplayCapabilities,
    hdr_output: bool,
    boost: u32,
    read: bool,
)
    requires
        call_ensures(
            DisplayCapabilities::sdr_white_boost_for,
            (&capabilities, hdr_output),
            boost,
        ),
        call_ensures(DisplayCapabilities::reads_display_profile, (&capabilities,), read),
    ensures
        hdr_output ==> boost == capabilities.sdr_white_boost,
        !hdr_output ==> boost == 0x3F80_0000,
        read <==> capabilities.mode() == "SDR"@,
{
    reveal_strlit("SDR");
    reveal_strlit("HDR");
    reveal_strlit("WCG");
    assert("SDR"@[0] == 'S' && "HDR"@[0] == 'H' && "WCG"@[0] == 'W');
}

/// A wheel turned away scrolls up and one turned back down; the button with the second bit leads forward.
pub proof fn lemma_mouse_directions(
    delta: i16,
    turned: MouseBase,
    flags: u16,
    pressed: MouseBase,
)
    requires
        call_ensures(MouseBase::from_wheel_delta, (delta,), turned),
        call_ensures(MouseBase::from_xbutton_flags, (flags,), pressed),
    ensures
        delta > 0 ==> turned == MouseBase::WheelUp,
        delta < 0 ==> turned == MouseBase::WheelDown,
        (flags as int / 2) % 2 == 1 ==> pressed == MouseBase::Forward,
        (flags as int / 2) % 2 == 0 ==> pressed == MouseBase::Back,
{
    assert((flags & 2 != 0) == ((flags / 2) % 2 == 1)) by (bit_vector);
}

/// The keys held down are told apart in the modifiers: control counts one, shift two, alt four and either
/// of the system's keys eight.
pub proof fn lemma_held_modifiers_add_up(
    control: bool,
    shift: bool,
    alt: bool,
    left: bool,
    right: bool,
    modifiers: u8,
)
    requires
        call_ensures(keys::pressed_modifiers, (control, shift, alt, left, right), modifiers),
    ensures
        modifiers % 2 == 1 <==> control,
        (modifiers / 2) % 2 == 1 <==> shift,
        (modifiers / 4) % 2 == 1 <==> alt,
        modifiers / 8 == 1 <==> left || right,
{
    assert((modifiers & 1 != 0) == (modifiers % 2 == 1)) by (bit_vector);
    assert((modifiers & 2 != 0) == ((modifiers / 2) % 2 == 1)) by (bit_vector);
    assert((modifiers & 4 != 0) == ((modifiers / 4) % 2 == 1)) by (bit_vector);
    assert(modifiers < 16 ==> (modifiers & 8 != 0) == (modifiers / 8 == 1)) by (bit_vector);
}

/// The setting chooses the order in the order of the list it is chosen from: by name, by the time of the
/// last change, by the time of creation, by size, by type; anything else is by name.
pub proof fn lemma_setting_chooses_the_order(value: u32, mode: SortMode)
    requires
        call_ensures(SortMode::from_setting, (value,), mode),
    ensures
        value == 1 <==> mode == SortMode::Modified,
        value == 2 <==> mode == SortMode::Created,
        value == 3 <==> mode == SortMode::Size,
        value == 4 <==> mode == SortMode::Type,
        value == 0 || value > 4 <==> mode == SortMode::Name,
{
}

/// A resource may take a quarter of the adapter's memory, 128 mebibytes at least and two gibibytes at most.
pub proof fn lemma_resources_take_a_quarter(memory: u64, bytes: u64)
    requires
        call_ensures(weight::maximum_resource_bytes, (memory,), bytes),
    ensures
        128 * 1024 * 1024 <= bytes <= 2 * 1024 * 1024 * 1024,
        512 * 1024 * 1024 <= memory <= 8 * 1024 * 1024 * 1024 ==> bytes * 4 <= memory < bytes * 4 + 4,
        memory < 512 * 1024 * 1024 ==> bytes == 128 * 1024 * 1024,
        memory > 8 * 1024 * 1024 * 1024 ==> bytes == 2 * 1024 * 1024 * 1024,
{
}

/// A strip has 256 rows, or what is left where that is less.
pub proof fn lemma_strips_have_their_rows(row: u32, height: u32, rows: u32)
    requires
        row < height,
        call_ensures(weight::strip_rows, (row, height), rows),
    ensures
        row + 256 <= height ==> rows == 256,
        row + 256 > height ==> row + rows == height,
{
}

/// A probe reads a file's header and a member whole; a cancelled one reads nothing, and nor does a URL's.
pub proof fn lemma_probes_read_what_they_must(job: DecodeJob, cancelled: bool, step: ProbeStep)
    requires
        call_ensures(worker::probe_step, (&job, cancelled), step),
    ensures
        step == ProbeStep::ReadFile <==> !cancelled && job@.location is File,
        step == ProbeStep::ReadMember <==> !cancelled && job@.location is ArchiveMember,
        cancelled ==> step == (ProbeStep::Report { cancelled: true }),
        !cancelled && job@.location is Url ==> step == (ProbeStep::Report { cancelled: false }),
{
}

/// As many threads decode as the machine runs at once, eight at most, and two where it does not say.
pub proof fn lemma_threads_follow_the_machine(count: usize, workers: usize, unsaid: usize)
    requires
        call_ensures(worker::worker_count, (Some(count),), workers),
        call_ensures(worker::worker_count, (None::<usize>,), unsaid),
    ensures
        count <= 8 ==> workers == count,
        count >= 8 ==> workers == 8,
        unsaid == 2,
{
}

/// A download reports at once, and then a tenth of a second after its last report at the earliest.
pub proof fn lemma_downloads_report_by_the_tenth(elapsed: u64, reported: bool, first: bool)
    requires
        call_ensures(worker::reports_progress, (Some(elapsed),), reported),
        call_ensures(worker::reports_progress, (None::<u64>,), first),
    ensures
        first,
        reported <==> elapsed * 10 >= 1_000_000_000,
{
}

/// A canvas is declared where both of its sides are, and have pixels.
pub proof fn lemma_declared_canvas_has_pixels(
    width: Option<u32>,
    height: Option<u32>,
    size: Option<(u32, u32)>,
)
    requires
        call_ensures(gif::declared_canvas, (width, height), size),
    ensures
        size matches Some(found) ==> width == Some(found.0) && height == Some(found.1) && found.0 > 0
            && found.1 > 0,
        width is Some && height is Some && width->0 > 0 && height->0 > 0 ==> size is Some,
{
}

/// A peak is looked for in halves alone: as they are linearized, where an encoding is undone, and by
/// scanning them elsewhere.
pub proof fn lemma_peak_is_found_in_halves(pipeline: FramePipeline, source: PeakSource)
    requires
        call_ensures(FramePipeline::peak_source, (&pipeline,), source),
    ensures
        source == PeakSource::Absent <==> pipeline.storage == PixelStorage::Bgra8,
        source == PeakSource::Linearized <==> pipeline.storage == PixelStorage::RgbaHalf
            && pipeline.encoding is Some,
{
}

/// A float's bits are those nearest a number of so many ten-thousandths.
pub open spec fn is_nearest(bits: u32, ten_thousandths: int) -> bool {
    let significand = bits as int % 0x80_0000 + 0x80_0000;
    let exponent = bits as int / 0x80_0000;
    let scale = vstd::arithmetic::power2::pow2((150 - exponent) as nat);
    &&& 119 <= exponent <= 126
    &&& -10000 <= 2 * (significand * 10000 - ten_thousandths * scale) <= 10000
}

/// The primaries of an encoding are those of its standard, in ten-thousandths across and up.
pub proof fn lemma_primaries_are_the_standard_ones(encoding: HdrEncoding, primaries: PrimaryBits)
    requires
        call_ensures(HdrEncoding::source_primaries, (encoding,), primaries),
    ensures
        encoding.primaries == HdrPrimaries::Bt709 ==> is_nearest((primaries.0).0, 6400) && is_nearest(
            (primaries.0).1,
            3300,
        ) && is_nearest((primaries.1).0, 3000) && is_nearest((primaries.1).1, 6000) && is_nearest(
            (primaries.2).0,
            1500,
        ) && is_nearest((primaries.2).1, 600),
        encoding.primaries == HdrPrimaries::DisplayP3 ==> is_nearest((primaries.0).0, 6800)
            && is_nearest((primaries.0).1, 3200) && is_nearest((primaries.1).0, 2650) && is_nearest(
            (primaries.1).1,
            6900,
        ) && is_nearest((primaries.2).0, 1500) && is_nearest((primaries.2).1, 600),
        encoding.primaries == HdrPrimaries::Bt2020 ==> is_nearest((primaries.0).0, 7080)
            && is_nearest((primaries.0).1, 2920) && is_nearest((primaries.1).0, 1700) && is_nearest(
            (primaries.1).1,
            7970,
        ) && is_nearest((primaries.2).0, 1310) && is_nearest((primaries.2).1, 460),
{
    vstd::arithmetic::power2::lemma2_to64();
}

/// A cross is inset by a quarter of its square, its strokes a tenth of it wide, a dot at least.
pub proof fn lemma_cross_fits_its_square(side: u32, strokes: (u32, u32))
    requires
        call_ensures(capture::icon_strokes, (side,), strokes),
    ensures
        strokes.0 * 4 <= side < strokes.0 * 4 + 4,
        strokes.1 >= 1,
        side >= 10 ==> strokes.1 * 10 <= side < strokes.1 * 10 + 10,
        side < 10 ==> strokes.1 == 1,
{
}

/// The rows that show end as many rows down as show.
pub proof fn lemma_rows_end_below_the_last(
    count: i32,
    first_shown: i32,
    item_height: i32,
    top: i32,
    next: i32,
)
    requires
        count < i32::MAX,
        call_ensures(capture::below_last_item, (count, first_shown, item_height), top),
        call_ensures(capture::below_last_item, ((count + 1) as i32, first_shown, item_height), next),
    ensures
        next - top == item_height,
        count == first_shown ==> top == 0,
{
    assert((count + 1 - first_shown) * item_height == (count - first_shown) * item_height
        + item_height) by (nonlinear_arith);
    assert(count == first_shown ==> (count - first_shown) * item_height == 0) by (nonlinear_arith);
}

/// The keys that only modify others are shift, control and alt, on either side, and the system's two.
pub proof fn lemma_modifier_keys(virtual_key: u16, modifier: bool)
    requires
        call_ensures(capture::is_modifier_key, (virtual_key,), modifier),
    ensures
        modifier <==> 16 <= virtual_key <= 18 || virtual_key == 91 || virtual_key == 92 || 160
            <= virtual_key <= 165,
{
    let keys = capture::MODIFIER_KEYS@;
    assert(keys[0] == 16 && keys[1] == 17 && keys[2] == 18 && keys[3] == 91 && keys[4] == 92
        && keys[5] == 160 && keys[6] == 161 && keys[7] == 162 && keys[8] == 163 && keys[9] == 164
        && keys[10] == 165);
}

/// A text field's OK keeps what was entered and its Cancel does not; a dialog that was not closed by OK
/// gives nothing back.
pub proof fn lemma_text_is_kept_by_ok(
    control: i32,
    action: TextInputAction,
    dialog_result: i64,
    entered: Option<String>,
    accepted: Option<String>,
)
    requires
        call_ensures(
            text_input::text_input_procedure,
            (TextInputEvent::Command { control },),
            action,
        ),
        call_ensures(text_input::accepted_text, (dialog_result, entered), accepted),
    ensures
        action == TextInputAction::Accept <==> control == 1,
        action == TextInputAction::Cancel <==> control == 2,
        dialog_result != 1 ==> accepted is None,
        dialog_result == 1 && entered is Some ==> accepted is Some && accepted->0@ == entered->0@,
{
}

/// A question is answered with yes by that button alone, and only where it was shown.
pub proof fn lemma_yes_is_its_own_button(shown: bool, pressed: i32, yes: bool)
    requires
        call_ensures(text_input::answered_yes, (shown, pressed), yes),
    ensures
        yes <==> shown && pressed == 6,
{
}

/// A tab selects the page at its place.
pub proof fn lemma_tab_selects_its_page(selected: i64, page: Option<usize>)
    requires
        call_ensures(settings_dialog::selected_page, (selected,), page),
    ensures
        page is Some <==> 0 <= selected < 7,
        page matches Some(found) ==> found == selected,
{
}

/// A page is stretched by what its frame is larger than its template.
pub proof fn lemma_page_stretches_to_its_frame(template: Rect, client: Rect, stretch: (i32, i32))
    requires
        call_ensures(placement::page_stretch, (&template, &client), stretch),
    ensures
        template.right + stretch.0 == client.right,
        template.bottom + stretch.1 == client.bottom,
{
}

/// A gain map plane fits where it has pixels, and no more of them than its base either way.
pub proof fn lemma_plane_fits_its_base(
    width: u32,
    height: u32,
    base_width: u32,
    base_height: u32,
    fits: bool,
)
    requires
        call_ensures(
            GainMapPlane::size_fits_within,
            (width, height, base_width, base_height),
            fits,
        ),
    ensures
        fits ==> width <= base_width && height <= base_height && width * height > 0,
        0 < width <= base_width && 0 < height <= base_height ==> fits,
{
    assert(width > 0 && height > 0 ==> width * height > 0) by (nonlinear_arith);
}

/// An animation opens on a frame of its own where there is more than one.
pub proof fn lemma_animations_open_early(frame_count: u64, early: bool)
    requires
        call_ensures(decode::opens_early, (frame_count,), early),
    ensures
        early <==> frame_count >= 2,
{
}

/// A compiled shader starts with its container's name.
pub proof fn lemma_compiled_shader_is_named(blob: &[u8], compiled: bool)
    requires
        call_ensures(build_plan::is_compiled_shader, (blob,), compiled),
    ensures
        compiled <==> blob@.len() >= 4 && blob@[0] as char == 'D' && blob@[1] as char == 'X'
            && blob@[2] as char == 'B' && blob@[3] as char == 'C',
{
}

/// The turn for an orientation brings each stored pixel to where the orientation says it belongs.
pub proof fn lemma_orientation_is_undone(
    orientation: u32,
    turn: Option<Turn>,
    width: int,
    height: int,
    x: int,
    y: int,
)
    requires
        call_ensures(decode::orientation_turn, (orientation,), turn),
    ensures
        ({
            let shown = frame_laws::brought_to(turn, width, height, x, y);
            &&& orientation == 1 ==> shown == (x, y)
            &&& orientation == 2 ==> shown == (width - 1 - x, y)
            &&& orientation == 3 ==> shown == (width - 1 - x, height - 1 - y)
            &&& orientation == 4 ==> shown == (x, height - 1 - y)
            &&& orientation == 5 ==> shown == (y, x)
            &&& orientation == 6 ==> shown == (height - 1 - y, x)
            &&& orientation == 7 ==> shown == (height - 1 - y, width - 1 - x)
            &&& orientation == 8 ==> shown == (y, width - 1 - x)
        }),
{
    frame_laws::lemma_turn_brings_pixels_upright(orientation, width, height, x, y);
}

/// A number of an index reads back as it was written in the index's own order, and there is none where its
/// bytes run past the file.
pub proof fn lemma_index_numbers_read_back(
    reader: MpfReader<'_>,
    offset: usize,
    written: u32,
    read: Option<u32>,
)
    requires
        call_ensures(MpfReader::read_u32, (&reader, offset), read),
    ensures
        read is None <==> reader.header + offset + 4 > reader.file@.len(),
        ({
            let at = reader.header + offset;
            let file = reader.file@;
            &&& read is Some && reader.little_endian && file[at] == written % 256 && file[at + 1]
                == written / 256 % 256 && file[at + 2] == written / 65536 % 256 && file[at + 3]
                == written / 16777216 ==> read == Some(written)
            &&& read is Some && !reader.little_endian && file[at + 3] == written % 256 && file[at + 2]
                == written / 256 % 256 && file[at + 1] == written / 65536 % 256 && file[at]
                == written / 16777216 ==> read == Some(written)
        }),
{
    gain_map_laws::lemma_word_reads_back(reader.file@, reader.header + offset, written as int);
}

/// The short numbers of an index read back the same way.
pub proof fn lemma_short_index_numbers_read_back(
    reader: MpfReader<'_>,
    offset: usize,
    written: u16,
    read: Option<u16>,
)
    requires
        call_ensures(MpfReader::read_u16, (&reader, offset), read),
    ensures
        read is None <==> reader.header + offset + 2 > reader.file@.len(),
        ({
            let at = reader.header + offset;
            let file = reader.file@;
            &&& read is Some && reader.little_endian && file[at] == written % 256 && file[at + 1]
                == written / 256 ==> read == Some(written)
            &&& read is Some && !reader.little_endian && file[at + 1] == written % 256 && file[at]
                == written / 256 ==> read == Some(written)
        }),
{
    gain_map_laws::lemma_short_reads_back(reader.file@, reader.header + offset, written as int);
}

/// Numbers outside an index are read greatest byte first.
pub proof fn lemma_plain_numbers_read_back(
    data: &[u8],
    offset: usize,
    word: u32,
    read: Option<u32>,
    short: u16,
    read_short: Option<u16>,
)
    requires
        call_ensures(bytes::read_u32_be, (data, offset), read),
        call_ensures(bytes::read_u16_be, (data, offset), read_short),
    ensures
        read is None <==> offset + 4 > data@.len(),
        read_short is None <==> offset + 2 > data@.len(),
        read is Some && data@[offset as int] == word / 16777216 && data@[offset + 1] == word / 65536
            % 256 && data@[offset + 2] == word / 256 % 256 && data@[offset + 3] == word % 256
            ==> read == Some(word),
        read_short is Some && data@[offset as int] == short / 256 && data@[offset + 1] == short % 256
            ==> read_short == Some(short),
{
}

/// A sorted listing runs by the key that was asked for, the names deciding where the key is the same.
pub proof fn lemma_sorting_runs_by_its_key(
    entries: Vec<ListingEntry>,
    options: CoreOptions,
    whole: Vec<ListingEntry>,
    low: int,
    high: int,
)
    requires
        call_ensures(listing::sort_entries, (entries, &options), whole),
        0 <= low < high < entries@.len(),
    ensures
        whole@.len() == entries@.len(),
        ({
            let (first, second) = if options.sort_descending {
                (whole@[high], whole@[low])
            } else {
                (whole@[low], whole@[high])
            };
            match options.sort_mode {
                SortMode::Name => first.name_rank <= second.name_rank,
                SortMode::Modified => first.modified > second.modified || (first.modified
                    == second.modified && first.name_rank <= second.name_rank),
                SortMode::Created => first.created > second.created || (first.created
                    == second.created && first.name_rank <= second.name_rank),
                SortMode::Size => first.file_size > second.file_size || (first.file_size
                    == second.file_size && first.name_rank <= second.name_rank),
                SortMode::Type => !listing_laws::reads_before(second.format_name@, first.format_name@),
            }
        }),
{
    listing_laws::lemma_listing_runs_by_its_key(
        listing::entry_models(entries@),
        options,
        low,
        high,
    );
    let models = listing::entry_models(whole@);
    assert(models[low] == whole@[low]@);
    assert(models[high] == whole@[high]@);
}

/// The first and the last command lead to the ends of the listing.
pub proof fn lemma_commands_lead_to_the_ends(
    core: ImageCore,
    first: Option<ItemLocation>,
    last: Option<ItemLocation>,
)
    requires
        call_ensures(ImageCore::navigation_target, (&core, NavigationCommand::First), first),
        call_ensures(ImageCore::navigation_target, (&core, NavigationCommand::Last), last),
        core@.entries.len() <= usize::MAX,
    ensures
        core@.entries.len() == 0 ==> first is None && last is None,
        core@.entries.len() > 0 ==> first is Some && first->0@ == core@.entries[0].location,
        core@.entries.len() > 0 ==> last is Some && last->0@ == core@.entries[core@.entries.len()
            - 1].location,
{
    view_laws::lemma_ends_of_the_listing(core@);
}

/// A frame within the texture limit weighs four bytes a pixel, and eight where a channel has more than
/// eight bits.
pub proof fn lemma_deep_frames_weigh_double(
    width: u32,
    height: u32,
    bits: u32,
    weighed: u64,
)
    requires
        width <= 16384 && height <= 16384,
        call_ensures(decode::frame_weight, (width, height, bits), weighed),
    ensures
        bits <= 8 ==> weighed == width * height * 4,
        bits > 8 ==> weighed == width * height * 8,
{
    assert(0 <= width * height <= 16384 * 16384) by (nonlinear_arith)
        requires
            width <= 16384,
            height <= 16384,
    ;
    assert(width * height * 4 == (width * height) * 4 && width * height * 8 == (width * height) * 8);
}

/// A WebP's header weighs the canvas that its two sides name, across first.
pub proof fn lemma_webp_header_weighs_its_canvas(
    header: &[u8],
    across: int,
    down: int,
    weighed: Option<u64>,
)
    requires
        1 <= across <= 16384,
        1 <= down <= 16384,
        call_ensures(weight::probe_webp_weight, (header,), weighed),
    ensures
        weighed is Some <==> header@.len() >= 30,
        header@.len() >= 30 && header@[24] == (across - 1) % 256 && header@[25] == (across - 1) / 256
            % 256 && header@[26] == 0 && header@[27] == (down - 1) % 256 && header@[28] == (down - 1)
            / 256 % 256 && header@[29] == 0 ==> weighed == Some((across * down * 4) as u64),
{
    assert(0 <= across * down <= 16384 * 16384) by (nonlinear_arith)
        requires
            1 <= across <= 16384,
            1 <= down <= 16384,
    ;
}

/// A PNG weighs by the frames it declares: one where it does not animate.
pub proof fn lemma_png_weighs_its_frames(
    width: u32,
    height: u32,
    frames: u32,
    still: u64,
    moving: u64,
)
    requires
        width <= 1024 && height <= 1024,
        2 <= frames <= 256,
        call_ensures(apng::information_weight, (width, height, None::<u32>), still),
        call_ensures(apng::information_weight, (width, height, Some(frames)), moving),
    ensures
        still == width * height * 4,
        moving == still * frames,
{
    assert(0 <= width * height <= 1024 * 1024) by (nonlinear_arith)
        requires
            width <= 1024,
            height <= 1024,
    ;
    let canvas = width * height * 4;
    assert(0 <= frames * canvas <= 256 * 4 * 1024 * 1024) by (nonlinear_arith)
        requires
            0 <= canvas <= 4 * 1024 * 1024,
            2 <= frames <= 256,
    ;
    assert(frames * canvas == canvas * frames) by (nonlinear_arith);
}

/// A preview the decoder cannot scale is no preview; one that is called off is not copied; any other is
/// copied whole, in rows of whole bytes.
pub proof fn lemma_preview_is_copied_whole(
    full: (u32, u32),
    closest: (u32, u32),
    cancelled: bool,
    step: SubresolutionStep,
)
    requires
        closest.0 <= 0x1000_0000,
        call_ensures(decode::subresolution_step, (full, closest, 32u32, cancelled), step),
    ensures
        step == SubresolutionStep::SingleStage <==> closest == full,
        step == SubresolutionStep::Cancelled <==> closest != full && cancelled,
        closest != full && !cancelled ==> step == (SubresolutionStep::Copy {
            stride: (closest.0 * 4) as u32,
            bytes: (closest.0 * 4 * closest.1) as u64,
        }),
{
    assert(decode::row_stride(closest.0 as int, 32) == closest.0 * 4);
}

/// A drawing that has no size cannot be drawn, nor one whose raster could not be had; any other is as large
/// as its geometry.
pub proof fn lemma_drawing_needs_a_size(
    geometry: Option<(u32, u32)>,
    raster: Option<Vec<u8>>,
    format_name: &'static str,
    result: Result<DecodedImage, DecodeError>,
)
    requires
        call_ensures(svg::decode_svg, (geometry, raster, format_name), result),
    ensures
        result is Ok <==> geometry is Some && raster is Some,
        result matches Ok(drawn) ==> geometry == Some((drawn@.width, drawn@.height))
            && drawn@.pixel_width == drawn@.width && drawn@.pixel_height == drawn@.height
            && drawn@.frames.len() == 1 && drawn@.frames[0].pixels.len() == raster->0@.len(),
{
}

/// A download's error is its own, a decode's error is told to come from a URL, and a picture stays.
pub proof fn lemma_download_answers_with_its_own(
    read: Result<Result<DecodedImage, DecodeError>, NetworkError>,
    result: Result<DecodedImage, DecodeError>,
)
    requires
        call_ensures(worker::url_result, (read,), result),
    ensures
        result is Ok <==> (read is Ok && read->Ok_0 is Ok),
        read matches Err(error) ==> (result matches Err(answer) && (!error.cancelled ==> answer@.code
            == error.code && answer@.message == error.message@) && (error.cancelled
            ==> answer@.is_cancelled())),
{
}

/// What is downloaded is as large as what was received, and nothing else about it changes.
pub proof fn lemma_downloads_are_as_large_as_received(
    metadata: ItemMetadata,
    received: u64,
    known: ItemMetadata,
)
    requires
        call_ensures(worker::downloaded_metadata, (metadata, received), known),
    ensures
        known.file_size == received,
        known.modified == metadata.modified,
{
}

/// A decoder's code of zero is success, the code of the end ends a sequence, and every other one fails with
/// what the decoder said.
pub proof fn lemma_decoder_codes(
    code: i32,
    message: Option<&str>,
    result: Result<(), DecodeError>,
    status: Option<Result<(), DecodeError>>,
)
    requires
        call_ensures(bundled::heif_result, (code, message), result),
        call_ensures(bundled::sequence_status, (code, message), status),
    ensures
        result is Ok <==> code == 0,
        status is None <==> code == 13,
        status is Some && status->0 is Ok <==> code == 0,
        result matches Err(error) ==> (message matches Some(said) ==> error@.message == said@),
{
}

/// Code points outside a byte name no encoding; those inside it name what they name.
pub proof fn lemma_wide_code_points_name_nothing(
    primaries: i32,
    transfer: i32,
    encoding: Option<HdrEncoding>,
)
    requires
        call_ensures(bundled::heif_hdr_encoding, (primaries, transfer), encoding),
    ensures
        encoding is Some <==> (transfer == 16 || transfer == 18) && (primaries == 1 || primaries == 9
            || primaries == 12),
        encoding is Some ==> (encoding->0.transfer == HdrTransfer::PerceptualQuantizer <==> transfer
            == 16),
{
}

/// A picture's extent is the bytes of its rows, and a picture of more than a gibipixel is refused.
pub proof fn lemma_picture_extent_is_its_rows(
    plane: HeifPlane,
    storage: PixelStorage,
    result: Result<(u64, u64), DecodeError>,
)
    requires
        call_ensures(bundled::heif_extent, (&plane, storage), result),
    ensures
        result matches Ok(extent) ==> plane.present && plane.width > 0 && plane.height > 0
            && plane.width * plane.height <= 1024 * 1024 * 1024 && extent.0 == plane.width
            * storage.pixel_size() && extent.1 == extent.0 * plane.height && plane.stride >= extent.0,
        plane.present && plane.width > 0 && plane.height > 0 && 1 <= plane.source_bits <= 16
            && plane.stride >= plane.width * storage.pixel_size() && plane.width * plane.height
            <= 1024 * 1024 * 1024 ==> result is Ok,
{
}

/// A picture of halves takes eight bytes a pixel, and one of more than a gibipixel is refused.
pub proof fn lemma_half_picture_takes_eight_bytes_a_pixel(
    width: u32,
    height: u32,
    result: Result<u64, DecodeError>,
    unread: Result<u64, DecodeError>,
)
    requires
        call_ensures(bundled::exr_buffer_bytes, (Some((width, height)),), result),
        call_ensures(bundled::exr_buffer_bytes, (None::<(u32, u32)>,), unread),
    ensures
        result is Ok <==> width * height <= 1024 * 1024 * 1024,
        result matches Ok(taken) ==> taken == width * height * 8,
        unread is Err,
{
    assert(0 <= width * height) by (nonlinear_arith);
}

/// The curves and the colorants of a profile are those of its red, its green and its blue, in order.
pub proof fn lemma_profile_channels_in_order(
    profile: &[u8],
    curves: Option<(ToneCurve, ToneCurve, ToneCurve)>,
    colors: Option<(icc::Colorant, icc::Colorant, icc::Colorant)>,
)
    requires
        call_ensures(icc::tone_curves, (profile,), curves),
        call_ensures(icc::colorants, (profile,), colors),
    ensures
        curves matches Some(found) ==> icc::curve_of(
            profile@,
            ('r' as u8, 'T' as u8, 'R' as u8, 'C' as u8),
        ) == Some(found.0@) && icc::curve_of(
            profile@,
            ('g' as u8, 'T' as u8, 'R' as u8, 'C' as u8),
        ) == Some(found.1@) && icc::curve_of(
            profile@,
            ('b' as u8, 'T' as u8, 'R' as u8, 'C' as u8),
        ) == Some(found.2@),
        colors matches Some(found) ==> icc::colorant_of(
            profile@,
            ('r' as u8, 'X' as u8, 'Y' as u8, 'Z' as u8),
        ) == Some(found.0) && icc::colorant_of(
            profile@,
            ('g' as u8, 'X' as u8, 'Y' as u8, 'Z' as u8),
        ) == Some(found.1) && icc::colorant_of(
            profile@,
            ('b' as u8, 'X' as u8, 'Y' as u8, 'Z' as u8),
        ) == Some(found.2),
{
}

/// The samples of a curve stand two bytes apart, greatest byte first.
pub proof fn lemma_curve_samples_stand_in_order(
    profile: &[u8],
    start: usize,
    index: usize,
    sample: Option<u16>,
)
    requires
        call_ensures(icc::curve_sample, (profile, start, index), sample),
    ensures
        sample is Some <==> start + index * 2 + 2 <= profile@.len(),
        sample matches Some(value) ==> value == profile@[start + index * 2] * 256 + profile@[start
            + index * 2 + 1],
{
}

/// The peak of a picture within SDR white is no less than any of its colors, and is one of them.
pub proof fn lemma_peak_looks_at_every_color(
    pixels: &[u8],
    bins: Vec<u16>,
    peak: Option<Peak>,
    pixel: int,
    channel: int,
)
    requires
        call_ensures(hdr::peak_from_half_pixels, (pixels, &bins), peak),
        0 <= pixel < pixels@.len() / 8,
        0 <= channel < 3,
    ensures
        peak matches Some(Peak::Half(bits)) ==> hdr::normal_bits(
            hdr::half_at(pixels@, pixel, channel),
        ) <= bits,
{
    hdr::lemma_channel_maximum_bounds(pixels@, channel, pixels@.len() as int / 8, pixel);
}

/// A claimed depth is taken as it is within one and sixteen bits, and as the nearer of the two elsewhere.
pub proof fn lemma_depth_is_held_to_sixteen_bits(claimed: u32, held: u32)
    requires
        call_ensures(hdr::source_depth, (claimed,), held),
    ensures
        1 <= held <= 16,
        1 <= claimed <= 16 ==> held == claimed,
        claimed > 16 ==> held == 16,
{
}

/// A member is read where its name is the one that is wanted; it is refused where it is encrypted, or
/// declares more than a gibibyte; every other member is passed over.
pub proof fn lemma_wanted_member_is_read(
    header: EntryHeader,
    wanted: &str,
    verdict: MemberVerdict,
)
    requires
        call_ensures(archive::member_verdict, (&header, wanted), verdict),
    ensures
        verdict is Skip <==> !(header.name is Some && header.name->0@ == wanted@),
        verdict is Read ==> !header.data_encrypted && (header.size matches Some(bytes) ==> bytes
            <= 1024 * 1024 * 1024),
        header.name is Some && header.name->0@ == wanted@ && !header.data_encrypted && (
        header.size is None || header.size->0 <= 1024 * 1024 * 1024) ==> verdict is Read,
{
}

/// An archive whose metadata is hidden cannot be listed; nor can one that failed; any other lists its
/// members.
pub proof fn lemma_readable_archives_are_listed(
    headers: Vec<EntryHeader>,
    failure: Option<ArchiveError>,
    members: Result<Vec<MemberInfo>, ArchiveError>,
    index: int,
)
    requires
        call_ensures(archive::enumerate, (&headers, failure), members),
        0 <= index < headers@.len(),
    ensures
        headers@[index].metadata_encrypted ==> members is Err,
        failure is Some ==> members is Err,
        members matches Ok(list) ==> archive::member_models(list@) == archive::listed_members(
            archive::header_models(headers@),
        ),
{
    let models = archive::header_models(headers@);
    assert(models[index] == headers@[index]@);
    assert(models[index].metadata_encrypted == headers@[index].metadata_encrypted);
}

/// A key that only modifies others is shown and not captured; any other is sent with its modifiers.
pub proof fn lemma_modifiers_alone_are_not_captured(
    virtual_key: u16,
    modifiers: u8,
    action: FieldAction,
)
    requires
        call_ensures(
            capture::keyboard_field_procedure,
            (KeyFieldEvent::KeyDown { virtual_key }, modifiers),
            action,
        ),
    ensures
        capture::MODIFIER_KEYS@.contains(virtual_key) ==> action == FieldAction::Repaint,
        !capture::MODIFIER_KEYS@.contains(virtual_key) ==> (action matches FieldAction::Send { number }
            && capture::key_of_number(number) == (modifiers, virtual_key)),
{
    capture::lemma_captures_travel_whole(modifiers, virtual_key, MouseBase::Back);
}

/// A press inside the square at a row's right end removes that row; one outside it does not.
pub proof fn lemma_press_on_the_square_removes(
    x: i32,
    y: i32,
    row: usize,
    bounds: Rect,
    action: ListAction,
)
    requires
        bounds.measurable(),
        i32::MIN <= bounds.right - bounds.down() <= i32::MAX,
        call_ensures(
            capture::keyboard_list_procedure,
            (ListEvent::Press { x, y, selected: Some(row), bounds },),
            action,
        ),
    ensures
        action == ListAction::Remove(row) <==> bounds.right - (bounds.bottom - bounds.top) <= x
            < bounds.right && bounds.top <= y < bounds.bottom,
{
}

/// A recent file can be opened wherever there is a window.
pub proof fn lemma_recent_files_need_only_a_window(index: u8, requirement: ActionRequirement)
    requires
        call_ensures(Action::requirement, (Action::Recent(index),), requirement),
    ensures
        requirement == ActionRequirement::Window,
{
}

/// A window that fits the work area lies within it, across and down.
pub proof fn lemma_window_lies_in_the_work_area(
    x: i32,
    y: i32,
    width: i32,
    height: i32,
    area: Rect,
    place: (i32, i32),
)
    requires
        call_ensures(placement::clamp_to_work_area, (x, y, width, height, &area), place),
        0 <= width <= area.right - area.left,
        0 <= height <= area.bottom - area.top,
    ensures
        area.left <= place.0 && place.0 + width <= area.right,
        area.top <= place.1 && place.1 + height <= area.bottom,
        area.left <= x && x + width <= area.right ==> place.0 == x,
        area.top <= y && y + height <= area.bottom ==> place.1 == y,
{
}

/// Only the image page and the miscellaneous page have a number of their own.
pub proof fn lemma_pages_with_numbers(index: usize, control: Option<i32>)
    requires
        call_ensures(resource::number_field, (index,), control),
    ensures
        index == 1 ==> control == Some(resource::IDC_IMAGE_ZOOM_STEP_EDIT),
        index == 2 ==> control == Some(resource::IDC_MISCELLANEOUS_SLIDESHOW_INTERVAL_EDIT),
        index != 1 && index != 2 ==> control is None,
{
    reveal_with_fuel(resource::page_from, 4);
}

/// A raw image previews what it embeds, a JPEG XR a smaller resolution of itself, and nothing else previews.
pub proof fn lemma_previews_by_format(path: FilePath, stage: Option<PreviewStage>)
    requires
        call_ensures(registry::two_stage_preview, (&path,), stage),
    ensures
        stage == Some(PreviewStage::RawEmbedded) <==> registry::format_of_path_extension(path@)
            == Some(ImageFormat::Raw),
        stage == Some(PreviewStage::Subresolution) <==> registry::format_of_path_extension(path@)
            == Some(ImageFormat::JpegXr),
{
}

/// What a display can do follows the kind of color it reports; what it does not report has its default.
pub proof fn lemma_capabilities_follow_the_report(
    kind: Option<AdvancedColorKind>,
    bits: Option<u32>,
    peak: Option<u32>,
    full_frame: Option<u32>,
    boost: Option<u32>,
    found: DisplayCapabilities,
)
    requires
        call_ensures(
            DisplayCapabilities::from_snapshot,
            (kind, bits, peak, full_frame, boost),
            found,
        ),
    ensures
        found.hdr <==> kind == Some(AdvancedColorKind::HighDynamicRange),
        kind == Some(AdvancedColorKind::WideColorGamut) ==> found.advanced_color,
        kind is None || kind == Some(AdvancedColorKind::StandardDynamicRange)
            ==> !found.advanced_color,
        found.hdr ==> found.advanced_color,
        bits is None ==> found.bits_per_color == 8,
        bits is Some ==> Some(found.bits_per_color) == bits,
        boost is None ==> found.sdr_white_boost == 0x3F80_0000,
        boost is Some ==> Some(found.sdr_white_boost) == boost,
        found.maximum_luminance_nits is Some ==> found.maximum_luminance_nits == peak,
        found.maximum_full_frame_luminance_nits is Some ==> found.maximum_full_frame_luminance_nits
            == full_frame,
        peak matches Some(nits) ==> (0 < nits <= 0x7F80_0000 ==> found.maximum_luminance_nits == peak),
{
}

/// A session holds nothing where nothing shows, nothing is loading and no folder is being listed; the place
/// in the listing is counted from one.
pub proof fn lemma_session_says_where_it_is(
    core: ImageCore,
    empty: bool,
    position: Option<(usize, usize)>,
    elsewhere: bool,
)
    requires
        call_ensures(ImageCore::holds_no_item, (&core,), empty),
        call_ensures(ImageCore::listing_position, (&core,), position),
        call_ensures(ImageCore::has_navigation_targets, (&core,), elsewhere),
        core@.entries.len() < usize::MAX,
    ensures
        empty <==> core@.current is None && core@.pending_scan is None && !(core@.request is Pending),
        core@.anchor_index() matches AnchorIndex::Listed(index) ==> (position matches Some(found)
            && (index < core@.entries.len() ==> found.0 == index + 1) && found.1
            == core.entries@.len()),
        !(core@.anchor_index() is Listed) ==> position is None,
        core@.entries.len() >= 2 ==> elsewhere,
        core@.entries.len() == 0 ==> !elsewhere,
        core@.entries.len() == 1 ==> (elsewhere <==> !(core@.anchor_index() is Listed)),
{
}

/// An opening fails as missing where its own file failed with one of the two codes for that.
pub proof fn lemma_missing_file_is_told(core: ImageCore, path: FilePath, missing: bool)
    requires
        call_ensures(ImageCore::open_failed_missing, (&core, &path), missing),
    ensures
        missing ==> core@.request is Failed,
        core@.request matches RequestModel::Failed(location, error) ==> (location
            == Place::File(path@) ==> (missing <==> error.code == 2 || error.code == 3)),
{
}

/// The menu's window shows the entries from its first on, in order, and counts those it leaves out behind
/// the last.
pub proof fn lemma_window_shows_its_entries(
    core: ImageCore,
    capacity: usize,
    window: PlaylistWindow,
    slot: int,
)
    requires
        call_ensures(ImageCore::playlist_window, (&core, capacity), window),
        0 <= slot < window.locations@.len(),
    ensures
        window.locations@[slot]@ == core@.entries[window.first_index + slot].location,
        window.locations@.len() <= capacity,
        window.first_index + window.locations@.len() + window.hidden_after == core@.entries.len(),
        window.current_slot matches Some(current) ==> current < window.locations@.len(),
{
    let models = session_parts::place_models(window.locations@);
    assert(models[slot] == window.locations@[slot]@);
    assert(models.len() == window.locations@.len());
}

/// A shader is stale where it was never written, or where a source changed after it was.
pub proof fn lemma_stale_shaders(
    written: Option<u64>,
    times: &Vec<Option<u64>>,
    stale: bool,
    index: int,
)
    requires
        call_ensures(build_plan::is_stale, (written, times), stale),
        0 <= index < times@.len(),
    ensures
        written is None ==> stale,
        times@[index] is Some && written is Some && times@[index]->0 > written->0 ==> stale,
        written is Some && (forall|other: int|
            0 <= other < times@.len() ==> ((#[trigger] times@[other]) matches Some(changed) ==> changed
                <= written->0)) ==> !stale,
{
    if !stale {
        assert(!build_plan::any_changed_since(times@, written->0));
        assert(!build_plan::changed_since(times@[index], written->0));
    }
}

/// An entered name is kept as it is where it shows anything; an entered URL is kept without the white space
/// around it.
pub proof fn lemma_entered_texts_are_kept(
    entered: String,
    name: Option<String>,
    address: Option<String>,
)
    requires
        call_ensures(text_input::entered_name, (Some(entered),), name),
        call_ensures(text_input::entered_url, (Some(entered),), address),
    ensures
        name matches Some(kept) ==> kept@ == entered@,
        name is None <==> strings::blank(entered@),
        address matches Some(kept) ==> kept@ == search::trimmed(entered@) && kept@.len() > 0,
{
}

/// A renamed file has its stem preselected, and not its ending.
pub proof fn lemma_stem_is_preselected<'a>(name: &'a str, request: TextInputRequest<'a>)
    requires
        call_ensures(text_input::rename_request, (name,), request),
    ensures
        request.initial_text@ == name@,
        request.template == resource::IDD_RENAME,
        request.selection matches Some(range) && range.0 == 0,
{
}

} // verus!
