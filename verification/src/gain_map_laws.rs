//! How the index and the packets of a gain map read.

use vstd::prelude::*;

use crate::gain_map;
use crate::gain_map::{HdrgmNumbers, PlaneNumbers, PlaneTextModel, ReadCandidate};
use crate::image::{GainMapMetadata, ImageModel, PlaneModel};

verus! {

/// A number of two bytes reads back as it was written: least byte first in little-endian order,
/// greatest first in the other.
pub proof fn lemma_short_reads_back(file: Seq<u8>, at: int, value: int)
    requires
        0 <= value < 0x1_0000,
    ensures
        file[at] == value % 256 && file[at + 1] == value / 256 ==> gain_map::ordered_short(
            file,
            at,
            true,
        ) == value,
        file[at] == value / 256 && file[at + 1] == value % 256 ==> gain_map::ordered_short(
            file,
            at,
            false,
        ) == value,
        gain_map::ordered_short(file, at, true) == gain_map::ordered_short(
            seq![file[at + 1], file[at]],
            0,
            false,
        ),
{
}

/// A number of four bytes reads back as it was written: least byte first in little-endian order,
/// greatest first in the other; either order reads the reversed bytes of the other.
pub proof fn lemma_word_reads_back(file: Seq<u8>, at: int, value: int)
    requires
        0 <= value < 0x1_0000_0000,
    ensures
        file[at] == value % 256 && file[at + 1] == value / 256 % 256 && file[at + 2] == value / 65536
            % 256 && file[at + 3] == value / 16777216 ==> gain_map::ordered_word(file, at, true)
            == value,
        file[at] == value / 16777216 && file[at + 1] == value / 65536 % 256 && file[at + 2] == value
            / 256 % 256 && file[at + 3] == value % 256 ==> gain_map::ordered_word(file, at, false)
            == value,
        gain_map::ordered_word(file, at, true) == gain_map::ordered_word(
            seq![file[at + 3], file[at + 2], file[at + 1], file[at]],
            0,
            false,
        ),
{
}

/// An index declares its byte order by a doubled letter, and then the number 42 in that order: `I`
/// for the least byte first, `M` for the greatest.
pub proof fn lemma_order_is_declared_by_its_letter(file: Seq<u8>, header: int)
    requires
        0 <= header,
    ensures
        gain_map::declared_order(file, header) is Some ==> header + 4 <= file.len(),
        gain_map::declared_order(file, header) == Some(true) <==> (header + 4 <= file.len()
            && file[header] as char == 'I' && file[header + 1] as char == 'I'
            && gain_map::ordered_short(file, header + 2, true) == 42),
        gain_map::declared_order(file, header) == Some(false) <==> (header + 4 <= file.len()
            && file[header] as char == 'M' && file[header + 1] as char == 'M'
            && gain_map::ordered_short(file, header + 2, false) == 42),
{
}

/// Every entry with an offset names the range that starts so far behind the header and is as long as
/// the entry's size.
pub proof fn lemma_entry_names_its_range(
    file: Seq<u8>,
    header: int,
    little_endian: bool,
    list: (int, int),
    from: int,
    entry: int,
)
    requires
        0 <= header,
        0 <= from <= entry < list.1,
        gain_map::ordered_word(file, header + list.0 + entry * 16 + 8, little_endian) != 0,
        header + gain_map::ordered_word(file, header + list.0 + entry * 16 + 8, little_endian)
            + gain_map::ordered_word(file, header + list.0 + entry * 16 + 4, little_endian)
            <= usize::MAX,
    ensures
        ({
            let size = gain_map::ordered_word(
                file,
                header + list.0 + entry * 16 + 4,
                little_endian,
            );
            let offset = gain_map::ordered_word(
                file,
                header + list.0 + entry * 16 + 8,
                little_endian,
            );
            gain_map::entry_ranges_from(file, header, little_endian, list, from).contains(
                ((header + offset) as usize, (header + offset + size) as usize),
            )
        }),
    decreases list.1 - from,
{
    let at = header + list.0 + from * 16;
    let size = gain_map::ordered_word(file, at + 4, little_endian);
    let offset = gain_map::ordered_word(file, at + 8, little_endian);
    let ranges = gain_map::entry_ranges_from(file, header, little_endian, list, from);
    if entry == from {
        assert(ranges[0] == ((header + offset) as usize, (header + offset + size) as usize));
    } else {
        lemma_entry_names_its_range(file, header, little_endian, list, from + 1, entry);
        let own = (
            (header + gain_map::ordered_word(
                file,
                header + list.0 + entry * 16 + 8,
                little_endian,
            )) as usize,
            (header + gain_map::ordered_word(file, header + list.0 + entry * 16 + 8, little_endian)
                + gain_map::ordered_word(
                file,
                header + list.0 + entry * 16 + 4,
                little_endian,
            )) as usize,
        );
        let rest = gain_map::entry_ranges_from(file, header, little_endian, list, from + 1);
        let place = choose|place: int| 0 <= place < rest.len() && rest[place] == own;
        if offset == 0 {
            assert(ranges[place] == own);
        } else {
            assert(ranges[place + 1] == own);
        }
    }
}

/// Only entries with an offset name a range, each at most one.
pub proof fn lemma_only_entries_name_ranges(
    file: Seq<u8>,
    header: int,
    little_endian: bool,
    list: (int, int),
    from: int,
    range: (usize, usize),
)
    requires
        0 <= from <= list.1,
    ensures
        gain_map::entry_ranges_from(file, header, little_endian, list, from).len() <= list.1 - from,
        gain_map::entry_ranges_from(file, header, little_endian, list, from).contains(range)
            ==> exists|entry: int|
            from <= entry < list.1 && #[trigger] gain_map::ordered_word(
                file,
                header + list.0 + entry * 16 + 8,
                little_endian,
            ) != 0 && range.0 == gain_map::address(
                header + gain_map::ordered_word(
                    file,
                    header + list.0 + entry * 16 + 8,
                    little_endian,
                ),
            ),
    decreases list.1 - from,
{
    if from < list.1 {
        lemma_only_entries_name_ranges(file, header, little_endian, list, from + 1, range);
        let at = header + list.0 + from * 16;
        let offset = gain_map::ordered_word(file, at + 8, little_endian);
        let ranges = gain_map::entry_ranges_from(file, header, little_endian, list, from);
        let rest = gain_map::entry_ranges_from(file, header, little_endian, list, from + 1);
        if ranges.contains(range) && offset != 0 && ranges[0] != range {
            let place = choose|place: int| 0 <= place < ranges.len() && ranges[place] == range;
            assert(rest[place - 1] == range);
        }
        assert(gain_map::ordered_word(
            file,
            header + list.0 + from * 16 + 8,
            little_endian,
        ) == offset);
    }
}

/// A marker with a length starts a segment whose payload follows the length and is two bytes shorter
/// than it says; fill bytes before a marker and markers that stand alone are passed over; the scan
/// data and the end of the image end the walk.
pub proof fn lemma_marker_starts_a_segment(jpeg: Seq<u8>, at: int)
    requires
        0 <= at,
        at + 4 <= jpeg.len() <= usize::MAX,
        jpeg[at] == 0xFF,
    ensures
        ({
            let kind = jpeg[at + 1];
            let length = jpeg[at + 2] * 256 + jpeg[at + 3];
            let alone = kind == 0x01 || 0xD0 <= kind <= 0xD8;
            &&& kind == 0xDA || kind == 0xD9 ==> gain_map::segment_at(jpeg, at) is None
            &&& kind == 0xFF ==> gain_map::segment_at(jpeg, at) == gain_map::segment_at(
                jpeg,
                at + 1,
            )
            &&& alone ==> gain_map::segment_at(jpeg, at) == gain_map::segment_at(jpeg, at + 2)
            &&& !alone && kind != 0xFF && kind != 0xDA && kind != 0xD9 ==> {
                &&& length < 2 ==> gain_map::segment_at(jpeg, at) is None
                &&& length >= 2 ==> (gain_map::segment_at(jpeg, at) matches Some(segment)
                    && segment.0 == kind && segment.1 == at + 4 && segment.2 == length - 2)
            }
        }),
{
    lemma_fill_is_passed(jpeg, at + 1);
    lemma_fill_is_passed(jpeg, at + 2);
    if jpeg[at + 1] == 0xFF {
        assert(gain_map::past_fill(jpeg, at + 1) == gain_map::past_fill(jpeg, at + 2));
    } else {
        assert(gain_map::past_fill(jpeg, at + 1) == at + 1);
    }
}

proof fn lemma_fill_is_passed(jpeg: Seq<u8>, from: int)
    requires
        0 <= from <= jpeg.len(),
    ensures
        from <= gain_map::past_fill(jpeg, from) <= jpeg.len(),
    decreases jpeg.len() - from,
{
    if from < jpeg.len() && jpeg[from] == 0xFF {
        lemma_fill_is_passed(jpeg, from + 1);
    }
}

/// A segment's bytes are an index where it is the second application segment and starts with its
/// name.
pub proof fn lemma_index_starts_with_its_name(jpeg: Seq<u8>, segment: (u8, usize, usize))
    requires
        gain_map::lies_inside(jpeg, segment),
        jpeg.len() <= usize::MAX,
    ensures
        gain_map::is_mpf(jpeg, segment) <==> (segment.0 == 0xE2 && segment.2 >= 4
            && jpeg[segment.1 as int] as char == 'M' && jpeg[segment.1 + 1] as char == 'P'
            && jpeg[segment.1 + 2] as char == 'F' && jpeg[segment.1 + 3] == 0),
{
}

/// The value a float's bits stand for is less than another's: by sign and by magnitude, the two zeros
/// being one.
#[verifier::opaque]
pub open spec fn below(first: u32, second: u32) -> bool {
    let (first_negative, second_negative) = (first >= 0x8000_0000, second >= 0x8000_0000);
    let (first_size, second_size) = (first % 0x8000_0000, second % 0x8000_0000);
    if first_negative && second_negative {
        first_size > second_size
    } else if first_negative {
        first_size > 0 || second_size > 0
    } else if second_negative {
        false
    } else {
        first_size < second_size
    }
}

/// A float's bits stand for a number: their magnitude is less than that of infinity.
#[verifier::opaque]
pub open spec fn is_number(bits: u32) -> bool {
    bits % 0x8000_0000 < 0x7F80_0000
}

/// The order that floats are held to is the order of their values.
pub proof fn lemma_float_order_is_by_value(first: u32, second: u32)
    ensures
        gain_map::finite(first) <==> is_number(first),
        gain_map::ordinal(first) < gain_map::ordinal(second) <==> below(first, second),
        below(0, first) <==> gain_map::ordinal(first) > 0,
{
    reveal(below);
    reveal(is_number);
}

/// A gain map is acted on exactly where all of its numbers are finite, no plane's maximum is below
/// its minimum, every gamma is above zero, the greatest capacity is above the least and above zero,
/// and its base is not the HDR rendition.
pub proof fn lemma_usable_gain_maps(metadata: GainMapMetadata)
    ensures
        gain_map::acts(metadata) <==> {
            &&& is_number(metadata.gain_map_minimum.0) && is_number(metadata.gain_map_minimum.1)
                && is_number(metadata.gain_map_minimum.2)
            &&& is_number(metadata.gain_map_maximum.0) && is_number(metadata.gain_map_maximum.1)
                && is_number(metadata.gain_map_maximum.2)
            &&& is_number(metadata.gamma.0) && is_number(metadata.gamma.1) && is_number(
                metadata.gamma.2,
            )
            &&& is_number(metadata.offset_sdr.0) && is_number(metadata.offset_sdr.1) && is_number(
                metadata.offset_sdr.2,
            )
            &&& is_number(metadata.offset_hdr.0) && is_number(metadata.offset_hdr.1) && is_number(
                metadata.offset_hdr.2,
            )
            &&& is_number(metadata.hdr_capacity_minimum)
            &&& is_number(metadata.hdr_capacity_maximum)
            &&& !below(metadata.gain_map_maximum.0, metadata.gain_map_minimum.0)
            &&& !below(metadata.gain_map_maximum.1, metadata.gain_map_minimum.1)
            &&& !below(metadata.gain_map_maximum.2, metadata.gain_map_minimum.2)
            &&& below(0, metadata.gamma.0) && below(0, metadata.gamma.1) && below(
                0,
                metadata.gamma.2,
            )
            &&& below(metadata.hdr_capacity_minimum, metadata.hdr_capacity_maximum)
            &&& below(0, metadata.hdr_capacity_maximum)
            &&& !metadata.base_rendition_is_hdr
        },
{
    lemma_float_order_is_by_value(metadata.gain_map_maximum.0, metadata.gain_map_minimum.0);
    lemma_float_order_is_by_value(metadata.gain_map_minimum.0, metadata.gain_map_maximum.0);
    lemma_float_order_is_by_value(metadata.gain_map_maximum.1, metadata.gain_map_minimum.1);
    lemma_float_order_is_by_value(metadata.gain_map_minimum.1, metadata.gain_map_maximum.1);
    lemma_float_order_is_by_value(metadata.gain_map_maximum.2, metadata.gain_map_minimum.2);
    lemma_float_order_is_by_value(metadata.gain_map_minimum.2, metadata.gain_map_maximum.2);
    lemma_float_order_is_by_value(metadata.gamma.0, 0);
    lemma_float_order_is_by_value(metadata.gamma.1, 0);
    lemma_float_order_is_by_value(metadata.gamma.2, 0);
    lemma_float_order_is_by_value(metadata.offset_sdr.0, 0);
    lemma_float_order_is_by_value(metadata.offset_sdr.1, 0);
    lemma_float_order_is_by_value(metadata.offset_sdr.2, 0);
    lemma_float_order_is_by_value(metadata.offset_hdr.0, 0);
    lemma_float_order_is_by_value(metadata.offset_hdr.1, 0);
    lemma_float_order_is_by_value(metadata.offset_hdr.2, 0);
    lemma_float_order_is_by_value(metadata.hdr_capacity_minimum, metadata.hdr_capacity_maximum);
    lemma_float_order_is_by_value(metadata.hdr_capacity_maximum, metadata.hdr_capacity_minimum);
}

/// The numbers of a property reach the planes: one number every plane, three the planes in order,
/// and none where one of them cannot be read.
pub open spec fn fills(numbers: PlaneNumbers, planes: (u32, u32, u32)) -> bool {
    match numbers {
        PlaneNumbers::One(value) => Some(planes.0) == value && Some(planes.1) == value && Some(
            planes.2,
        ) == value,
        PlaneNumbers::Three(red, green, blue) => Some(planes.0) == red && Some(planes.1) == green
            && Some(planes.2) == blue,
    }
}

/// Each parameter comes from its own property. An absent one has its default: no least gain, a gamma
/// of one, offsets of a 64th, no least capacity.
pub proof fn lemma_parameters_come_from_their_properties(numbers: HdrgmNumbers)
    ensures
        gain_map::metadata_read(numbers) matches Some(metadata) ==> {
            &&& fills(numbers.gain_map_maximum, metadata.gain_map_maximum)
            &&& numbers.gain_map_minimum matches Some(found) ==> fills(
                found,
                metadata.gain_map_minimum,
            )
            &&& numbers.gain_map_minimum is None ==> metadata.gain_map_minimum == (0u32, 0u32, 0u32)
            &&& numbers.gamma matches Some(found) ==> fills(found, metadata.gamma)
            &&& numbers.gamma is None ==> metadata.gamma == (
                0x3F80_0000u32,
                0x3F80_0000u32,
                0x3F80_0000u32,
            )
            &&& numbers.offset_sdr matches Some(found) ==> fills(found, metadata.offset_sdr)
            &&& numbers.offset_sdr is None ==> metadata.offset_sdr == (
                0x3C80_0000u32,
                0x3C80_0000u32,
                0x3C80_0000u32,
            )
            &&& numbers.offset_hdr matches Some(found) ==> fills(found, metadata.offset_hdr)
            &&& numbers.offset_hdr is None ==> metadata.offset_hdr == (
                0x3C80_0000u32,
                0x3C80_0000u32,
                0x3C80_0000u32,
            )
            &&& numbers.hdr_capacity_maximum == Some(metadata.hdr_capacity_maximum)
            &&& numbers.hdr_capacity_minimum matches Some(found) ==> found == Some(
                metadata.hdr_capacity_minimum,
            )
            &&& numbers.hdr_capacity_minimum is None ==> metadata.hdr_capacity_minimum == 0
            &&& metadata.base_rendition_is_hdr == numbers.base_rendition_is_hdr
        },
        gain_map::metadata_read(numbers) is None <==> {
            ||| forall|planes: (u32, u32, u32)| !#[trigger] fills(numbers.gain_map_maximum, planes)
            ||| numbers.hdr_capacity_maximum is None
            ||| numbers.hdr_capacity_minimum == Some(None::<u32>)
            ||| numbers.gain_map_minimum matches Some(found) && forall|planes: (u32, u32, u32)|
                !#[trigger] fills(found, planes)
            ||| numbers.gamma matches Some(found) && forall|planes: (u32, u32, u32)|
                !#[trigger] fills(found, planes)
            ||| numbers.offset_sdr matches Some(found) && forall|planes: (u32, u32, u32)|
                !#[trigger] fills(found, planes)
            ||| numbers.offset_hdr matches Some(found) && forall|planes: (u32, u32, u32)|
                !#[trigger] fills(found, planes)
        },
{
    lemma_readable_planes_fill(numbers.gain_map_maximum);
    lemma_optional_planes_fill(numbers.gain_map_minimum);
    lemma_optional_planes_fill(numbers.gamma);
    lemma_optional_planes_fill(numbers.offset_sdr);
    lemma_optional_planes_fill(numbers.offset_hdr);
}

proof fn lemma_readable_planes_fill(numbers: PlaneNumbers)
    ensures
        gain_map::planes_read(numbers) matches Some(planes) ==> fills(numbers, planes),
        gain_map::planes_read(numbers) is None ==> forall|planes: (u32, u32, u32)|
            !#[trigger] fills(numbers, planes),
{
}

proof fn lemma_optional_planes_fill(numbers: Option<PlaneNumbers>)
    ensures
        numbers matches Some(found) ==> (gain_map::planes_read(found) matches Some(planes)
            ==> fills(found, planes)) && (gain_map::planes_read(found) is None ==> forall|
            planes: (u32, u32, u32),
        |
            !#[trigger] fills(found, planes)),
{
    if let Some(found) = numbers {
        lemma_readable_planes_fill(found);
    }
}

/// The values of a property are those of a plane text: one for all planes, or three in plane order.
pub open spec fn spells(values: Option<Seq<Seq<char>>>, plane: PlaneTextModel) -> bool {
    match plane {
        PlaneTextModel::One(text) => values == Some(seq![text]),
        PlaneTextModel::Three(red, green, blue) => values == Some(seq![red, green, blue]),
    }
}

/// What a packet says of a gain map it says under the name of each property, and a version, a
/// greatest gain and a greatest capacity it has to say.
pub proof fn lemma_packet_speaks_by_name(xml: Seq<char>, prefix: Seq<char>)
    requires
        gain_map::prefix_from(xml, 0) == Some(prefix),
    ensures
        gain_map::properties_of(xml) matches Some(properties) ==> {
            &&& gain_map::values_of(xml, prefix, "Version"@) is Some
            &&& spells(
                gain_map::values_of(xml, prefix, "GainMapMax"@),
                properties.gain_map_maximum,
            )
            &&& gain_map::values_of(xml, prefix, "HDRCapacityMax"@) == Some(
                seq![properties.hdr_capacity_maximum],
            )
            &&& properties.gain_map_minimum matches Some(plane) ==> spells(
                gain_map::values_of(xml, prefix, "GainMapMin"@),
                plane,
            )
            &&& properties.gain_map_minimum is None ==> !gain_map::names_property(
                xml,
                prefix,
                "GainMapMin"@,
            )
            &&& properties.gamma matches Some(plane) ==> spells(
                gain_map::values_of(xml, prefix, "Gamma"@),
                plane,
            )
            &&& properties.gamma is None ==> !gain_map::names_property(xml, prefix, "Gamma"@)
            &&& properties.offset_sdr matches Some(plane) ==> spells(
                gain_map::values_of(xml, prefix, "OffsetSDR"@),
                plane,
            )
            &&& properties.offset_sdr is None ==> !gain_map::names_property(
                xml,
                prefix,
                "OffsetSDR"@,
            )
            &&& properties.offset_hdr matches Some(plane) ==> spells(
                gain_map::values_of(xml, prefix, "OffsetHDR"@),
                plane,
            )
            &&& properties.offset_hdr is None ==> !gain_map::names_property(
                xml,
                prefix,
                "OffsetHDR"@,
            )
            &&& properties.hdr_capacity_minimum matches Some(text) ==> gain_map::values_of(
                xml,
                prefix,
                "HDRCapacityMin"@,
            ) == Some(seq![text])
            &&& properties.hdr_capacity_minimum is None ==> !gain_map::names_property(
                xml,
                prefix,
                "HDRCapacityMin"@,
            )
            &&& properties.base_rendition_is_hdr ==> gain_map::names_property(
                xml,
                prefix,
                "BaseRenditionIsHDR"@,
            ) || gain_map::values_of(xml, prefix, "BaseRenditionIsHDR"@) is Some
        },
{
    if let Some(properties) = gain_map::properties_of(xml) {
        lemma_plane_text_spells(gain_map::values_of(xml, prefix, "GainMapMax"@));
        lemma_plane_text_spells(gain_map::values_of(xml, prefix, "GainMapMin"@));
        lemma_plane_text_spells(gain_map::values_of(xml, prefix, "Gamma"@));
        lemma_plane_text_spells(gain_map::values_of(xml, prefix, "OffsetSDR"@));
        lemma_plane_text_spells(gain_map::values_of(xml, prefix, "OffsetHDR"@));
        let capacity = gain_map::values_of(xml, prefix, "HDRCapacityMax"@)->0;
        assert(capacity =~= seq![properties.hdr_capacity_maximum]);
        if let Some(text) = properties.hdr_capacity_minimum {
            let least = gain_map::values_of(xml, prefix, "HDRCapacityMin"@)->0;
            assert(least =~= seq![text]);
        }
    }
}

proof fn lemma_plane_text_spells(values: Option<Seq<Seq<char>>>)
    ensures
        values matches Some(list) ==> (gain_map::plane_text(list) matches Some(plane) ==> spells(
            values,
            plane,
        )),
{
    if let Some(list) = values {
        if list.len() == 1 {
            assert(list =~= seq![list[0]]);
        } else if list.len() == 3 {
            assert(list =~= seq![list[0], list[1], list[2]]);
        }
    }
}

/// A candidate can be used: the first of its packets that could be read can be acted on.
pub open spec fn usable(candidate: ReadCandidate) -> bool {
    gain_map::first_read(candidate.packets@, 0) matches Some(metadata) && gain_map::acts(metadata)
}

/// The gain map that is used is that of the first candidate that can be used, and none where there is
/// no such candidate.
pub proof fn lemma_first_usable_candidate_wins(
    candidates: Seq<ReadCandidate>,
    from: int,
    index: int,
)
    requires
        0 <= from <= index <= candidates.len(),
        forall|earlier: int|
            from <= earlier < index ==> !usable(#[trigger] candidates[earlier]),
        index < candidates.len() ==> usable(candidates[index]),
    ensures
        index == candidates.len() ==> gain_map::first_usable(candidates, from) is None,
        index < candidates.len() ==> (gain_map::first_usable(candidates, from) matches Some(found)
            && found.start == candidates[index].start && found.end == candidates[index].end && Some(
            found.metadata,
        ) == gain_map::first_read(candidates[index].packets@, 0)),
    decreases candidates.len() - from,
{
    if from < index {
        assert(!usable(candidates[from]));
        lemma_first_usable_candidate_wins(candidates, from + 1, index);
    }
}

/// The first packet that could be read comes before every other that could.
pub proof fn lemma_first_readable_packet_speaks(
    packets: Seq<Option<GainMapMetadata>>,
    from: int,
    index: int,
)
    requires
        0 <= from <= index < packets.len(),
        packets[index] is Some,
        forall|earlier: int| from <= earlier < index ==> (#[trigger] packets[earlier]) is None,
    ensures
        gain_map::first_read(packets, from) == packets[index],
    decreases packets.len() - from,
{
    if from < index {
        assert(packets[from] is None);
        lemma_first_readable_packet_speaks(packets, from + 1, index);
    }
}

/// An image takes the gain map it is given where the plane has pixels and no more of them either way
/// than the image; nothing else about it changes.
pub proof fn lemma_gain_map_fits_its_image(
    image: ImageModel,
    metadata: GainMapMetadata,
    plane: PlaneModel,
)
    ensures
        ({
            let after = gain_map::with_gain_map(image, Some((metadata, plane)));
            let fits = plane.width > 0 && plane.height > 0 && plane.width <= image.width
                && plane.height <= image.height;
            &&& fits ==> after.gain_map == Some(metadata) && after.gain_map_plane == Some(plane)
            &&& !fits ==> after == image
            &&& after.frames == image.frames
            &&& after.width == image.width && after.height == image.height
            &&& after.icc_profile == image.icc_profile
        }),
        gain_map::with_gain_map(image, None) == image,
{
}

} // verus!
