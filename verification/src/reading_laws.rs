//! How the bytes and the words of a file are found out.

use vstd::prelude::*;

use crate::apng;
use crate::bundled;
use crate::bytes;
use crate::compositor;
use crate::decode;
use crate::decode_laws;
use crate::gain_map;
use crate::hdr;
use crate::hdr::Peak;
use crate::icc;
use crate::image;
use crate::naming_laws;
use crate::pixels;
use crate::registry;
use crate::registry::{ImageFormat, FORMAT_ORDER};
use crate::search;
use crate::text;

verus! {

/// A header that carries the signature of a format is of that format, where the format is told apart by its
/// first bytes.
pub proof fn lemma_signature_decides_the_format(header: Seq<u8>, format: ImageFormat)
    requires
        header.len() >= 16,
        registry::has_signature(format, header),
        format != ImageFormat::Heif && format != ImageFormat::Avif,
        !registry::has_signature(ImageFormat::Heif, header),
        !registry::has_signature(ImageFormat::Avif, header),
    ensures
        registry::format_of_magic(header) == Some(format),
        registry::format_of_content(header) == Some(registry::refined(format, header)),
{
    reveal_with_fuel(registry::format_signed, 17);
    assert forall|place: int| 0 <= place < 16 && registry::has_signature(
        #[trigger] FORMAT_ORDER@[place],
        header,
    ) implies FORMAT_ORDER@[place] == format by {
        decode_laws::lemma_signatures_exclude_each_other(header, FORMAT_ORDER@[place], format);
    }
    lemma_listed_format(format);
}

proof fn lemma_listed_format(format: ImageFormat)
    ensures
        format == ImageFormat::Apng || format == ImageFormat::AnimatedWebP || format
            == ImageFormat::AnimatedAvif || exists|place: int|
            0 <= place < 16 && #[trigger] FORMAT_ORDER@[place] == format,
{
    let order = FORMAT_ORDER@;
    assert(order[0] == order[0] && order[1] == order[1] && order[2] == order[2] && order[3]
        == order[3] && order[4] == order[4] && order[5] == order[5] && order[6] == order[6]
        && order[7] == order[7] && order[8] == order[8] && order[9] == order[9] && order[10]
        == order[10] && order[11] == order[11] && order[12] == order[12] && order[13] == order[13]
        && order[14] == order[14] && order[15] == order[15]);
}

/// A header that begins as XML does and names a drawing's element is a drawing, where it has no signature of
/// another format; one that begins otherwise is not told apart that way.
pub proof fn lemma_xml_with_a_drawing(header: Seq<u8>, place: int)
    requires
        0 <= place,
        place + 4 <= header.len(),
        header.len() >= 5,
        registry::format_signed(header, 0) is None,
        header[place] as char == '<' && header[place + 1] as char == 's' && header[place + 2] as char
            == 'v' && header[place + 3] as char == 'g',
    ensures
        registry::format_of_magic(header) == (if header[0] as char == '<' && header[1] as char == '?'
            && header[2] as char == 'x' && header[3] as char == 'm' && header[4] as char == 'l' {
            Some(ImageFormat::Svg)
        } else {
            None
        }),
{
    assert(bytes::word_at(header, place, 0x3C, 0x73, 0x76, 0x67));
}

/// A format is read from the first 4096 bytes of the data, or from all of it.
pub proof fn lemma_header_is_the_start(data: Seq<u8>)
    ensures
        data.len() <= 4096 ==> registry::header_of(data) == data,
        data.len() > 4096 ==> registry::header_of(data).len() == 4096,
        forall|index: int|
            0 <= index < registry::header_of(data).len() ==> #[trigger] registry::header_of(
                data,
            )[index] == data[index],
{
}

/// A hint stands for the same format in either case.
pub proof fn lemma_hints_ignore_case(data: Seq<u8>, hint: Seq<char>, other: Seq<char>)
    requires
        hint.len() == other.len(),
        forall|index: int|
            0 <= index < hint.len() ==> #[trigger] hint[index] == other[index] || ('A'
                <= other[index] <= 'Z' && hint[index] as int == other[index] as int + 32),
    ensures
        registry::format_of_bytes(data, Some(hint)) == registry::format_of_bytes(data, Some(other)),
{
    assert(registry::hint_text(hint) =~= registry::hint_text(other)) by {
        assert forall|index: int| 0 <= index < hint.len() implies #[trigger] registry::hint_text(
            hint,
        )[index] == registry::hint_text(other)[index] by {
            assert(hint[index] == other[index] || ('A' <= other[index] <= 'Z'
                && hint[index] as int == other[index] as int + 32));
        }
    }
}

/// A brand is named as the major one, or at one of the places for the compatible ones inside the box.
pub proof fn lemma_brands_stand_in_their_box(header: Seq<u8>, place: int, a: u8, b: u8, c: u8, d: u8)
    requires
        header.len() >= 16,
        header[4] as char == 'f' && header[5] as char == 't' && header[6] as char == 'y'
            && header[7] as char == 'p',
    ensures
        header[8] == a && header[9] == b && header[10] == c && header[11] == d
            ==> registry::names_brand(header, a, b, c, d),
        16 <= place && place % 4 == 0 && place + 4 <= header.len() && place + 4
            <= bytes::big_endian_at(header, 0) && header[place] == a && header[place + 1] == b
            && header[place + 2] == c && header[place + 3] == d ==> registry::names_brand(
            header,
            a,
            b,
            c,
            d,
        ),
{
    if 16 <= place && place + 4 <= header.len() && header[place] == a && header[place + 1] == b
        && header[place + 2] == c && header[place + 3] == d {
        assert(bytes::word_at(header, place, a, b, c, d));
    }
}

/// An attribute says what stands between its quotes.
pub proof fn lemma_attribute_says_what_is_quoted(
    before: Seq<char>,
    qualified: Seq<char>,
    value: Seq<char>,
    after: Seq<char>,
    quote: char,
)
    requires
        quote == '"' || quote == '\'',
        !value.contains(quote),
        ({
            let xml = before + qualified + seq!['='] + seq![quote] + value + seq![quote] + after;
            search::found_from(xml, qualified + "="@, 0) == Some(before.len() as int)
        }),
    ensures
        gain_map::attribute_value(
            before + qualified + seq!['='] + seq![quote] + value + seq![quote] + after,
            qualified,
        ) == Some(Some(value)),
{
    let xml = before + qualified + seq!['='] + seq![quote] + value + seq![quote] + after;
    let start = before.len() + qualified.len() + 1;
    let end = start + 1 + value.len();
    assert(xml[start as int] == quote);
    assert(xml[end as int] == quote);
    assert(forall|index: int| 0 <= index < value.len() ==> #[trigger] value[index] != quote);
    assert forall|index: int| start < index < end implies #[trigger] xml[index] != quote by {
        assert(xml[index] == value[index - start - 1]);
    }
    lemma_quote_is_found(xml, quote, start as int + 1, end as int);
    assert(xml.subrange(start as int + 1, end as int) =~= value);
}

proof fn lemma_quote_is_found(xml: Seq<char>, quote: char, from: int, end: int)
    requires
        0 <= from <= end < xml.len(),
        xml[end] == quote,
        forall|index: int| from <= index < end ==> #[trigger] xml[index] != quote,
    ensures
        search::found_from(xml, seq![quote], from) == Some(end),
    decreases end - from,
{
    assert(xml.subrange(from, from + 1) =~= seq![xml[from]]);
    if from < end {
        assert(xml[from] != quote);
        assert(seq![xml[from]][0] == xml[from]);
        assert(!search::occurs_at(xml, seq![quote], from));
        lemma_quote_is_found(xml, quote, from + 1, end);
    }
}

/// An element says what stands between the end of its opening tag and its closing one: its items, or, where
/// it lists none, the whole of it, without the white space around it.
pub proof fn lemma_element_says_what_it_encloses(
    xml: Seq<char>,
    qualified: Seq<char>,
    at: int,
    opening: int,
    closing: int,
)
    requires
        search::found_from(xml, "<"@ + qualified, 0) == Some(at),
        search::found_from(xml, ">"@, at) == Some(opening),
        search::found_from(xml, "</"@ + qualified, at) == Some(closing),
        opening < closing,
    ensures
        ({
            let body = xml.subrange(opening + 1, closing);
            let values = gain_map::element_values(xml, qualified);
            &&& search::found_from(body, "<rdf:li"@, 0) is None ==> values == Some(
                seq![search::trimmed(body)],
            )
            &&& values matches Some(list) ==> list.len() >= 1
        }),
{
}

/// A flag is set by the word true, in whatever case, and by nothing else; it is not set where it is not
/// there.
pub proof fn lemma_flag_is_set_by_the_word(word: Seq<char>)
    ensures
        gain_map::base_flag(true, Some(seq![word])) == Some(text::lowered(word) == seq![
            't',
            'r',
            'u',
            'e',
        ]),
        gain_map::base_flag(false, None) == Some(false),
        gain_map::base_flag(true, None) is None,
{
    reveal_strlit("true");
    assert("true"@ =~= seq!['t', 'r', 'u', 'e']);
}

/// The packet of a segment is read where it is the first application segment and starts with the name of its
/// kind.
pub proof fn lemma_packet_starts_with_its_name(jpeg: Seq<u8>, segment: (u8, usize, usize), index: int)
    requires
        gain_map::lies_inside(jpeg, segment),
        jpeg.len() <= usize::MAX,
        gain_map::segment_properties(jpeg, segment) is Some,
        0 <= index < 28,
    ensures
        segment.0 == 0xE1,
        segment.2 >= 29,
        jpeg[segment.1 + index] as char == "http://ns.adobe.com/xap/1.0/"@[index],
        jpeg[segment.1 + 28] == 0,
{
    reveal_strlit("http://ns.adobe.com/xap/1.0/");
    let payload = jpeg.subrange(segment.1 as int, segment.1 + segment.2);
    let name = payload.take(29);
    assert(name[index] == jpeg[segment.1 + index]);
    assert(name[28] == jpeg[segment.1 + 28]);
}

/// The ranges of a list of segments are those of its segments in order, and a segment that is no index adds
/// none.
pub proof fn lemma_segments_add_their_ranges(
    file: Seq<u8>,
    found: Seq<(u8, usize, usize)>,
    segment: (u8, usize, usize),
)
    ensures
        gain_map::ranges_of(file, Seq::empty()).len() == 0,
        gain_map::ranges_of(file, found.push(segment)) == gain_map::ranges_of(file, found)
            + gain_map::segment_ranges(file, segment),
        segment.0 != 0xE2 ==> gain_map::segment_ranges(file, segment).len() == 0,
{
    assert(found.push(segment).drop_last() =~= found);
}

/// An index finds its entry list in the first entry with the list's tag: as many entries as the declared
/// bytes hold, of sixteen each, as far as the file has them.
pub proof fn lemma_entry_list_is_found_by_its_tag(
    file: Seq<u8>,
    header: int,
    little_endian: bool,
    ifd: int,
    from: int,
    index: int,
    count: int,
)
    requires
        0 <= header,
        0 <= ifd,
        0 <= from <= index < count,
        header + ifd + 2 + index * 12 + 12 <= file.len(),
        gain_map::ordered_short(file, header + ifd + 2 + index * 12, little_endian) == 0xB002,
        forall|earlier: int|
            from <= earlier < index ==> #[trigger] gain_map::ordered_short(
                file,
                header + ifd + 2 + earlier * 12,
                little_endian,
            ) != 0xB002,
    ensures
        ({
            let entry = header + ifd + 2 + index * 12;
            let declared = gain_map::ordered_word(file, entry + 4, little_endian);
            let offset = gain_map::ordered_word(file, entry + 8, little_endian);
            let found = gain_map::entry_list_from(file, header, little_endian, ifd, from, count);
            &&& declared < 16 ==> found is None
            &&& declared >= 16 ==> (found matches Some(list) && list.0 == offset && list.1 * 16
                <= declared && (header + offset + declared <= file.len() ==> list.1 == declared / 16)
                && (list.1 > 0 ==> header + offset + list.1 * 16 <= file.len()))
        }),
    decreases index - from,
{
    if from < index {
        assert(gain_map::ordered_short(file, header + ifd + 2 + from * 12, little_endian)
            != 0xB002);
        lemma_entry_list_is_found_by_its_tag(
            file,
            header,
            little_endian,
            ifd,
            from + 1,
            index,
            count,
        );
    }
}

/// A candidate is what a range inside the file holds; a range that runs past the file is passed over.
pub proof fn lemma_candidates_lie_inside_the_file(
    file: Seq<u8>,
    ranges: Seq<(usize, usize)>,
    index: int,
)
    requires
        0 <= index < gain_map::candidates_of(file, ranges).len(),
    ensures
        ({
            let candidate = gain_map::candidates_of(file, ranges)[index];
            &&& candidate.0 <= candidate.1 <= file.len()
            &&& ranges.contains((candidate.0, candidate.1))
        }),
    decreases ranges.len(),
{
    if ranges.len() > 0 {
        let before = ranges.drop_last();
        let rest = gain_map::candidates_of(file, before);
        let candidate = gain_map::candidates_of(file, ranges)[index];
        if index < rest.len() {
            lemma_candidates_lie_inside_the_file(file, before, index);
            let place = choose|place: int|
                0 <= place < before.len() && before[place] == (candidate.0, candidate.1);
            assert(ranges[place] == (candidate.0, candidate.1));
        } else {
            assert(ranges[ranges.len() - 1] == (candidate.0, candidate.1));
        }
    }
}

/// What a profile calls itself is not empty and has no padding at its ends.
pub proof fn lemma_profile_name_is_bare(profile: Seq<u8>)
    ensures
        icc::description(profile) matches Some(name) ==> {
            &&& name.len() > 0
            &&& name[0] != ' ' && name[0] != '\0' && name[0] != '\t' && name[0] != '\r' && name[0]
                != '\n'
            &&& name.last() != ' ' && name.last() != '\0' && name.last() != '\t' && name.last()
                != '\r' && name.last() != '\n'
        },
{
    if let Some(offset) = icc::tag_place(profile, (0x64, 0x65, 0x73, 0x63)) {
        if let Some(written) = icc::description_at(profile, offset as int) {
            naming_laws::lemma_stripping_takes_the_padding(written, search::field_padding());
        }
    }
}

/// A field's text ends at its first zero.
pub proof fn lemma_field_ends_at_the_first_zero(field: Seq<u8>, from: int)
    requires
        0 <= from <= field.len(),
    ensures
        ({
            let end = icc::zero_from(field, from);
            &&& from <= end <= field.len()
            &&& end < field.len() ==> field[end] == 0
            &&& forall|index: int| from <= index < end ==> #[trigger] field[index] != 0
        }),
    decreases field.len() - from,
{
    if from < field.len() && field[from] != 0 {
        lemma_field_ends_at_the_first_zero(field, from + 1);
    }
}

/// Without leaving pixels out, every pixel is a sample: the bin of its greatest color.
pub proof fn lemma_every_pixel_is_a_sample(
    pixels: Seq<u8>,
    bins: Seq<u16>,
    pixel: int,
    state: u32,
    index: int,
)
    requires
        0 <= pixel,
        0 <= index < pixels.len() / 8 - pixel,
    ensures
        hdr::sampled_bins(pixels, bins, false, pixel, state).len() == pixels.len() / 8 - pixel,
        hdr::sampled_bins(pixels, bins, false, pixel, state)[index] == bins[hdr::pixel_maximum(
            pixels,
            pixel + index,
        ) as int],
    decreases pixels.len() / 8 - pixel,
{
    let rest = hdr::sampled_bins(pixels, bins, false, pixel + 1, state);
    if pixel + 1 < pixels.len() / 8 {
        if index > 0 {
            lemma_every_pixel_is_a_sample(pixels, bins, pixel + 1, state, index - 1);
        } else {
            lemma_every_pixel_is_a_sample(pixels, bins, pixel + 1, state, 0);
        }
    } else {
        assert(rest.len() == 0);
    }
}

/// An image within SDR white peaks at its greatest color; a brighter one at a percentile; one without
/// pixels has no peak.
pub proof fn lemma_peak_is_the_greatest_or_a_percentile(
    pixels: Seq<u8>,
    maximum_bits: u16,
    bins: Seq<u16>,
)
    ensures
        pixels.len() < 8 ==> hdr::peak_of(pixels, maximum_bits, bins) is None,
        pixels.len() >= 8 && maximum_bits <= 0x3C00 ==> hdr::peak_of(pixels, maximum_bits, bins)
            == Some(Peak::Half(maximum_bits)),
        pixels.len() >= 8 && 0x3C00 < maximum_bits < 0x7C00 ==> hdr::peak_of(
            pixels,
            maximum_bits,
            bins,
        )->0 is Bin,
        pixels.len() / 8 < 4_000_000 ==> hdr::samples_of(pixels, bins).len() == pixels.len() / 8,
{
    if 0 < pixels.len() / 8 < 4_000_000 {
        lemma_every_pixel_is_a_sample(pixels, bins, 0, hdr::JITTER_SEED, 0);
    }
}

/// A blank canvas is as large as it is asked for and clear everywhere.
pub proof fn lemma_blank_canvas_is_clear(width: u32, height: u32, index: int)
    requires
        0 <= index < width * height * 4,
    ensures
        compositor::blank_composition(width, height).canvas.len() == width * height * 4,
        compositor::blank_composition(width, height).canvas[index] == 0,
        compositor::blank_composition(width, height).frames.len() == 0,
        !compositor::blank_composition(width, height).truncated,
        compositor::blank_composition(width, height).width == width,
        compositor::blank_composition(width, height).height == height,
{
}

/// A PNG that cannot be read fails with the reader's words, one whose canvas is past the budget fails, and
/// one that declares no frame is its blank canvas.
pub proof fn lemma_apng_fails_where_it_must(data: Seq<u8>, format_name: Seq<char>)
    ensures
        apng::png_refusal(data, true, usize::MAX) matches Some(reason) ==> apng::decoded(
            data,
            format_name,
        ) == Err::<image::ImageModel, image::ErrorModel>(image::uncoded(reason)),
        apng::png_refusal(data, true, usize::MAX) is None && apng::png_information(data).0
            * apng::png_information(data).1 * 4 > 1024 * 1024 * 1024 ==> apng::decoded(
            data,
            format_name,
        ) is Err,
        apng::decoded(data, format_name) matches Ok(found) ==> {
            &&& found.format_name == format_name
            &&& found.icc_profile == apng::png_information(data).2
        },
{
}

/// A frame without a control of its own replaces the whole canvas and shows for a thirtieth of a second.
pub proof fn lemma_uncontrolled_frame_is_the_canvas(width: u32, height: u32)
    ensures
        ({
            let control = apng::whole_canvas(width, height);
            &&& control.width == width && control.height == height
            &&& control.x_offset == 0 && control.y_offset == 0
            &&& control.delay_num * 30 == control.delay_den
            &&& control.blend == compositor::FrameBlend::Replace
            &&& control.disposal == compositor::FrameDisposal::Keep
        }),
{
}

/// A WebP without a size or without frames cannot be composed; every other one can.
pub proof fn lemma_webp_needs_a_size_and_a_frame(width: u32, height: u32, has_frames: bool)
    ensures
        bundled::webp_refusal(width, height, has_frames) is None <==> width > 0 && height > 0
            && has_frames,
{
}

/// A sequence's image fits its canvas exactly, and its rows are whole.
pub proof fn lemma_sequence_image_is_its_canvas(
    has_plane: bool,
    width: i32,
    height: i32,
    stride: i32,
    canvas_width: u32,
    canvas_height: u32,
)
    ensures
        bundled::sequence_image_fits(has_plane, width, height, stride, canvas_width, canvas_height)
            ==> has_plane && width == canvas_width && height == canvas_height && stride >= width * 4,
        has_plane && width == canvas_width && height == canvas_height && stride >= width * 4
            ==> bundled::sequence_image_fits(
            has_plane,
            width,
            height,
            stride,
            canvas_width,
            canvas_height,
        ),
{
}

/// A still's bytes are the codes themselves while an encoding is to be undone, and premultiplied with red
/// and blue exchanged otherwise.
pub proof fn lemma_still_bytes_follow_the_encoding(packed: Seq<u8>, pixel: int)
    requires
        0 <= pixel,
        pixel * 4 + 4 <= packed.len(),
    ensures
        bundled::heif_bytes(packed, true) == packed,
        ({
            let after = bundled::heif_bytes(packed, false);
            &&& after.len() == packed.len()
            &&& after[pixel * 4 + 3] == packed[pixel * 4 + 3]
            &&& after[pixel * 4] == pixels::premultiplied(packed[pixel * 4 + 2], packed[pixel * 4 + 3])
            &&& after[pixel * 4 + 1] == pixels::premultiplied(
                packed[pixel * 4 + 1],
                packed[pixel * 4 + 3],
            )
            &&& after[pixel * 4 + 2] == pixels::premultiplied(packed[pixel * 4], packed[pixel * 4 + 3])
        }),
{
}

/// An image shows the name of its format, and that it is unknown where it is.
pub proof fn lemma_image_shows_its_format(format: ImageFormat)
    ensures
        decode::shown_name(Some(format)) == format.title(),
        decode::shown_name(None) == "Unknown"@,
        format == ImageFormat::AnimatedWebP ==> decode::shown_name(Some(format))
            == ImageFormat::WebP.title(),
        format == ImageFormat::AnimatedAvif ==> decode::shown_name(Some(format))
            == ImageFormat::Avif.title(),
{
}

/// A WebP with the extended chunk is animated where the second lowest bit of its flags is set; without
/// that chunk it is not.
pub proof fn lemma_flag_animates_a_webp(header: Seq<u8>)
    requires
        header.len() > 20,
    ensures
        ({
            let extended = header[12] == 'V' as u8 && header[13] == 'P' as u8 && header[14] == '8' as u8
                && header[15] == 'X' as u8;
            registry::refined(ImageFormat::WebP, header) == ImageFormat::AnimatedWebP <==> extended
                && header[20] & 2 == 2
        }),
{
    let flags = header[20];
    assert((flags / 2) % 2 == 1 <==> flags & 2 == 2) by (bit_vector);
}

/// A text in pairs of bytes holds half as many units as bytes, each its greater byte first.
pub proof fn lemma_units_are_pairs_of_bytes(profile: Seq<u8>, start: int, length: int, index: int)
    requires
        0 <= start,
        0 <= index < length / 2,
        start + length <= profile.len(),
    ensures
        ({
            let units = icc::units_at(profile, start, length);
            &&& length - 1 <= 2 * units.len() <= length
            &&& units[index] == profile[start + 2 * index] * 256 + profile[start + 2 * index + 1]
        }),
{
}

/// A sampled pixel is followed by one of the eight behind it, and no sample is taken from the others: the
/// distance is one more than the upper three bits of the jitter, whose states run with the multiplier
/// 1664525 and the increment 1013904223 modulo 2 to the 32.
pub proof fn lemma_samples_are_at_most_eight_apart(
    pixels: Seq<u8>,
    bins: Seq<u16>,
    pixel: int,
    state: u32,
    next: u32,
)
    requires
        0 <= pixel < pixels.len() / 8,
        (next - state * 1664525 - 1013904223) % 0x1_0000_0000 == 0,
    ensures
        ({
            let samples = hdr::sampled_bins(pixels, bins, true, pixel, state);
            let distance = next as int / 0x2000_0000 + 1;
            &&& 1 <= distance <= 8
            &&& samples.len() > 0
            &&& samples[0] == bins[hdr::pixel_maximum(pixels, pixel) as int]
            &&& samples.skip(1) == hdr::sampled_bins(pixels, bins, true, pixel + distance, next)
        }),
{
    let total = state * 1664525 + 1013904223;
    assert(next == total % 0x1_0000_0000);
    assert(hdr::next_jitter(state) == next);
    let rest = hdr::sampled_bins(pixels, bins, true, pixel + 1 + next as int / 0x2000_0000, next);
    assert((seq![bins[hdr::pixel_maximum(pixels, pixel) as int]] + rest).skip(1) =~= rest);
}

} // verus!
