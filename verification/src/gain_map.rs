//! Finding an Ultra HDR gain map: the MPF secondary JPEG and its hdrgm XMP.

use vstd::prelude::*;

use crate::bytes;
use crate::bytes::{reads_pair_at, reads_word_at};
use crate::image::{DecodedImage, GainMapMetadata, GainMapPlane};
use crate::search;
use crate::search::{find, text_from_utf8, trim};
use crate::strings::{characters_of, text_of};
use crate::text;
use crate::text::lower_text;

verus! {

/// A marker that stands alone, without a length: the start of an image, TEM, a restart.
pub open spec fn stands_alone(kind: u8) -> bool {
    kind == 0xD8 || kind == 0x01 || 0xD0 <= kind <= 0xD7
}

/// The first place from `from` on that is not a fill byte.
pub open spec fn past_fill(jpeg: Seq<u8>, from: int) -> int
    decreases jpeg.len() - from,
{
    if from < 0 || from >= jpeg.len() {
        jpeg.len() as int
    } else if jpeg[from] == 0xFF {
        past_fill(jpeg, from + 1)
    } else {
        from
    }
}

/// A marker segment: its kind, where its payload starts, how long the payload is.
pub type Segment = (u8, usize, usize);

/// The next segment at or after a place; none at the scan data, at the end of the image, or where
/// the bytes run out or make no sense.
pub open spec fn segment_at(jpeg: Seq<u8>, at: int) -> Option<Segment>
    decreases jpeg.len() - at,
{
    let kind_at = past_fill(jpeg, at + 1);
    if at < 0 || at + 2 > jpeg.len() || jpeg[at] != 0xFF || kind_at >= jpeg.len() || kind_at <= at {
        None
    } else {
        let kind = jpeg[kind_at];
        if stands_alone(kind) {
            segment_at(jpeg, kind_at + 1)
        } else if kind == 0xD9 || kind == 0xDA || kind_at + 3 > jpeg.len() || bytes::short_at(
            jpeg,
            kind_at + 1,
        ) < 2 {
            None
        } else {
            Some(
                (
                    kind,
                    (kind_at + 3) as usize,
                    (bytes::short_at(jpeg, kind_at + 1) - 2) as usize,
                ),
            )
        }
    }
}

proof fn lemma_past_fill(jpeg: Seq<u8>, from: int)
    requires
        0 <= from,
    ensures
        from <= jpeg.len() ==> from <= past_fill(jpeg, from) <= jpeg.len(),
        past_fill(jpeg, from) < jpeg.len() ==> jpeg[past_fill(jpeg, from)] != 0xFF,
    decreases jpeg.len() - from,
{
    if from < jpeg.len() && jpeg[from] == 0xFF {
        lemma_past_fill(jpeg, from + 1);
    }
}

/// The payload of a segment lies behind the place it was looked for from.
pub proof fn lemma_segment_lies_ahead(jpeg: Seq<u8>, at: int)
    requires
        0 <= at,
        jpeg.len() <= usize::MAX,
    ensures
        segment_at(jpeg, at) matches Some((_, start, length)) ==> at + 4 <= start <= jpeg.len()
            && length <= 65533,
    decreases jpeg.len() - at,
{
    if at + 2 <= jpeg.len() && jpeg[at] == 0xFF {
        lemma_past_fill(jpeg, at + 1);
        let kind_at = past_fill(jpeg, at + 1);
        if kind_at < jpeg.len() && stands_alone(jpeg[kind_at]) {
            lemma_segment_lies_ahead(jpeg, kind_at + 1);
        }
    }
}

/// Next segment's marker, payload start and payload length.
pub fn next_segment(jpeg: &[u8], from: usize) -> (segment: Option<Segment>)
    ensures
        segment == segment_at(jpeg@, from as int),
        segment matches Some((_, start, length)) ==> from + 4 <= start <= jpeg@.len() && length
            <= 65533,
{
    proof {
        assert(jpeg.len() <= usize::MAX);
        lemma_segment_lies_ahead(jpeg@, from as int);
    }
    let mut at: usize = from;
    loop
        invariant
            from <= at,
            jpeg@.len() <= usize::MAX,
            segment_at(jpeg@, from as int) == segment_at(jpeg@, at as int),
            segment_at(jpeg@, from as int) matches Some((_, start, length)) ==> from + 4 <= start
                <= jpeg@.len() && length <= 65533,
        decreases jpeg@.len() + 1 - at,
    {
        if jpeg.len() < 2 || at > jpeg.len() - 2 || jpeg[at] != 0xFF {
            return None;
        }
        let ghost start = at as int;
        let mut kind_at: usize = at + 1;
        // Fill bytes: any run of 0xFF collapses onto the marker that follows.
        while kind_at < jpeg.len() && jpeg[kind_at] == 0xFF
            invariant
                start < kind_at <= jpeg.len(),
                past_fill(jpeg@, start + 1) == past_fill(jpeg@, kind_at as int),
            decreases jpeg.len() - kind_at,
        {
            kind_at += 1;
        }
        if kind_at >= jpeg.len() {
            return None;
        }
        let kind: u8 = jpeg[kind_at];
        if kind == 0xD8 || kind == 0x01 || (0xD0 <= kind && kind <= 0xD7) {
            at = kind_at + 1;
            continue;
        }
        if kind == 0xD9 || kind == 0xDA {
            return None;
        }
        return match crate::bytes::read_u16_be(jpeg, kind_at + 1) {
            Some(length) => if length < 2 {
                None
            } else {
                Some((kind, kind_at + 3, length as usize - 2))
            },
            None => None,
        };
    }
}

/// The segments from a place on whose payloads lie inside the bytes; the first that does not ends
/// them.
pub open spec fn segments_from(jpeg: Seq<u8>, at: int) -> Seq<Segment>
    decreases jpeg.len() - at,
{
    match segment_at(jpeg, at) {
        Some((kind, start, length)) => if start + length > jpeg.len() || start + length <= at {
            Seq::empty()
        } else {
            seq![(kind, start, length)] + segments_from(jpeg, start + length)
        },
        None => Seq::empty(),
    }
}

/// The segments before the scan data, in file order; none where the bytes are no JPEG.
pub open spec fn segments(jpeg: Seq<u8>) -> Seq<Segment> {
    if bytes::pair_at(jpeg, 0, 0xFF, 0xD8) {
        segments_from(jpeg, 2)
    } else {
        Seq::empty()
    }
}

/// A segment whose payload lies inside the bytes.
pub open spec fn lies_inside(jpeg: Seq<u8>, segment: Segment) -> bool {
    segment.1 + segment.2 <= jpeg.len()
}

/// Payload range of each marker segment before the scan data, in file order.
pub fn segment_payloads(jpeg: &[u8]) -> (payloads: Vec<Segment>)
    ensures
        payloads@ == segments(jpeg@),
        forall|index: int|
            0 <= index < payloads@.len() ==> lies_inside(jpeg@, #[trigger] payloads@[index]),
{
    let mut payloads: Vec<Segment> = Vec::new();
    if !reads_pair_at(jpeg, 0, 0xFF, 0xD8) {
        assert(payloads@ =~= segments(jpeg@));
        return payloads;
    }
    let mut at: usize = 2;
    assert(payloads@ + segments_from(jpeg@, 2) =~= segments(jpeg@));
    loop
        invariant
            at <= jpeg@.len(),
            payloads@ + segments_from(jpeg@, at as int) == segments(jpeg@),
            forall|index: int|
                0 <= index < payloads@.len() ==> lies_inside(jpeg@, #[trigger] payloads@[index]),
        decreases jpeg@.len() - at,
    {
        let ghost before = payloads@;
        let ghost rest = segments_from(jpeg@, at as int);
        match next_segment(jpeg, at) {
            Some((kind, start, length)) => {
                if length > jpeg.len() - start {
                    assert(payloads@ + rest =~= payloads@);
                    return payloads;
                }
                let ghost after = segments_from(jpeg@, start + length);
                payloads.push((kind, start, length));
                assert(before + (seq![(kind, start, length)] + after) =~= payloads@ + after);
                at = start + length;
            },
            None => {
                assert(payloads@ + rest =~= payloads@);
                return payloads;
            },
        }
    }
}

/// A segment that starts with the MPF identifier.
pub open spec fn is_mpf(jpeg: Seq<u8>, segment: Segment) -> bool {
    segment.0 == 0xE2 && segment.2 >= 4 && bytes::word_at(
        jpeg,
        segment.1 as int,
        0x4D,
        0x50,
        0x46,
        0x00,
    )
}

/// A header walk from a place on meets the MPF segment; unlike the parse it does not ask that the
/// payload be there whole.
pub open spec fn meets_mpf_from(jpeg: Seq<u8>, at: int) -> bool
    decreases jpeg.len() - at,
{
    match segment_at(jpeg, at) {
        Some((kind, start, length)) => {
            if kind == 0xE2 && length >= 4 && start + 4 > jpeg.len() {
                false
            } else if is_mpf(jpeg, (kind, start, length)) {
                true
            } else if start + length <= at || start + length > jpeg.len() {
                false
            } else {
                meets_mpf_from(jpeg, start + length)
            }
        },
        None => false,
    }
}

/// True when a header walk up to the scan data finds the MPF segment.
pub fn jpeg_carries_mpf(jpeg: &[u8]) -> (carries: bool)
    ensures
        carries == (bytes::pair_at(jpeg@, 0, 0xFF, 0xD8) && meets_mpf_from(jpeg@, 2)),
{
    if !reads_pair_at(jpeg, 0, 0xFF, 0xD8) {
        return false;
    }
    let mut at: usize = 2;
    loop
        invariant
            bytes::pair_at(jpeg@, 0, 0xFF, 0xD8),
            at <= jpeg@.len(),
            meets_mpf_from(jpeg@, 2) == meets_mpf_from(jpeg@, at as int),
        decreases jpeg@.len() - at,
    {
        match next_segment(jpeg, at) {
            Some((kind, start, length)) => {
                if kind == 0xE2 && length >= 4 {
                    if jpeg.len() - start < 4 {
                        return false;
                    }
                    if reads_word_at(jpeg, start, 0x4D, 0x50, 0x46, 0x00) {
                        return true;
                    }
                }
                if length > jpeg.len() - start {
                    return false;
                }
                at = start + length;
            },
            None => {
                return false;
            },
        }
    }
}

/// The walk for the MPF segment finds every one the parse would read.
pub proof fn lemma_probe_finds_what_the_parse_reads(jpeg: Seq<u8>, at: int, index: int)
    requires
        0 <= at,
        jpeg.len() <= usize::MAX,
        0 <= index < segments_from(jpeg, at).len(),
        is_mpf(jpeg, segments_from(jpeg, at)[index]),
    ensures
        meets_mpf_from(jpeg, at),
    decreases jpeg.len() - at,
{
    lemma_segment_lies_ahead(jpeg, at);
    match segment_at(jpeg, at) {
        Some((kind, start, length)) => {
            let rest = segments_from(jpeg, start + length);
            if index > 0 {
                assert(segments_from(jpeg, at)[index] == rest[index - 1]);
                lemma_probe_finds_what_the_parse_reads(jpeg, start + length, index - 1);
            }
        },
        None => {},
    }
}

/// TIFF-order reads anchored at the MP header, in the index's declared endianness.
pub struct MpfReader<'bytes> {
    pub file: &'bytes [u8],
    pub header: usize,
    pub little_endian: bool,
}

/// The number of two bytes at an offset from the header, in the declared order.
pub open spec fn ordered_short(file: Seq<u8>, at: int, little_endian: bool) -> int {
    if little_endian {
        file[at] + file[at + 1] * 0x100
    } else {
        bytes::short_at(file, at)
    }
}

/// The number of four bytes at an offset from the header, in the declared order.
pub open spec fn ordered_word(file: Seq<u8>, at: int, little_endian: bool) -> int {
    if little_endian {
        file[at] + file[at + 1] * 0x100 + file[at + 2] * 0x1_0000 + file[at + 3] * 0x100_0000
    } else {
        bytes::big_endian_at(file, at)
    }
}

impl<'bytes> MpfReader<'bytes> {
    pub fn read_u16(&self, offset: usize) -> (value: Option<u16>)
        ensures
            match value {
                Some(number) => self.header + offset + 2 <= self.file@.len() && number
                    == ordered_short(self.file@, self.header + offset, self.little_endian),
                None => self.header + offset + 2 > self.file@.len(),
            },
    {
        let length: usize = self.file.len();
        if length < 2 || self.header > length - 2 || offset > length - 2 - self.header {
            return None;
        }
        let at: usize = self.header + offset;
        if self.little_endian {
            Some(self.file[at] as u16 + self.file[at + 1] as u16 * 0x100)
        } else {
            Some(self.file[at] as u16 * 0x100 + self.file[at + 1] as u16)
        }
    }

    pub fn read_u32(&self, offset: usize) -> (value: Option<u32>)
        ensures
            match value {
                Some(number) => self.header + offset + 4 <= self.file@.len() && number
                    == ordered_word(self.file@, self.header + offset, self.little_endian),
                None => self.header + offset + 4 > self.file@.len(),
            },
    {
        let length: usize = self.file.len();
        if length < 4 || self.header > length - 4 || offset > length - 4 - self.header {
            return None;
        }
        let at: usize = self.header + offset;
        if self.little_endian {
            Some(
                self.file[at] as u32 + self.file[at + 1] as u32 * 0x100 + self.file[at + 2] as u32
                    * 0x1_0000 + self.file[at + 3] as u32 * 0x100_0000,
            )
        } else {
            Some(crate::bytes::big_endian(self.file, at))
        }
    }
}

/// Where the MP entries of an index lie, from its header, and how many there are.
pub struct MpEntryList {
    pub offset: usize,
    pub count: usize,
}

/// The MP entry list that the IFD entries from `index` on name: its offset and its count, which is
/// what of the declared size the file holds.
pub open spec fn entry_list_from(
    file: Seq<u8>,
    header: int,
    little_endian: bool,
    ifd: int,
    index: int,
    count: int,
) -> Option<(int, int)>
    decreases count - index,
{
    let entry = header + ifd + 2 + index * 12;
    if index < 0 || index >= count || entry + 2 > file.len() {
        None
    } else if ordered_short(file, entry, little_endian) != 0xB002 {
        entry_list_from(file, header, little_endian, ifd, index + 1, count)
    } else if entry + 8 > file.len() || ordered_word(file, entry + 4, little_endian) < 16 || entry
        + 12 > file.len() {
        None
    } else {
        let offset = ordered_word(file, entry + 8, little_endian);
        let declared = ordered_word(file, entry + 4, little_endian);
        let available = if header + offset > file.len() {
            0
        } else {
            file.len() - header - offset
        };
        Some(
            (
                offset,
                (if declared < available {
                    declared
                } else {
                    available
                }) / 16,
            ),
        )
    }
}

/// The MP entry list of an index.
pub open spec fn entry_list(file: Seq<u8>, header: int, little_endian: bool) -> Option<(int, int)> {
    if header + 8 > file.len() {
        None
    } else {
        let ifd = ordered_word(file, header + 4, little_endian);
        if header + ifd + 2 > file.len() {
            None
        } else {
            entry_list_from(
                file,
                header,
                little_endian,
                ifd,
                0,
                ordered_short(file, header + ifd, little_endian),
            )
        }
    }
}

/// MP entry array position and image count from the index IFD.
pub fn mp_entry_list(reader: &MpfReader<'_>) -> (entries: Option<MpEntryList>)
    requires
        reader.header <= reader.file@.len(),
    ensures
        (match entries {
            Some(list) => Some((list.offset as int, list.count as int)),
            None => None,
        }) == entry_list(reader.file@, reader.header as int, reader.little_endian),
        entries matches Some(list) ==> list.count * 16 <= reader.file@.len() && list.offset
            <= u32::MAX && (list.count > 0 ==> reader.header + list.offset + list.count * 16
            <= reader.file@.len()),
{
    assert(reader.file.len() <= usize::MAX);
    let index_ifd: u32 = match reader.read_u32(4) {
        Some(offset) => offset,
        None => {
            return None;
        },
    };
    let entry_count: u16 = match reader.read_u16(index_ifd as usize) {
        Some(count) => count,
        None => {
            return None;
        },
    };
    let ghost header = reader.header as int;
    let ghost ifd = index_ifd as int;
    let mut index: u16 = 0;
    let mut entry: usize = index_ifd as usize + 2;
    while index < entry_count
        invariant
            header == reader.header,
            ifd == index_ifd,
            reader.header <= reader.file@.len(),
            reader.file@.len() <= usize::MAX,
            index <= entry_count,
            entry == ifd + 2 + index * 12,
            header + entry <= reader.file@.len() + 12,
            entry <= reader.file@.len() + 12,
            entry_list(reader.file@, header, reader.little_endian) == entry_list_from(
                reader.file@,
                header,
                reader.little_endian,
                ifd,
                index as int,
                entry_count as int,
            ),
        decreases entry_count - index,
    {
        let tag: u16 = match reader.read_u16(entry) {
            Some(tag) => tag,
            None => {
                return None;
            },
        };
        if tag != 0xB002 {
            if reader.file.len() < 12 || entry > reader.file.len() - 12 {
                // The next entry would start past the end.
                assert(entry_list_from(
                    reader.file@,
                    header,
                    reader.little_endian,
                    ifd,
                    index + 1,
                    entry_count as int,
                ) is None);
                return None;
            }
            index += 1;
            entry += 12;
            continue;
        }
        if reader.file.len() < 12 || entry > reader.file.len() - 12 {
            return None;
        }
        let byte_count: u32 = match reader.read_u32(entry + 4) {
            Some(count) => count,
            None => {
                return None;
            },
        };
        if byte_count < 16 {
            return None;
        }
        let offset: u32 = match reader.read_u32(entry + 8) {
            Some(offset) => offset,
            None => {
                return None;
            },
        };
        // The declared size is a claim; the entries still have to sit inside the file.
        let room: usize = reader.file.len() - reader.header;
        let available: usize = if offset as usize > room {
            0
        } else {
            room - offset as usize
        };
        let held: usize = if (byte_count as usize) < available {
            byte_count as usize
        } else {
            available
        };
        return Some(MpEntryList { offset: offset as usize, count: held / 16 });
    }
    None
}

/// A sum as far as an address reaches.
pub open spec fn address(sum: int) -> usize {
    if sum <= usize::MAX {
        sum as usize
    } else {
        usize::MAX
    }
}

/// The ranges the MP entries from `index` on name; the primary image writes offset zero and is left
/// out, every other offset counts from the MP header.
pub open spec fn entry_ranges_from(
    file: Seq<u8>,
    header: int,
    little_endian: bool,
    list: (int, int),
    index: int,
) -> Seq<(usize, usize)>
    decreases list.1 - index,
{
    if index < 0 || index >= list.1 {
        Seq::empty()
    } else {
        let entry = header + list.0 + index * 16;
        let size = ordered_word(file, entry + 4, little_endian);
        let offset = ordered_word(file, entry + 8, little_endian);
        let rest = entry_ranges_from(file, header, little_endian, list, index + 1);
        if offset == 0 {
            rest
        } else {
            seq![(address(header + offset), address(header + offset + size))] + rest
        }
    }
}

/// The byte order an MP header declares.
pub open spec fn declared_order(file: Seq<u8>, header: int) -> Option<bool> {
    if bytes::word_at(file, header, 0x49, 0x49, 0x2A, 0x00) {
        Some(true)
    } else if bytes::word_at(file, header, 0x4D, 0x4D, 0x00, 0x2A) {
        Some(false)
    } else {
        None
    }
}

/// The secondary images that one segment's index names.
pub open spec fn segment_ranges(file: Seq<u8>, segment: Segment) -> Seq<(usize, usize)> {
    let header = segment.1 + 4;
    if !is_mpf(file, segment) {
        Seq::empty()
    } else {
        match declared_order(file, header) {
            Some(little_endian) => match entry_list(file, header, little_endian) {
                Some(list) => entry_ranges_from(file, header, little_endian, list, 0),
                None => Seq::empty(),
            },
            None => Seq::empty(),
        }
    }
}

/// The secondary images that the segments' indexes name, in order.
pub open spec fn ranges_of(file: Seq<u8>, found: Seq<Segment>) -> Seq<(usize, usize)>
    decreases found.len(),
{
    if found.len() == 0 {
        Seq::empty()
    } else {
        ranges_of(file, found.drop_last()) + segment_ranges(file, found.last())
    }
}

fn reach(base: usize, offset: u32) -> (place: usize)
    ensures
        place == address(base + offset),
{
    match base.checked_add(offset as usize) {
        Some(place) => place,
        None => usize::MAX,
    }
}

fn push_entry_ranges(reader: &MpfReader<'_>, list: &MpEntryList, ranges: &mut Vec<(usize, usize)>)
    requires
        reader.header <= reader.file@.len(),
        list.count > 0 ==> reader.header + list.offset + list.count * 16 <= reader.file@.len(),
    ensures
        final(ranges)@ == old(ranges)@ + entry_ranges_from(
            reader.file@,
            reader.header as int,
            reader.little_endian,
            (list.offset as int, list.count as int),
            0,
        ),
{
    let ghost before = ranges@;
    let ghost header = reader.header as int;
    let ghost place = (list.offset as int, list.count as int);
    assert(reader.file.len() <= usize::MAX);
    let mut index: usize = 0;
    while index < list.count
        invariant
            header == reader.header,
            place == (list.offset as int, list.count as int),
            index <= list.count,
            reader.file@.len() <= usize::MAX,
            list.count > 0 ==> reader.header + list.offset + list.count * 16 <= reader.file@.len(),
            ranges@ + entry_ranges_from(
                reader.file@,
                header,
                reader.little_endian,
                place,
                index as int,
            ) == before + entry_ranges_from(reader.file@, header, reader.little_endian, place, 0),
        decreases list.count - index,
    {
        let entry: usize = list.offset + index * 16;
        let ghost now = ranges@;
        let ghost rest = entry_ranges_from(
            reader.file@,
            header,
            reader.little_endian,
            place,
            index + 1,
        );
        match (reader.read_u32(entry + 4), reader.read_u32(entry + 8)) {
            (Some(size), Some(offset)) => {
                if offset != 0 {
                    let start = reach(reader.header, offset);
                    let end = reach(start, size);
                    ranges.push((start, end));
                    assert(now + (seq![(start, end)] + rest) =~= ranges@ + rest);
                }
            },
            _ => {
                assert(false);
            },
        }
        index += 1;
    }
    assert(ranges@ + entry_ranges_from(
        reader.file@,
        header,
        reader.little_endian,
        place,
        index as int,
    ) =~= ranges@);
}

/// Byte ranges of the secondary images in the MPF index, primary excluded.
pub fn mpf_secondary_ranges(file: &[u8]) -> (ranges: Vec<(usize, usize)>)
    ensures
        ranges@ == ranges_of(file@, segments(file@)),
{
    let payloads = segment_payloads(file);
    let mut ranges: Vec<(usize, usize)> = Vec::new();
    let mut index: usize = 0;
    while index < payloads.len()
        invariant
            payloads@ == segments(file@),
            index <= payloads.len(),
            forall|place: int|
                0 <= place < payloads@.len() ==> lies_inside(file@, #[trigger] payloads@[place]),
            ranges@ == ranges_of(file@, payloads@.take(index as int)),
        decreases payloads.len() - index,
    {
        let ghost before = ranges@;
        assert(file.len() <= usize::MAX);
        let segment: Segment = payloads[index];
        assert(lies_inside(file@, payloads@[index as int]));
        assert(payloads@.take(index + 1).drop_last() =~= payloads@.take(index as int));
        assert(payloads@.take(index + 1).last() == segment);
        if segment.0 == 0xE2 && segment.2 >= 4 && reads_word_at(
            file,
            segment.1,
            0x4D,
            0x50,
            0x46,
            0x00,
        ) {
            let header: usize = segment.1 + 4;
            let order: Option<bool> = if reads_word_at(file, header, 0x49, 0x49, 0x2A, 0x00) {
                Some(true)
            } else if reads_word_at(file, header, 0x4D, 0x4D, 0x00, 0x2A) {
                Some(false)
            } else {
                None
            };
            if let Some(little_endian) = order {
                let reader = MpfReader { file, header, little_endian };
                if let Some(list) = mp_entry_list(&reader) {
                    push_entry_ranges(&reader, &list, &mut ranges);
                }
            }
        }
        assert(ranges@ =~= before + segment_ranges(file@, segment));
        index += 1;
    }
    assert(payloads@.take(index as int) =~= payloads@);
    ranges
}

/// The prefix that the packet binds to the hdrgm namespace, looked for from a place on.
pub open spec fn prefix_from(xml: Seq<char>, from: int) -> Option<Seq<char>>
    decreases xml.len() - from,
{
    match search::found_from(xml, "xmlns:"@, from) {
        Some(at) => {
            let start = at + "xmlns:"@.len();
            match search::found_from(xml, "="@, start) {
                Some(equals) => {
                    let prefix = xml.subrange(start, equals);
                    if start <= from || at < from || equals < start {
                        None
                    } else if names_gain_map(xml, equals + 1) && is_short_name(prefix) {
                        Some(prefix)
                    } else {
                        prefix_from(xml, start)
                    }
                },
                None => None,
            }
        },
        None => None,
    }
}

/// A quoted gain map namespace stands here.
pub open spec fn names_gain_map(xml: Seq<char>, at: int) -> bool {
    at < xml.len() && (xml[at] == '"' || xml[at] == '\'') && search::occurs_at(
        xml,
        "http://ns.adobe.com/hdr-gain-map/1.0/"@,
        at + 1,
    )
}

pub open spec fn is_name_character(character: char) -> bool {
    '0' <= character <= '9' || 'A' <= character <= 'Z' || 'a' <= character <= 'z'
}

/// A prefix of up to 32 letters and digits.
pub open spec fn is_short_name(prefix: Seq<char>) -> bool {
    0 < prefix.len() <= 32 && forall|index: int|
        0 <= index < prefix.len() ==> is_name_character(#[trigger] prefix[index])
}

fn short_name(prefix: &[char]) -> (short: bool)
    ensures
        short == is_short_name(prefix@),
{
    if prefix.len() == 0 || prefix.len() > 32 {
        return false;
    }
    let mut index: usize = 0;
    while index < prefix.len()
        invariant
            index <= prefix.len(),
            forall|earlier: int|
                0 <= earlier < index ==> is_name_character(#[trigger] prefix@[earlier]),
        decreases prefix.len() - index,
    {
        let character = prefix[index];
        if !('0' <= character && character <= '9' || 'A' <= character && character <= 'Z' || 'a'
            <= character && character <= 'z') {
            assert(!is_name_character(prefix@[index as int]));
            return false;
        }
        index += 1;
    }
    true
}

proof fn lemma_marker_lengths()
    ensures
        "xmlns:"@.len() == 6,
        "="@.len() == 1,
        "<rdf:li"@.len() == 7,
        "</rdf:li"@.len() == 8,
        ">"@.len() == 1,
{
    reveal_strlit("xmlns:");
    reveal_strlit("=");
    reveal_strlit("<rdf:li");
    reveal_strlit("</rdf:li");
    reveal_strlit(">");
}

/// The prefix the packet binds to the hdrgm namespace, usually "hdrgm".
pub fn hdrgm_prefix(xml: &str) -> (prefix: Option<String>)
    ensures
        (match prefix {
            Some(found) => Some(found@),
            None => None,
        }) == prefix_from(xml@, 0),
{
    let characters = characters_of(xml);
    let binding = characters_of("xmlns:");
    let equals_sign = characters_of("=");
    let namespace = characters_of("http://ns.adobe.com/hdr-gain-map/1.0/");
    proof {
        lemma_marker_lengths();
    }
    let mut from: usize = 0;
    assert(characters.len() <= usize::MAX);
    loop
        invariant
            characters@.len() <= usize::MAX,
            characters@ == xml@,
            binding@ == "xmlns:"@,
            equals_sign@ == "="@,
            namespace@ == "http://ns.adobe.com/hdr-gain-map/1.0/"@,
            "xmlns:"@.len() == 6,
            "="@.len() == 1,
            from <= characters@.len(),
            prefix_from(xml@, 0) == prefix_from(xml@, from as int),
        decreases characters@.len() - from,
    {
        let at: usize = match find(&characters, &binding, from) {
            Some(at) => at,
            None => {
                return None;
            },
        };
        let start: usize = at + 6;
        let equals: usize = match find(&characters, &equals_sign, start) {
            Some(equals) => equals,
            None => {
                return None;
            },
        };
        let prefix = vstd::slice::slice_subrange(&characters, start, equals);
        let quote: usize = equals + 1;
        if quote < characters.len() && (characters[quote] == '"' || characters[quote] == '\'') {
            let there = find(&characters, &namespace, quote + 1);
            proof {
                search::lemma_found_lies_inside(characters@, namespace@, quote + 1);
            }
            let named: bool = match there {
                Some(place) => place == quote + 1,
                None => false,
            };
            assert(named == names_gain_map(xml@, quote as int));
            if named && short_name(prefix) {
                return Some(text_of(prefix));
            }
        }
        from = start;
    }
}

/// The items of a list body from a place on, trimmed; none where an item is torn.
pub open spec fn items_from(body: Seq<char>, from: int) -> Option<Seq<Seq<char>>>
    decreases body.len() - from,
{
    match search::found_from(body, "<rdf:li"@, from) {
        Some(at) => match (
            search::found_from(body, ">"@, at),
            search::found_from(body, "</rdf:li"@, at),
        ) {
            (Some(opening), Some(closing)) => {
                let next = closing + "</rdf:li"@.len();
                if opening + 1 > closing || next <= from || next > body.len() {
                    None
                } else {
                    match items_from(body, next) {
                        Some(rest) => Some(
                            seq![search::trimmed(body.subrange(opening + 1, closing))] + rest,
                        ),
                        None => None,
                    }
                }
            },
            _ => None,
        },
        None => Some(Seq::empty()),
    }
}

/// The texts of an element's body: its list items, or the body itself where it lists none.
pub open spec fn body_values(body: Seq<char>) -> Option<Seq<Seq<char>>> {
    match items_from(body, 0) {
        Some(items) => if items.len() == 0 {
            Some(seq![search::trimmed(body)])
        } else {
            Some(items)
        },
        None => None,
    }
}

/// What an attribute says: None where there is no such attribute in quotes, else its value, which a
/// missing closing quote takes away.
pub open spec fn attribute_value(xml: Seq<char>, qualified: Seq<char>) -> Option<
    Option<Seq<char>>,
> {
    match search::found_from(xml, qualified + "="@, 0) {
        Some(at) => {
            let value = at + qualified.len() + 1;
            if value >= xml.len() {
                Some(None)
            } else if xml[value] == '"' || xml[value] == '\'' {
                match search::found_from(xml, seq![xml[value]], value + 1) {
                    Some(end) => Some(Some(xml.subrange(value + 1, end))),
                    None => Some(None),
                }
            } else {
                None
            }
        },
        None => None,
    }
}

/// What an element says; none where it is missing or torn.
pub open spec fn element_values(xml: Seq<char>, qualified: Seq<char>) -> Option<Seq<Seq<char>>> {
    match search::found_from(xml, "<"@ + qualified, 0) {
        Some(at) => match (
            search::found_from(xml, ">"@, at),
            search::found_from(xml, "</"@ + qualified, at),
        ) {
            (Some(opening), Some(closing)) => if opening + 1 > closing {
                None
            } else {
                body_values(xml.subrange(opening + 1, closing))
            },
            _ => None,
        },
        None => None,
    }
}

/// A property's values as text.
pub open spec fn values_of(xml: Seq<char>, prefix: Seq<char>, name: Seq<char>) -> Option<
    Seq<Seq<char>>,
> {
    let qualified = prefix + ":"@ + name;
    match attribute_value(xml, qualified) {
        Some(Some(value)) => Some(seq![value]),
        Some(None) => None,
        None => element_values(xml, qualified),
    }
}

/// A packet names a property, whether or not its values can be read: as an attribute or as an element.
pub open spec fn names_property(xml: Seq<char>, prefix: Seq<char>, name: Seq<char>) -> bool {
    let qualified = prefix + ":"@ + name;
    search::found_from(xml, qualified + "="@, 0) is Some || search::found_from(
        xml,
        "<"@ + qualified,
        0,
    ) is Some
}

/// The texts of a list of strings.
pub open spec fn text_views(list: Seq<String>) -> Seq<Seq<char>> {
    list.map_values(|text: String| text@)
}

/// The texts behind an optional list.
pub open spec fn optional_texts(list: Option<Vec<String>>) -> Option<Seq<Seq<char>>> {
    match list {
        Some(texts) => Some(text_views(texts@)),
        None => None,
    }
}

fn list_items(body: &[char]) -> (items: Option<Vec<String>>)
    ensures
        optional_texts(items) == items_from(body@, 0),
{
    let item_start = characters_of("<rdf:li");
    let item_end = characters_of("</rdf:li");
    let bracket = characters_of(">");
    proof {
        lemma_marker_lengths();
    }
    let mut items: Vec<String> = Vec::new();
    let mut from: usize = 0;
    assert(body.len() <= usize::MAX);
    proof {
        match items_from(body@, 0) {
            Some(rest) => {
                assert(text_views(items@) + rest =~= rest);
            },
            None => {},
        }
    }
    loop
        invariant
            item_start@ == "<rdf:li"@,
            item_end@ == "</rdf:li"@,
            bracket@ == ">"@,
            "<rdf:li"@.len() == 7,
            "</rdf:li"@.len() == 8,
            ">"@.len() == 1,
            body@.len() <= usize::MAX,
            from <= body@.len(),
            items_from(body@, 0) == (match items_from(body@, from as int) {
                Some(rest) => Some(text_views(items@) + rest),
                None => None,
            }),
        decreases body@.len() - from,
    {
        let at: usize = match find(body, &item_start, from) {
            Some(at) => at,
            None => {
                assert(text_views(items@) + Seq::<Seq<char>>::empty() =~= text_views(items@));
                return Some(items);
            },
        };
        let opening: usize = match find(body, &bracket, at) {
            Some(opening) => opening,
            None => {
                return None;
            },
        };
        let closing: usize = match find(body, &item_end, at) {
            Some(closing) => closing,
            None => {
                return None;
            },
        };
        // An invalid element can place the close tag before the opening '>'.
        if opening + 1 > closing {
            return None;
        }
        let ghost before = text_views(items@);
        let item = trim(vstd::slice::slice_subrange(body, opening + 1, closing));
        let ghost shown = item@;
        items.push(item);
        let next: usize = closing + 8;
        proof {
            assert(text_views(items@) =~= before.push(shown));
            match items_from(body@, next as int) {
                Some(rest) => {
                    assert(before + (seq![shown] + rest) =~= text_views(items@) + rest);
                },
                None => {},
            }
        }
        from = next;
    }
}

fn qualified_name(prefix: &str, name: &str) -> (qualified: Vec<char>)
    ensures
        qualified@ == prefix@ + ":"@ + name@,
{
    let mut qualified = characters_of(prefix);
    let mut separator = characters_of(":");
    let mut rest = characters_of(name);
    qualified.append(&mut separator);
    qualified.append(&mut rest);
    assert(qualified@ =~= prefix@ + ":"@ + name@);
    qualified
}

fn joined(first: &str, second: &Vec<char>) -> (whole: Vec<char>)
    ensures
        whole@ == first@ + second@,
{
    let mut whole = characters_of(first);
    let mut rest: Vec<char> = second.clone();
    assert(rest@ =~= second@);
    whole.append(&mut rest);
    whole
}

/// Property values as text: the attribute value, the element body, or its list items.
pub fn property_values(xml: &str, prefix: &str, name: &str) -> (values: Option<Vec<String>>)
    ensures
        optional_texts(values) == values_of(xml@, prefix@, name@),
{
    let characters = characters_of(xml);
    assert(characters.len() <= usize::MAX);
    let qualified = qualified_name(prefix, name);
    let mut attribute: Vec<char> = qualified.clone();
    assert(attribute@ =~= qualified@);
    let mut equals_sign = characters_of("=");
    proof {
        lemma_marker_lengths();
    }
    attribute.append(&mut equals_sign);
    if let Some(at) = find(&characters, &attribute, 0) {
        let value: usize = at + attribute.len();
        if value >= characters.len() {
            return None;
        }
        let quote: char = characters[value];
        if quote == '"' || quote == '\'' {
            let mut mark: Vec<char> = Vec::new();
            mark.push(quote);
            assert(mark@ =~= seq![quote]);
            return match find(&characters, &mark, value + 1) {
                Some(end) => {
                    let body = vstd::slice::slice_subrange(&characters, value + 1, end);
                    let mut found: Vec<String> = Vec::new();
                    let text = text_of(body);
                    let ghost shown = text@;
                    found.push(text);
                    assert(text_views(found@) =~= seq![shown]);
                    Some(found)
                },
                None => None,
            };
        }
    }
    let opening_tag = joined("<", &qualified);
    let closing_tag = joined("</", &qualified);
    let bracket = characters_of(">");
    let at: usize = match find(&characters, &opening_tag, 0) {
        Some(at) => at,
        None => {
            return None;
        },
    };
    let opening: usize = match find(&characters, &bracket, at) {
        Some(opening) => opening,
        None => {
            return None;
        },
    };
    let closing: usize = match find(&characters, &closing_tag, at) {
        Some(closing) => closing,
        None => {
            return None;
        },
    };
    // An invalid element can place the close tag before the opening '>'.
    if opening + 1 > closing {
        return None;
    }
    let body = vstd::slice::slice_subrange(&characters, opening + 1, closing);
    match list_items(body) {
        Some(items) => {
            assert(text_views(items@).len() == items@.len());
            if items.len() == 0 {
                let mut whole: Vec<String> = Vec::new();
                let text = trim(body);
                let ghost shown = text@;
                whole.push(text);
                assert(text_views(whole@) =~= seq![shown]);
                Some(whole)
            } else {
                Some(items)
            }
        },
        None => None,
    }
}

/// Whether a packet names a property.
pub fn property_is_named(xml: &str, prefix: &str, name: &str) -> (named: bool)
    ensures
        named == names_property(xml@, prefix@, name@),
{
    let characters = characters_of(xml);
    let qualified = qualified_name(prefix, name);
    let mut attribute: Vec<char> = qualified.clone();
    assert(attribute@ =~= qualified@);
    let mut equals_sign = characters_of("=");
    attribute.append(&mut equals_sign);
    let opening_tag = joined("<", &qualified);
    find(&characters, &attribute, 0).is_some() || find(&characters, &opening_tag, 0).is_some()
}

/// One value for every plane, or three values in plane order.
pub enum PlaneText {
    One(String),
    Three(String, String, String),
}

pub enum PlaneTextModel {
    One(Seq<char>),
    Three(Seq<char>, Seq<char>, Seq<char>),
}

impl View for PlaneText {
    type V = PlaneTextModel;

    open spec fn view(&self) -> PlaneTextModel {
        match self {
            PlaneText::One(value) => PlaneTextModel::One(value@),
            PlaneText::Three(red, green, blue) => PlaneTextModel::Three(red@, green@, blue@),
        }
    }
}

/// What a packet says of a gain map, as written; an absent property means its default.
pub struct HdrgmProperties {
    pub gain_map_maximum: PlaneText,
    pub gain_map_minimum: Option<PlaneText>,
    pub gamma: Option<PlaneText>,
    pub offset_sdr: Option<PlaneText>,
    pub offset_hdr: Option<PlaneText>,
    pub hdr_capacity_minimum: Option<String>,
    pub hdr_capacity_maximum: String,
    pub base_rendition_is_hdr: bool,
}

#[verifier::ext_equal]
pub struct PropertiesModel {
    pub gain_map_maximum: PlaneTextModel,
    pub gain_map_minimum: Option<PlaneTextModel>,
    pub gamma: Option<PlaneTextModel>,
    pub offset_sdr: Option<PlaneTextModel>,
    pub offset_hdr: Option<PlaneTextModel>,
    pub hdr_capacity_minimum: Option<Seq<char>>,
    pub hdr_capacity_maximum: Seq<char>,
    pub base_rendition_is_hdr: bool,
}

pub open spec fn optional_plane(plane: Option<PlaneText>) -> Option<PlaneTextModel> {
    match plane {
        Some(found) => Some(found@),
        None => None,
    }
}

impl View for HdrgmProperties {
    type V = PropertiesModel;

    open spec fn view(&self) -> PropertiesModel {
        PropertiesModel {
            gain_map_maximum: self.gain_map_maximum@,
            gain_map_minimum: optional_plane(self.gain_map_minimum),
            gamma: optional_plane(self.gamma),
            offset_sdr: optional_plane(self.offset_sdr),
            offset_hdr: optional_plane(self.offset_hdr),
            hdr_capacity_minimum: crate::image::optional_text(self.hdr_capacity_minimum),
            hdr_capacity_maximum: self.hdr_capacity_maximum@,
            base_rendition_is_hdr: self.base_rendition_is_hdr,
        }
    }
}

/// One value copied to every plane, or three values in plane order.
pub open spec fn plane_text(values: Seq<Seq<char>>) -> Option<PlaneTextModel> {
    if values.len() == 1 {
        Some(PlaneTextModel::One(values[0]))
    } else if values.len() == 3 {
        Some(PlaneTextModel::Three(values[0], values[1], values[2]))
    } else {
        None
    }
}

/// An optional property of planes: absent, or as a list it can be; the outer None rejects the packet, as
/// a property does that is named and cannot be read.
pub open spec fn optional_plane_text(named: bool, values: Option<Seq<Seq<char>>>) -> Option<
    Option<PlaneTextModel>,
> {
    match values {
        Some(list) => match plane_text(list) {
            Some(plane) => Some(Some(plane)),
            None => None,
        },
        None => if named {
            None
        } else {
            Some(None)
        },
    }
}

/// An optional single value: absent, or one text; the outer None rejects the packet.
pub open spec fn optional_scalar(named: bool, values: Option<Seq<Seq<char>>>) -> Option<
    Option<Seq<char>>,
> {
    match values {
        Some(list) => if list.len() == 1 {
            Some(Some(list[0]))
        } else {
            None
        },
        None => if named {
            None
        } else {
            Some(None)
        },
    }
}

/// Whether the base rendition is the HDR one; the outer None rejects the packet.
pub open spec fn base_flag(named: bool, values: Option<Seq<Seq<char>>>) -> Option<bool> {
    match values {
        Some(list) => if list.len() == 1 {
            Some(text::lowered(list[0]) == "true"@)
        } else {
            None
        },
        None => if named {
            None
        } else {
            Some(false)
        },
    }
}

/// What a packet says of a gain map: version, greatest gain and greatest capacity are required, and
/// a property that is named must be readable and of the shape it has.
pub open spec fn properties_of(xml: Seq<char>) -> Option<PropertiesModel> {
    match prefix_from(xml, 0) {
        None => None,
        Some(prefix) => {
            let maximum = values_of(xml, prefix, "GainMapMax"@);
            let capacity = values_of(xml, prefix, "HDRCapacityMax"@);
            match (
                values_of(xml, prefix, "Version"@),
                maximum,
                capacity,
                optional_plane_text(
                    names_property(xml, prefix, "GainMapMin"@),
                    values_of(xml, prefix, "GainMapMin"@),
                ),
                optional_plane_text(
                    names_property(xml, prefix, "Gamma"@),
                    values_of(xml, prefix, "Gamma"@),
                ),
                optional_plane_text(
                    names_property(xml, prefix, "OffsetSDR"@),
                    values_of(xml, prefix, "OffsetSDR"@),
                ),
                optional_plane_text(
                    names_property(xml, prefix, "OffsetHDR"@),
                    values_of(xml, prefix, "OffsetHDR"@),
                ),
                optional_scalar(
                    names_property(xml, prefix, "HDRCapacityMin"@),
                    values_of(xml, prefix, "HDRCapacityMin"@),
                ),
                base_flag(
                    names_property(xml, prefix, "BaseRenditionIsHDR"@),
                    values_of(xml, prefix, "BaseRenditionIsHDR"@),
                ),
            ) {
                (
                    Some(_),
                    Some(planes),
                    Some(caps),
                    Some(gain_map_minimum),
                    Some(gamma),
                    Some(offset_sdr),
                    Some(offset_hdr),
                    Some(hdr_capacity_minimum),
                    Some(base_rendition_is_hdr),
                ) => match plane_text(planes) {
                    Some(gain_map_maximum) => if caps.len() == 1 {
                        Some(
                            PropertiesModel {
                                gain_map_maximum,
                                gain_map_minimum,
                                gamma,
                                offset_sdr,
                                offset_hdr,
                                hdr_capacity_minimum,
                                hdr_capacity_maximum: caps[0],
                                base_rendition_is_hdr,
                            },
                        )
                    } else {
                        None
                    },
                    None => None,
                },
                _ => None,
            }
        },
    }
}

fn read_plane(values: &Vec<String>) -> (plane: Option<PlaneText>)
    ensures
        optional_plane(plane) == plane_text(text_views(values@)),
{
    assert(text_views(values@).len() == values@.len());
    if values.len() == 1 {
        Some(PlaneText::One(values[0].clone()))
    } else if values.len() == 3 {
        Some(PlaneText::Three(values[0].clone(), values[1].clone(), values[2].clone()))
    } else {
        None
    }
}

fn read_optional_plane(named: bool, values: Option<Vec<String>>) -> (plane: Option<Option<PlaneText>>)
    ensures
        (match plane {
            Some(found) => Some(optional_plane(found)),
            None => None,
        }) == optional_plane_text(named, optional_texts(values)),
{
    match values {
        Some(list) => match read_plane(&list) {
            Some(plane) => Some(Some(plane)),
            None => None,
        },
        None => if named {
            None
        } else {
            Some(None)
        },
    }
}

fn read_optional_scalar(named: bool, values: Option<Vec<String>>) -> (scalar: Option<Option<String>>)
    ensures
        (match scalar {
            Some(found) => Some(crate::image::optional_text(found)),
            None => None,
        }) == optional_scalar(named, optional_texts(values)),
{
    match values {
        Some(list) => {
            assert(text_views(list@).len() == list@.len());
            if list.len() == 1 {
                Some(Some(list[0].clone()))
            } else {
                None
            }
        },
        None => if named {
            None
        } else {
            Some(None)
        },
    }
}

fn read_base_flag(named: bool, values: Option<Vec<String>>) -> (flag: Option<bool>)
    ensures
        flag == base_flag(named, optional_texts(values)),
{
    match values {
        Some(list) => {
            assert(text_views(list@).len() == list@.len());
            if list.len() == 1 {
                let lower = lower_text(list[0].as_str());
                Some(crate::strings::same_text(lower.as_str(), "true"))
            } else {
                None
            }
        },
        None => if named {
            None
        } else {
            Some(false)
        },
    }
}

/// Reads hdrgm properties as text; one that is present but cannot be read rejects the packet.
pub fn parse_hdrgm(xml: &str) -> (properties: Option<HdrgmProperties>)
    ensures
        (match properties {
            Some(found) => Some(found@),
            None => None,
        }) == properties_of(xml@),
{
    let prefix = match hdrgm_prefix(xml) {
        Some(prefix) => prefix,
        None => {
            return None;
        },
    };
    let prefix: &str = prefix.as_str();
    let version = property_values(xml, prefix, "Version");
    let maximum = property_values(xml, prefix, "GainMapMax");
    let capacity = property_values(xml, prefix, "HDRCapacityMax");
    let gain_map_minimum = read_optional_plane(
        property_is_named(xml, prefix, "GainMapMin"),
        property_values(xml, prefix, "GainMapMin"),
    );
    let gamma = read_optional_plane(
        property_is_named(xml, prefix, "Gamma"),
        property_values(xml, prefix, "Gamma"),
    );
    let offset_sdr = read_optional_plane(
        property_is_named(xml, prefix, "OffsetSDR"),
        property_values(xml, prefix, "OffsetSDR"),
    );
    let offset_hdr = read_optional_plane(
        property_is_named(xml, prefix, "OffsetHDR"),
        property_values(xml, prefix, "OffsetHDR"),
    );
    let hdr_capacity_minimum = read_optional_scalar(
        property_is_named(xml, prefix, "HDRCapacityMin"),
        property_values(xml, prefix, "HDRCapacityMin"),
    );
    let base = read_base_flag(
        property_is_named(xml, prefix, "BaseRenditionIsHDR"),
        property_values(xml, prefix, "BaseRenditionIsHDR"),
    );
    if version.is_none() {
        return None;
    }
    match (
        maximum,
        capacity,
        gain_map_minimum,
        gamma,
        offset_sdr,
        offset_hdr,
        hdr_capacity_minimum,
        base,
    ) {
        (
            Some(planes),
            Some(caps),
            Some(gain_map_minimum),
            Some(gamma),
            Some(offset_sdr),
            Some(offset_hdr),
            Some(hdr_capacity_minimum),
            Some(base_rendition_is_hdr),
        ) => {
            assert(text_views(caps@).len() == caps@.len());
            match read_plane(&planes) {
                Some(gain_map_maximum) => if caps.len() == 1 {
                    Some(
                        HdrgmProperties {
                            gain_map_maximum,
                            gain_map_minimum,
                            gamma,
                            offset_sdr,
                            offset_hdr,
                            hdr_capacity_minimum,
                            hdr_capacity_maximum: caps[0].clone(),
                            base_rendition_is_hdr,
                        },
                    )
                } else {
                    None
                },
                None => None,
            }
        },
        _ => None,
    }
}

/// A packet that names an optional property and leaves it unreadable declares no gain map.
pub proof fn lemma_unreadable_property_rejects(xml: Seq<char>, name: Seq<char>)
    requires
        name == "GainMapMin"@ || name == "Gamma"@ || name == "OffsetSDR"@ || name == "OffsetHDR"@
            || name == "HDRCapacityMin"@ || name == "BaseRenditionIsHDR"@,
        prefix_from(xml, 0) matches Some(prefix) ==> names_property(xml, prefix, name) && values_of(
            xml,
            prefix,
            name,
        ) is None,
    ensures
        properties_of(xml) is None,
{
}

/// The identifier that starts an XMP packet's payload.
pub const XMP_IDENTIFIER: [u8; 29] = [
    0x68, 0x74, 0x74, 0x70, 0x3A, 0x2F, 0x2F, 0x6E, 0x73, 0x2E, 0x61, 0x64, 0x6F, 0x62, 0x65, 0x2E,
    0x63, 0x6F, 0x6D, 0x2F, 0x78, 0x61, 0x70, 0x2F, 0x31, 0x2E, 0x30, 0x2F, 0x00,
];

/// The gain map properties that one segment's XMP packet declares.
pub open spec fn segment_properties(jpeg: Seq<u8>, segment: Segment) -> Option<PropertiesModel> {
    let payload = jpeg.subrange(segment.1 as int, segment.1 + segment.2);
    if segment.0 != 0xE1 || payload.len() < 29 || payload.take(29) != XMP_IDENTIFIER@ {
        None
    } else if vstd::utf8::valid_utf8(payload.skip(29)) {
        properties_of(vstd::utf8::decode_utf8(payload.skip(29)))
    } else {
        None
    }
}

/// The gain map properties that the segments' packets declare, in order.
pub open spec fn declared_properties(jpeg: Seq<u8>, found: Seq<Segment>) -> Seq<PropertiesModel>
    decreases found.len(),
{
    if found.len() == 0 {
        Seq::empty()
    } else {
        match segment_properties(jpeg, found.last()) {
            Some(properties) => declared_properties(jpeg, found.drop_last()).push(properties),
            None => declared_properties(jpeg, found.drop_last()),
        }
    }
}

pub open spec fn property_models(list: Seq<HdrgmProperties>) -> Seq<PropertiesModel> {
    list.map_values(|properties: HdrgmProperties| properties@)
}

fn starts_with_identifier(payload: &[u8]) -> (starts: bool)
    ensures
        starts == (payload@.len() >= 29 && payload@.take(29) == XMP_IDENTIFIER@),
{
    if payload.len() < 29 {
        return false;
    }
    let mut index: usize = 0;
    while index < 29
        invariant
            index <= 29,
            payload@.len() >= 29,
            forall|earlier: int|
                0 <= earlier < index ==> #[trigger] payload@[earlier] == XMP_IDENTIFIER@[earlier],
        decreases 29 - index,
    {
        if payload[index] != XMP_IDENTIFIER[index] {
            proof {
                assert(payload@.take(29)[index as int] != XMP_IDENTIFIER@[index as int]);
            }
            return false;
        }
        index += 1;
    }
    assert(payload@.take(29) =~= XMP_IDENTIFIER@);
    true
}

/// The gain map properties that a JPEG's XMP packets declare, in file order.
pub fn hdrgm_packets(jpeg: &[u8]) -> (packets: Vec<HdrgmProperties>)
    ensures
        property_models(packets@) == declared_properties(jpeg@, segments(jpeg@)),
{
    let payloads = segment_payloads(jpeg);
    let mut packets: Vec<HdrgmProperties> = Vec::new();
    let mut index: usize = 0;
    assert(property_models(packets@) =~= declared_properties(jpeg@, payloads@.take(0)));
    while index < payloads.len()
        invariant
            payloads@ == segments(jpeg@),
            index <= payloads.len(),
            forall|place: int|
                0 <= place < payloads@.len() ==> lies_inside(jpeg@, #[trigger] payloads@[place]),
            property_models(packets@) == declared_properties(jpeg@, payloads@.take(index as int)),
        decreases payloads.len() - index,
    {
        let ghost before = property_models(packets@);
        assert(jpeg.len() <= usize::MAX);
        let segment: Segment = payloads[index];
        assert(lies_inside(jpeg@, payloads@[index as int]));
        assert(payloads@.take(index + 1).drop_last() =~= payloads@.take(index as int));
        assert(payloads@.take(index + 1).last() == segment);
        if segment.0 == 0xE1 {
            let payload = vstd::slice::slice_subrange(jpeg, segment.1, segment.1 + segment.2);
            if starts_with_identifier(payload) {
                let packet = vstd::slice::slice_subrange(payload, 29, payload.len());
                assert(packet@ =~= payload@.skip(29));
                if let Some(xml) = text_from_utf8(packet) {
                    if let Some(properties) = parse_hdrgm(xml.as_str()) {
                        let ghost found = properties@;
                        packets.push(properties);
                        assert(property_models(packets@) =~= before.push(found));
                    }
                }
            }
        }
        index += 1;
    }
    assert(payloads@.take(index as int) =~= payloads@);
    packets
}

/// A secondary image that may be a gain map, and what its packets say.
pub struct GainMapCandidate {
    pub start: usize,
    pub end: usize,
    pub packets: Vec<HdrgmProperties>,
}

/// The candidates a list of ranges names: those that lie inside the file, each with what its own
/// packets declare.
pub open spec fn candidates_of(file: Seq<u8>, ranges: Seq<(usize, usize)>) -> Seq<
    (usize, usize, Seq<PropertiesModel>),
>
    decreases ranges.len(),
{
    if ranges.len() == 0 {
        Seq::empty()
    } else {
        let rest = candidates_of(file, ranges.drop_last());
        let (start, end) = ranges.last();
        if start <= end <= file.len() {
            let jpeg = file.subrange(start as int, end as int);
            rest.push((start, end, declared_properties(jpeg, segments(jpeg))))
        } else {
            rest
        }
    }
}

pub open spec fn candidate_models(list: Seq<GainMapCandidate>) -> Seq<
    (usize, usize, Seq<PropertiesModel>),
> {
    list.map_values(
        |candidate: GainMapCandidate|
            (candidate.start, candidate.end, property_models(candidate.packets@)),
    )
}

/// The MPF secondary images inside the file, with what their XMP packets declare.
pub fn gain_map_candidates(file: &[u8]) -> (candidates: Vec<GainMapCandidate>)
    ensures
        candidate_models(candidates@) == candidates_of(file@, ranges_of(file@, segments(file@))),
{
    let ranges = mpf_secondary_ranges(file);
    let mut candidates: Vec<GainMapCandidate> = Vec::new();
    let mut index: usize = 0;
    assert(candidate_models(candidates@) =~= candidates_of(file@, ranges@.take(0)));
    while index < ranges.len()
        invariant
            ranges@ == ranges_of(file@, segments(file@)),
            index <= ranges.len(),
            candidate_models(candidates@) == candidates_of(file@, ranges@.take(index as int)),
        decreases ranges.len() - index,
    {
        let ghost before = candidate_models(candidates@);
        let (start, end) = ranges[index];
        assert(ranges@.take(index + 1).drop_last() =~= ranges@.take(index as int));
        assert(ranges@.take(index + 1).last() == (start, end));
        if start <= end && end <= file.len() {
            let jpeg = vstd::slice::slice_subrange(file, start, end);
            let packets = hdrgm_packets(jpeg);
            let candidate = GainMapCandidate { start, end, packets };
            let ghost found = (start, end, property_models(candidate.packets@));
            candidates.push(candidate);
            assert(candidate_models(candidates@) =~= before.push(found));
        }
        index += 1;
    }
    assert(ranges@.take(index as int) =~= ranges@);
    candidates
}

/// A float, given by its bits, that is neither infinite nor not a number.
pub open spec fn finite(bits: u32) -> bool {
    bits as int / 0x80_0000 % 0x100 != 0xFF
}

/// A number that orders finite floats, given by their bits, as their values do.
pub open spec fn ordinal(bits: u32) -> int {
    if bits < 0x8000_0000 {
        bits as int
    } else {
        0x8000_0000 - bits
    }
}

pub open spec fn planes_finite(planes: (u32, u32, u32)) -> bool {
    finite(planes.0) && finite(planes.1) && finite(planes.2)
}

/// A parameter set the formula can act on: finite, the minima at most the maxima, positive gammas, a
/// capacity span that is not empty and reaches above no gain, and an SDR base.
pub open spec fn acts(metadata: GainMapMetadata) -> bool {
    &&& planes_finite(metadata.gain_map_minimum)
    &&& planes_finite(metadata.gain_map_maximum)
    &&& ordinal(metadata.gain_map_minimum.0) <= ordinal(metadata.gain_map_maximum.0)
    &&& ordinal(metadata.gain_map_minimum.1) <= ordinal(metadata.gain_map_maximum.1)
    &&& ordinal(metadata.gain_map_minimum.2) <= ordinal(metadata.gain_map_maximum.2)
    &&& planes_finite(metadata.gamma)
    &&& ordinal(metadata.gamma.0) > 0
    &&& ordinal(metadata.gamma.1) > 0
    &&& ordinal(metadata.gamma.2) > 0
    &&& planes_finite(metadata.offset_sdr)
    &&& planes_finite(metadata.offset_hdr)
    &&& finite(metadata.hdr_capacity_minimum)
    &&& finite(metadata.hdr_capacity_maximum)
    &&& ordinal(metadata.hdr_capacity_maximum) > ordinal(metadata.hdr_capacity_minimum)
    &&& ordinal(metadata.hdr_capacity_maximum) > 0
    &&& !metadata.base_rendition_is_hdr
}

fn is_finite(bits: u32) -> (found: bool)
    ensures
        found == finite(bits),
{
    bits / 0x80_0000 % 0x100 != 0xFF
}

fn order(bits: u32) -> (place: i64)
    ensures
        place == ordinal(bits),
{
    if bits < 0x8000_0000 {
        bits as i64
    } else {
        0x8000_0000 - bits as i64
    }
}

fn all_finite(planes: (u32, u32, u32)) -> (found: bool)
    ensures
        found == planes_finite(planes),
{
    is_finite(planes.0) && is_finite(planes.1) && is_finite(planes.2)
}

/// A parameter set the formula can act on; anything else fails closed.
pub fn usable(metadata: &GainMapMetadata) -> (found: bool)
    ensures
        found == acts(*metadata),
{
    all_finite(metadata.gain_map_minimum) && all_finite(metadata.gain_map_maximum) && order(
        metadata.gain_map_minimum.0,
    ) <= order(metadata.gain_map_maximum.0) && order(metadata.gain_map_minimum.1) <= order(
        metadata.gain_map_maximum.1,
    ) && order(metadata.gain_map_minimum.2) <= order(metadata.gain_map_maximum.2) && all_finite(
        metadata.gamma,
    ) && order(metadata.gamma.0) > 0 && order(metadata.gamma.1) > 0 && order(metadata.gamma.2) > 0
        && all_finite(metadata.offset_sdr) && all_finite(metadata.offset_hdr) && is_finite(
        metadata.hdr_capacity_minimum,
    ) && is_finite(metadata.hdr_capacity_maximum) && order(metadata.hdr_capacity_maximum) > order(
        metadata.hdr_capacity_minimum,
    ) && order(metadata.hdr_capacity_maximum) > 0 && !metadata.base_rendition_is_hdr
}

/// The numbers a property's texts spell, each as the bits of a float; none where a text spells no
/// number.
#[derive(Clone, Copy, PartialEq, Eq, Debug)]
pub enum PlaneNumbers {
    One(Option<u32>),
    Three(Option<u32>, Option<u32>, Option<u32>),
}

/// The properties of a packet with their texts read as numbers; an absent property has none.
#[derive(Clone, Copy, PartialEq, Eq, Debug)]
pub struct HdrgmNumbers {
    pub gain_map_maximum: PlaneNumbers,
    pub gain_map_minimum: Option<PlaneNumbers>,
    pub gamma: Option<PlaneNumbers>,
    pub offset_sdr: Option<PlaneNumbers>,
    pub offset_hdr: Option<PlaneNumbers>,
    pub hdr_capacity_minimum: Option<Option<u32>>,
    pub hdr_capacity_maximum: Option<u32>,
    pub base_rendition_is_hdr: bool,
}

/// The bits of 0.
pub const ZERO_BITS: u32 = 0;

/// The bits of 1.
pub const ONE_BITS: u32 = 0x3F80_0000;

/// The bits of one part in 64, where the offsets stand unless a packet says otherwise.
pub const DEFAULT_OFFSET_BITS: u32 = 0x3C80_0000;

/// One value for every plane, or three in plane order; none where one cannot be read.
pub open spec fn planes_read(numbers: PlaneNumbers) -> Option<(u32, u32, u32)> {
    match numbers {
        PlaneNumbers::One(Some(value)) => Some((value, value, value)),
        PlaneNumbers::Three(Some(red), Some(green), Some(blue)) => Some((red, green, blue)),
        _ => None,
    }
}

/// An absent property has its default on every plane.
pub open spec fn planes_or(numbers: Option<PlaneNumbers>, default: u32) -> Option<(u32, u32, u32)> {
    match numbers {
        Some(present) => planes_read(present),
        None => Some((default, default, default)),
    }
}

/// The parameters a packet declares; one unreadable number rejects it.
pub open spec fn metadata_read(numbers: HdrgmNumbers) -> Option<GainMapMetadata> {
    match (
        planes_read(numbers.gain_map_maximum),
        numbers.hdr_capacity_maximum,
        planes_or(numbers.gain_map_minimum, ZERO_BITS),
        planes_or(numbers.gamma, ONE_BITS),
        planes_or(numbers.offset_sdr, DEFAULT_OFFSET_BITS),
        planes_or(numbers.offset_hdr, DEFAULT_OFFSET_BITS),
        match numbers.hdr_capacity_minimum {
            Some(present) => present,
            None => Some(ZERO_BITS),
        },
    ) {
        (
            Some(gain_map_maximum),
            Some(hdr_capacity_maximum),
            Some(gain_map_minimum),
            Some(gamma),
            Some(offset_sdr),
            Some(offset_hdr),
            Some(hdr_capacity_minimum),
        ) => Some(
            GainMapMetadata {
                gain_map_minimum,
                gain_map_maximum,
                gamma,
                offset_sdr,
                offset_hdr,
                hdr_capacity_minimum,
                hdr_capacity_maximum,
                base_rendition_is_hdr: numbers.base_rendition_is_hdr,
            },
        ),
        _ => None,
    }
}

fn per_plane(numbers: PlaneNumbers) -> (planes: Option<(u32, u32, u32)>)
    ensures
        planes == planes_read(numbers),
{
    match numbers {
        PlaneNumbers::One(Some(value)) => Some((value, value, value)),
        PlaneNumbers::Three(Some(red), Some(green), Some(blue)) => Some((red, green, blue)),
        _ => None,
    }
}

fn plane_or(numbers: Option<PlaneNumbers>, default: u32) -> (planes: Option<(u32, u32, u32)>)
    ensures
        planes == planes_or(numbers, default),
{
    match numbers {
        Some(present) => per_plane(present),
        None => Some((default, default, default)),
    }
}

/// The parameters of a packet: an absent property means its default, a present one must read.
pub fn read_metadata(numbers: &HdrgmNumbers) -> (metadata: Option<GainMapMetadata>)
    ensures
        metadata == metadata_read(*numbers),
{
    let hdr_capacity_minimum: Option<u32> = match numbers.hdr_capacity_minimum {
        Some(present) => present,
        None => Some(ZERO_BITS),
    };
    match (
        per_plane(numbers.gain_map_maximum),
        numbers.hdr_capacity_maximum,
        plane_or(numbers.gain_map_minimum, ZERO_BITS),
        plane_or(numbers.gamma, ONE_BITS),
        plane_or(numbers.offset_sdr, DEFAULT_OFFSET_BITS),
        plane_or(numbers.offset_hdr, DEFAULT_OFFSET_BITS),
        hdr_capacity_minimum,
    ) {
        (
            Some(gain_map_maximum),
            Some(hdr_capacity_maximum),
            Some(gain_map_minimum),
            Some(gamma),
            Some(offset_sdr),
            Some(offset_hdr),
            Some(least),
        ) => Some(
            GainMapMetadata {
                gain_map_minimum,
                gain_map_maximum,
                gamma,
                offset_sdr,
                offset_hdr,
                hdr_capacity_minimum: least,
                hdr_capacity_maximum,
                base_rendition_is_hdr: numbers.base_rendition_is_hdr,
            },
        ),
        _ => None,
    }
}

/// Where the gain map JPEG sits in the file, and what its XMP declares.
#[derive(Clone, Copy, PartialEq, Eq, Debug)]
pub struct UltraHdr {
    pub start: usize,
    pub end: usize,
    pub metadata: GainMapMetadata,
}

/// A candidate once its numbers are read: its range, and the parameters of each packet whose numbers
/// could be read.
pub struct ReadCandidate {
    pub start: usize,
    pub end: usize,
    pub packets: Vec<Option<GainMapMetadata>>,
}

/// The first packet from `from` on whose numbers could be read.
pub open spec fn first_read(packets: Seq<Option<GainMapMetadata>>, from: int) -> Option<
    GainMapMetadata,
>
    decreases packets.len() - from,
{
    if from < 0 || from >= packets.len() {
        None
    } else if packets[from] is Some {
        packets[from]
    } else {
        first_read(packets, from + 1)
    }
}

/// The first candidate from `from` on whose parameters can be acted on.
pub open spec fn first_usable(candidates: Seq<ReadCandidate>, from: int) -> Option<UltraHdr>
    decreases candidates.len() - from,
{
    if from < 0 || from >= candidates.len() {
        None
    } else {
        match first_read(candidates[from].packets@, 0) {
            Some(metadata) => if acts(metadata) {
                Some(
                    UltraHdr {
                        start: candidates[from].start,
                        end: candidates[from].end,
                        metadata,
                    },
                )
            } else {
                first_usable(candidates, from + 1)
            },
            None => first_usable(candidates, from + 1),
        }
    }
}

/// The MPF secondary image whose XMP carries gain map parameters that can be acted on.
pub fn find_ultra_hdr(candidates: &Vec<ReadCandidate>) -> (found: Option<UltraHdr>)
    ensures
        found == first_usable(candidates@, 0),
{
    let mut index: usize = 0;
    while index < candidates.len()
        invariant
            index <= candidates.len(),
            first_usable(candidates@, 0) == first_usable(candidates@, index as int),
        decreases candidates.len() - index,
    {
        let candidate = &candidates[index];
        let mut packet: usize = 0;
        let mut read: Option<GainMapMetadata> = None;
        while packet < candidate.packets.len() && read.is_none()
            invariant
                packet <= candidate.packets.len(),
                read is None ==> first_read(candidate.packets@, 0) == first_read(
                    candidate.packets@,
                    packet as int,
                ),
                read is Some ==> first_read(candidate.packets@, 0) == read,
            decreases candidate.packets.len() - packet,
        {
            read = candidate.packets[packet];
            packet += 1;
        }
        if let Some(metadata) = read {
            if usable(&metadata) {
                return Some(UltraHdr { start: candidate.start, end: candidate.end, metadata });
            }
        }
        index += 1;
    }
    None
}

/// A gain map that is found can be acted on, and lies where one of the candidates does.
pub proof fn lemma_found_gain_map_acts(candidates: Seq<ReadCandidate>, from: int)
    requires
        0 <= from,
    ensures
        first_usable(candidates, from) matches Some(found) ==> acts(found.metadata) && exists|
            index: int,
        |
            0 <= index < candidates.len() && (#[trigger] candidates[index]).start == found.start
                && candidates[index].end == found.end,
    decreases candidates.len() - from,
{
    if from < candidates.len() {
        lemma_found_gain_map_acts(candidates, from + 1);
    }
}

/// An image with its gain map: a plane past the base size is corrupt and left out, so damage reads
/// as a plain file.
pub open spec fn with_gain_map(
    image: crate::image::ImageModel,
    found: Option<(GainMapMetadata, crate::image::PlaneModel)>,
) -> crate::image::ImageModel {
    match found {
        Some((metadata, plane)) => if 0 < plane.width <= image.width && 0 < plane.height
            <= image.height {
            crate::image::ImageModel {
                gain_map: Some(metadata),
                gain_map_plane: Some(plane),
                ..image
            }
        } else {
            image
        },
        None => image,
    }
}

/// Attaches the gain map, or leaves both fields as they are so damage reads as a plain file.
pub fn attach_gain_map(decoded: DecodedImage, found: Option<(GainMapMetadata, GainMapPlane)>) -> (
    attached: DecodedImage)
    ensures
        attached@ == with_gain_map(
            decoded@,
            match found {
                Some((metadata, plane)) => Some((metadata, plane@)),
                None => None,
            },
        ),
{
    match found {
        Some((metadata, plane)) => if GainMapPlane::size_fits_within(
            plane.width,
            plane.height,
            decoded.width,
            decoded.height,
        ) {
            let mut attached = decoded;
            attached.gain_map = Some(metadata);
            attached.gain_map_plane = Some(plane);
            assert(attached@ =~= with_gain_map(decoded@, Some((metadata, plane@))));
            attached
        } else {
            decoded
        },
        None => decoded,
    }
}

} // verus!
