//! Reading an ICC profile: what space it describes, and what it calls itself.

use vstd::prelude::*;

use crate::bytes;
use crate::bytes::{read_u16_be, read_u32_be, reads_word_at};
use crate::search;
use crate::search::{text_from_utf16, text_from_utf8, trim_field};
use crate::strings::characters_of;
use crate::text;

verus! {

/// A tag's name.
pub type Signature = (u8, u8, u8, u8);

pub open spec fn signed_at(icc: Seq<u8>, offset: int, signature: Signature) -> bool {
    bytes::word_at(icc, offset, signature.0, signature.1, signature.2, signature.3)
}

/// The data offset of the first tag-table entry from `index` on with this signature; a table that
/// runs past the profile ends the search.
pub open spec fn tag_offset_from(icc: Seq<u8>, signature: Signature, index: int, count: int) -> Option<
    usize,
>
    decreases count - index,
{
    let entry = 132 + index * 12;
    if index < 0 || index >= count || entry + 4 > icc.len() {
        None
    } else if signed_at(icc, entry, signature) {
        if entry + 8 > icc.len() {
            None
        } else {
            Some(bytes::big_endian_at(icc, entry + 4) as usize)
        }
    } else {
        tag_offset_from(icc, signature, index + 1, count)
    }
}

/// The data offset of the first tag-table entry with this signature.
pub open spec fn tag_place(icc: Seq<u8>, signature: Signature) -> Option<usize> {
    if icc.len() < 132 {
        None
    } else {
        tag_offset_from(icc, signature, 0, bytes::big_endian_at(icc, 128))
    }
}

/// Data offset of the first tag-table entry with this signature.
pub fn tag_offset(icc: &[u8], signature: Signature) -> (offset: Option<usize>)
    ensures
        offset == tag_place(icc@, signature),
        offset matches Some(place) ==> place <= u32::MAX,
{
    let tag_count: u32 = match read_u32_be(icc, 128) {
        Some(count) => count,
        None => {
            return None;
        },
    };
    let mut index: u32 = 0;
    let mut entry: usize = 132;
    while index < tag_count && icc.len() >= 4 && entry <= icc.len() - 4
        invariant
            icc@.len() >= 132,
            tag_count == bytes::big_endian_at(icc@, 128),
            index <= tag_count,
            entry == 132 + index * 12,
            entry <= icc@.len() + 8,
            tag_place(icc@, signature) == tag_offset_from(
                icc@,
                signature,
                index as int,
                tag_count as int,
            ),
        decreases tag_count - index,
    {
        if reads_word_at(icc, entry, signature.0, signature.1, signature.2, signature.3) {
            return match read_u32_be(icc, entry + 4) {
                Some(offset) => Some(offset as usize),
                None => None,
            };
        }
        if icc.len() < 12 || entry > icc.len() - 12 {
            // The next entry would start past the end.
            assert(tag_offset_from(icc@, signature, index + 1, tag_count as int) is None);
            return None;
        }
        index += 1;
        entry += 12;
    }
    None
}

/// How a tone curve is written. Parameters are signed 16.16 fixed point.
pub enum ToneCurve {
    Identity,
    /// A gamma as unsigned 8.8 fixed point.
    Gamma(u16),
    /// Samples of 16 bits each, from this offset on.
    Sampled { start: usize, count: usize },
    Parametric { function: u16, parameters: Vec<i32> },
}

pub enum CurveModel {
    Identity,
    Gamma(u16),
    Sampled { start: usize, count: usize },
    Parametric { function: u16, parameters: Seq<i32> },
}

impl View for ToneCurve {
    type V = CurveModel;

    open spec fn view(&self) -> CurveModel {
        match self {
            ToneCurve::Identity => CurveModel::Identity,
            ToneCurve::Gamma(gamma) => CurveModel::Gamma(*gamma),
            ToneCurve::Sampled { start, count } => CurveModel::Sampled {
                start: *start,
                count: *count,
            },
            ToneCurve::Parametric { function, parameters } => CurveModel::Parametric {
                function: *function,
                parameters: parameters@,
            },
        }
    }
}

/// How many parameters a parametric function takes.
pub open spec fn parameter_count(function: int) -> Option<int> {
    if function == 0 {
        Some(1)
    } else if function == 1 {
        Some(3)
    } else if function == 2 {
        Some(4)
    } else if function == 3 {
        Some(5)
    } else if function == 4 {
        Some(7)
    } else {
        None
    }
}

/// The signed number in the four bytes at the offset.
pub open spec fn signed_number_at(icc: Seq<u8>, offset: int) -> i32 {
    let raw = bytes::big_endian_at(icc, offset);
    (if raw < 0x8000_0000 {
        raw
    } else {
        raw - 0x1_0000_0000
    }) as i32
}

/// How the tone curve at an offset is written; None for a form that cannot be read. A parametric
/// curve that divides by its second parameter has it nonzero.
pub open spec fn curve_at(icc: Seq<u8>, offset: int) -> Option<CurveModel> {
    if signed_at(icc, offset, (0x63, 0x75, 0x72, 0x76)) {
        if offset + 12 > icc.len() {
            None
        } else {
            let count = bytes::big_endian_at(icc, offset + 8);
            if count == 0 {
                Some(CurveModel::Identity)
            } else if count == 1 {
                if offset + 14 > icc.len() {
                    None
                } else {
                    Some(CurveModel::Gamma(bytes::short_at(icc, offset + 12) as u16))
                }
            } else {
                Some(CurveModel::Sampled { start: (offset + 12) as usize, count: count as usize })
            }
        }
    } else if signed_at(icc, offset, (0x70, 0x61, 0x72, 0x61)) {
        if offset + 16 > icc.len() {
            None
        } else {
            let function = bytes::short_at(icc, offset + 8);
            match parameter_count(function) {
                Some(count) => if offset + 12 + count * 4 > icc.len() || ((function == 1 || function
                    == 2) && signed_number_at(icc, offset + 16) == 0) {
                    None
                } else {
                    Some(
                        CurveModel::Parametric {
                            function: function as u16,
                            parameters: Seq::new(
                                count as nat,
                                |index: int| signed_number_at(icc, offset + 12 + index * 4),
                            ),
                        },
                    )
                },
                None => None,
            }
        }
    } else {
        None
    }
}

fn read_signed(icc: &[u8], offset: usize) -> (value: i32)
    requires
        offset + 4 <= icc.len(),
    ensures
        value == signed_number_at(icc@, offset as int),
{
    let raw: u32 = crate::bytes::big_endian(icc, offset);
    if raw < 0x8000_0000 {
        raw as i32
    } else {
        (raw as i64 - 0x1_0000_0000) as i32
    }
}

/// How the tone curve of a tag is written; None when it is missing or of a form that cannot be read.
pub fn tone_curve(icc: &[u8], tag: Signature) -> (curve: Option<ToneCurve>)
    ensures
        (match curve {
            Some(found) => Some(found@),
            None => None,
        }) == (match tag_place(icc@, tag) {
            Some(offset) => curve_at(icc@, offset as int),
            None => None,
        }),
{
    let offset: usize = match tag_offset(icc, tag) {
        Some(offset) => offset,
        None => {
            return None;
        },
    };
    if reads_word_at(icc, offset, 0x63, 0x75, 0x72, 0x76) {
        if icc.len() < 12 || offset > icc.len() - 12 {
            return None;
        }
        let count: u32 = crate::bytes::big_endian(icc, offset + 8);
        if count == 0 {
            return Some(ToneCurve::Identity);
        }
        if count == 1 {
            return match read_u16_be(icc, offset + 12) {
                Some(gamma) => Some(ToneCurve::Gamma(gamma)),
                None => None,
            };
        }
        return Some(ToneCurve::Sampled { start: offset + 12, count: count as usize });
    }
    if reads_word_at(icc, offset, 0x70, 0x61, 0x72, 0x61) {
        if icc.len() < 16 || offset > icc.len() - 16 {
            return None;
        }
        let function: u16 = match read_u16_be(icc, offset + 8) {
            Some(function) => function,
            None => {
                return None;
            },
        };
        let count: usize = match function {
            0 => 1,
            1 => 3,
            2 => 4,
            3 => 5,
            4 => 7,
            _ => {
                return None;
            },
        };
        let length: usize = 12 + count * 4;
        if icc.len() < length || offset > icc.len() - length {
            return None;
        }
        if (function == 1 || function == 2) && read_signed(icc, offset + 16) == 0 {
            return None;
        }
        let ghost wanted = Seq::new(
            count as nat,
            |index: int| signed_number_at(icc@, offset + 12 + index * 4),
        );
        let mut parameters: Vec<i32> = Vec::new();
        let mut index: usize = 0;
        while index < count
            invariant
                index <= count,
                count <= 7,
                offset + 12 + count * 4 <= icc@.len(),
                icc@.len() <= usize::MAX,
                wanted == Seq::new(
                    count as nat,
                    |index: int| signed_number_at(icc@, offset + 12 + index * 4),
                ),
                parameters@ == wanted.take(index as int),
            decreases count - index,
        {
            parameters.push(read_signed(icc, offset + 12 + index * 4));
            index += 1;
            assert(parameters@ =~= wanted.take(index as int));
        }
        assert(parameters@ =~= wanted);
        return Some(ToneCurve::Parametric { function, parameters });
    }
    None
}

/// One sample of a sampled tone curve, when in bounds.
pub fn curve_sample(icc: &[u8], start: usize, index: usize) -> (sample: Option<u16>)
    ensures
        match sample {
            Some(value) => start + index * 2 + 2 <= icc@.len() && value == bytes::short_at(
                icc@,
                start + index * 2,
            ),
            None => start + index * 2 + 2 > icc@.len(),
        },
{
    if icc.len() < 2 || index > (icc.len() - 2) / 2 || start > icc.len() - 2 - index * 2 {
        return None;
    }
    read_u16_be(icc, start + index * 2)
}

/// The tags that hold the red, green and blue tone curves.
pub fn tone_curves(icc: &[u8]) -> (curves: Option<(ToneCurve, ToneCurve, ToneCurve)>)
    ensures
        ({
            let red = curve_of(icc@, (0x72, 0x54, 0x52, 0x43));
            let green = curve_of(icc@, (0x67, 0x54, 0x52, 0x43));
            let blue = curve_of(icc@, (0x62, 0x54, 0x52, 0x43));
            match curves {
                Some(found) => red == Some(found.0@) && green == Some(found.1@) && blue == Some(
                    found.2@,
                ),
                None => red is None || green is None || blue is None,
            }
        }),
{
    match (
        tone_curve(icc, (0x72, 0x54, 0x52, 0x43)),
        tone_curve(icc, (0x67, 0x54, 0x52, 0x43)),
        tone_curve(icc, (0x62, 0x54, 0x52, 0x43)),
    ) {
        (Some(red), Some(green), Some(blue)) => Some((red, green, blue)),
        _ => None,
    }
}

/// How a tag's tone curve is written.
pub open spec fn curve_of(icc: Seq<u8>, tag: Signature) -> Option<CurveModel> {
    match tag_place(icc, tag) {
        Some(offset) => curve_at(icc, offset as int),
        None => None,
    }
}

/// A color as a profile stores it: X, Y, Z in signed 16.16 fixed point.
pub type Colorant = (i32, i32, i32);

/// The colorant of a tag.
pub open spec fn colorant_of(icc: Seq<u8>, tag: Signature) -> Option<Colorant> {
    match tag_place(icc, tag) {
        Some(offset) => if signed_at(icc, offset as int, (0x58, 0x59, 0x5A, 0x20)) && offset + 20
            <= icc.len() {
            Some(
                (
                    signed_number_at(icc, offset + 8),
                    signed_number_at(icc, offset + 12),
                    signed_number_at(icc, offset + 16),
                ),
            )
        } else {
            None
        },
        None => None,
    }
}

fn colorant(icc: &[u8], tag: Signature) -> (color: Option<Colorant>)
    ensures
        color == colorant_of(icc@, tag),
{
    match tag_offset(icc, tag) {
        Some(offset) => if reads_word_at(icc, offset, 0x58, 0x59, 0x5A, 0x20) && icc.len() >= 20
            && offset <= icc.len() - 20 {
            Some(
                (
                    read_signed(icc, offset + 8),
                    read_signed(icc, offset + 12),
                    read_signed(icc, offset + 16),
                ),
            )
        } else {
            None
        },
        None => None,
    }
}

/// R, G, B colorants as the profile stores them, in the D50 PCS; None for non-matrix profiles.
pub fn colorants(icc: &[u8]) -> (colors: Option<(Colorant, Colorant, Colorant)>)
    ensures
        ({
            let red = colorant_of(icc@, (0x72, 0x58, 0x59, 0x5A));
            let green = colorant_of(icc@, (0x67, 0x58, 0x59, 0x5A));
            let blue = colorant_of(icc@, (0x62, 0x58, 0x59, 0x5A));
            match colors {
                Some((first, second, third)) => red == Some(first) && green == Some(second) && blue
                    == Some(third),
                None => red is None || green is None || blue is None,
            }
        }),
{
    match (
        colorant(icc, (0x72, 0x58, 0x59, 0x5A)),
        colorant(icc, (0x67, 0x58, 0x59, 0x5A)),
        colorant(icc, (0x62, 0x58, 0x59, 0x5A)),
    ) {
        (Some(red), Some(green), Some(blue)) => Some((red, green, blue)),
        _ => None,
    }
}

/// The bytes before the first zero from `from` on.
pub open spec fn zero_from(field: Seq<u8>, from: int) -> int
    decreases field.len() - from,
{
    if from < 0 || from >= field.len() {
        field.len() as int
    } else if field[from] == 0 {
        from
    } else {
        zero_from(field, from + 1)
    }
}

/// The big-endian 16-bit units of a field; an odd last byte is left over.
pub open spec fn units_at(icc: Seq<u8>, start: int, length: int) -> Seq<u16> {
    Seq::new((length / 2) as nat, |index: int| bytes::short_at(icc, start + index * 2) as u16)
}

/// The text of a description tag as it is written: a version 2 text up to its first zero, or the
/// first record of a version 4 list.
pub open spec fn description_at(icc: Seq<u8>, offset: int) -> Option<Seq<char>> {
    if signed_at(icc, offset, (0x64, 0x65, 0x73, 0x63)) {
        if offset + 12 > icc.len() || offset + 12 + bytes::big_endian_at(icc, offset + 8)
            > icc.len() {
            None
        } else {
            let field = icc.subrange(
                offset + 12,
                offset + 12 + bytes::big_endian_at(icc, offset + 8),
            );
            let name = field.take(zero_from(field, 0));
            if vstd::utf8::valid_utf8(name) {
                Some(vstd::utf8::decode_utf8(name))
            } else {
                None
            }
        }
    } else if signed_at(icc, offset, (0x6D, 0x6C, 0x75, 0x63)) {
        if offset + 28 > icc.len() || offset + bytes::big_endian_at(icc, offset + 24)
            + bytes::big_endian_at(icc, offset + 20) > icc.len() {
            None
        } else {
            let units = units_at(
                icc,
                offset + bytes::big_endian_at(icc, offset + 24),
                bytes::big_endian_at(icc, offset + 20),
            );
            if search::well_paired_from(units, 0) {
                Some(text::displayed(units))
            } else {
                None
            }
        }
    } else {
        None
    }
}

/// What a profile calls itself; a name of padding alone is no name.
pub open spec fn description(icc: Seq<u8>) -> Option<Seq<char>> {
    match tag_place(icc, (0x64, 0x65, 0x73, 0x63)) {
        Some(offset) => match description_at(icc, offset as int) {
            Some(written) => {
                let name = search::stripped(written, search::field_padding());
                if name.len() == 0 {
                    None
                } else {
                    Some(name)
                }
            },
            None => None,
        },
        None => None,
    }
}

fn written_description(icc: &[u8], offset: usize) -> (written: Option<String>)
    requires
        offset <= u32::MAX,
    ensures
        (match written {
            Some(found) => Some(found@),
            None => None,
        }) == description_at(icc@, offset as int),
{
    if reads_word_at(icc, offset, 0x64, 0x65, 0x73, 0x63) {
        if icc.len() < 12 || offset > icc.len() - 12 {
            return None;
        }
        let length: usize = crate::bytes::big_endian(icc, offset + 8) as usize;
        let start: usize = offset + 12;
        if length > icc.len() - start {
            return None;
        }
        let field = vstd::slice::slice_subrange(icc, start, start + length);
        let mut end: usize = 0;
        while end < field.len() && field[end] != 0
            invariant
                end <= field.len(),
                zero_from(field@, 0) == zero_from(field@, end as int),
            decreases field.len() - end,
        {
            end += 1;
        }
        let name = vstd::slice::slice_subrange(field, 0, end);
        assert(name@ =~= field@.take(zero_from(field@, 0)));
        return text_from_utf8(name);
    }
    if reads_word_at(icc, offset, 0x6D, 0x6C, 0x75, 0x63) {
        if icc.len() < 28 || offset > icc.len() - 28 {
            return None;
        }
        let length: usize = crate::bytes::big_endian(icc, offset + 20) as usize;
        let distance: usize = crate::bytes::big_endian(icc, offset + 24) as usize;
        if distance > icc.len() - offset || length > icc.len() - offset - distance {
            return None;
        }
        let start: usize = offset + distance;
        let ghost wanted = units_at(icc@, start as int, length as int);
        let count: usize = length / 2;
        let mut units: Vec<u16> = Vec::new();
        let mut index: usize = 0;
        while index < count
            invariant
                index <= count,
                count * 2 <= length,
                start + length <= icc@.len(),
                icc@.len() <= usize::MAX,
                wanted == units_at(icc@, start as int, length as int),
                count == length / 2,
                units@ == wanted.take(index as int),
            decreases count - index,
        {
            match read_u16_be(icc, start + index * 2) {
                Some(unit) => units.push(unit),
                None => {
                    assert(false);
                },
            }
            index += 1;
            assert(units@ =~= wanted.take(index as int));
        }
        assert(units@ =~= wanted);
        return text_from_utf16(&units);
    }
    None
}

/// Human-readable profile name from the ICC 'desc' tag (v2 text or v4 mluc).
pub fn profile_description(icc: &[u8]) -> (name: Option<String>)
    ensures
        (match name {
            Some(found) => Some(found@),
            None => None,
        }) == description(icc@),
{
    match tag_offset(icc, (0x64, 0x65, 0x73, 0x63)) {
        Some(offset) => match written_description(icc, offset) {
            Some(written) => {
                let characters = characters_of(written.as_str());
                let name = trim_field(&characters);
                let letters = characters_of(name.as_str());
                if letters.len() == 0 {
                    None
                } else {
                    Some(name)
                }
            },
            None => None,
        },
        None => None,
    }
}

} // verus!
