//! Text the file system and the network hand over: wide names, path pieces, URL pieces.

use vstd::prelude::*;

use crate::strings::characters_of;

verus! {

/// ASCII lower case of one UTF-16 unit; every other unit stands for itself.
pub open spec fn lower_unit(unit: u16) -> u16 {
    if 0x41 <= unit <= 0x5A {
        (unit + 0x20) as u16
    } else {
        unit
    }
}

/// ASCII lower case of a wide text, unit by unit.
pub open spec fn folded(units: Seq<u16>) -> Seq<u16> {
    units.map_values(|unit: u16| lower_unit(unit))
}

/// ASCII lower case of one character; every other character stands for itself.
pub open spec fn lower_char(character: char) -> char {
    if 'A' <= character <= 'Z' {
        (character as u8 + 0x20) as u8 as char
    } else {
        character
    }
}

/// ASCII lower case of a text, character by character.
pub open spec fn lowered(text: Seq<char>) -> Seq<char> {
    text.map_values(|character: char| lower_char(character))
}

pub fn lower_wide(unit: u16) -> (lower: u16)
    ensures
        lower == lower_unit(unit),
{
    if 0x41 <= unit && unit <= 0x5A {
        unit + 0x20
    } else {
        unit
    }
}

pub fn lower_character(character: char) -> (lower: char)
    ensures
        lower == lower_char(character),
{
    if 'A' <= character && character <= 'Z' {
        (character as u8 + 0x20) as char
    } else {
        character
    }
}

/// The text in ASCII lower case.
pub fn lower_text(text: &str) -> (lower: String)
    ensures
        lower@ == lowered(text@),
{
    let characters = characters_of(text);
    let mut lower = String::new();
    let mut index: usize = 0;
    while index < characters.len()
        invariant
            characters@ == text@,
            index <= characters.len(),
            lower@ == lowered(text@).take(index as int),
        decreases characters.len() - index,
    {
        lower.push(lower_character(characters[index]));
        index += 1;
        assert(lower@ =~= lowered(text@).take(index as int));
    }
    assert(lowered(text@).take(text@.len() as int) =~= lowered(text@));
    lower
}

/// Two wide texts that differ in ASCII case at most.
pub fn equal_ignoring_case(first: &[u16], second: &[u16]) -> (equal: bool)
    ensures
        equal == (folded(first@) == folded(second@)),
{
    if first.len() != second.len() {
        assert(folded(first@).len() != folded(second@).len());
        return false;
    }
    let mut index: usize = 0;
    while index < first.len()
        invariant
            first.len() == second.len(),
            index <= first.len(),
            forall|earlier: int|
                0 <= earlier < index ==> lower_unit(first@[earlier]) == lower_unit(
                    second@[earlier],
                ),
        decreases first.len() - index,
    {
        if lower_wide(first[index]) != lower_wide(second[index]) {
            assert(folded(first@)[index as int] != folded(second@)[index as int]);
            return false;
        }
        index += 1;
    }
    assert(folded(first@) =~= folded(second@));
    true
}

/// The UTF-16 units of one character.
pub open spec fn units_of(character: char) -> Seq<u16> {
    let value = character as u32 as int;
    if value < 0x10000 {
        seq![value as u16]
    } else {
        seq![
            (0xD800 + (value - 0x10000) / 0x400) as u16,
            (0xDC00 + (value - 0x10000) % 0x400) as u16,
        ]
    }
}

/// The UTF-16 units of a text.
pub open spec fn wide(text: Seq<char>) -> Seq<u16>
    decreases text.len(),
{
    if text.len() == 0 {
        Seq::empty()
    } else {
        units_of(text[0]) + wide(text.skip(1))
    }
}

pub open spec fn is_high_surrogate(unit: u16) -> bool {
    0xD800 <= unit <= 0xDBFF
}

pub open spec fn is_low_surrogate(unit: u16) -> bool {
    0xDC00 <= unit <= 0xDFFF
}

/// The text a wide name displays as, from one unit on: each unpaired surrogate turns into the
/// replacement character.
pub open spec fn displayed_from(units: Seq<u16>, from: int) -> Seq<char>
    decreases units.len() - from,
{
    if from < 0 || from >= units.len() {
        Seq::empty()
    } else if is_high_surrogate(units[from]) && from + 1 < units.len() && is_low_surrogate(
        units[from + 1],
    ) {
        seq![
            (0x10000 + (units[from] - 0xD800) * 0x400 + (units[from + 1] - 0xDC00)) as char,
        ] + displayed_from(units, from + 2)
    } else if is_high_surrogate(units[from]) || is_low_surrogate(units[from]) {
        seq!['\u{FFFD}'] + displayed_from(units, from + 1)
    } else {
        seq![units[from] as char] + displayed_from(units, from + 1)
    }
}

/// The text a wide name displays as.
pub open spec fn displayed(units: Seq<u16>) -> Seq<char> {
    displayed_from(units, 0)
}

proof fn lemma_displayed_after_prefix(prefix: Seq<u16>, units: Seq<u16>, from: int)
    requires
        0 <= from,
    ensures
        displayed_from(prefix + units, prefix.len() + from) == displayed_from(units, from),
    decreases units.len() - from,
{
    let whole = prefix + units;
    let at = prefix.len() + from;
    if from < units.len() {
        assert(whole[at] == units[from]);
        if from + 1 < units.len() {
            assert(whole[at + 1] == units[from + 1]);
        }
        lemma_displayed_after_prefix(prefix, units, from + 1);
        if from + 1 < units.len() {
            lemma_displayed_after_prefix(prefix, units, from + 2);
        }
    }
}

proof fn lemma_units_of_a_character(character: char)
    ensures
        (character as u32) < 0x10000 ==> units_of(character)[0] as char == character
            && !is_high_surrogate(units_of(character)[0]) && !is_low_surrogate(
            units_of(character)[0],
        ),
        (character as u32) >= 0x10000 ==> is_high_surrogate(units_of(character)[0])
            && is_low_surrogate(units_of(character)[1]) && (0x10000 + (units_of(character)[0]
            - 0xD800) * 0x400 + (units_of(character)[1] - 0xDC00)) as char == character,
{
}

/// A text that went wide displays as itself.
pub proof fn lemma_wide_text_displays_as_itself(text: Seq<char>)
    ensures
        displayed(wide(text)) == text,
    decreases text.len(),
{
    if text.len() > 0 {
        let rest = wide(text.skip(1));
        let head = units_of(text[0]);
        lemma_wide_text_displays_as_itself(text.skip(1));
        assert(wide(text) == head + rest);
        lemma_displayed_after_prefix(head, rest, 0);
        lemma_units_of_a_character(text[0]);
        assert((head + rest)[0] == head[0]);
        if head.len() == 2 {
            assert((head + rest)[1] == head[1]);
        }
        assert(text =~= seq![text[0]] + text.skip(1));
    } else {
        assert(text =~= Seq::empty());
    }
}

/// The UTF-16 units of a text.
pub fn wide_of(text: &str) -> (units: Vec<u16>)
    ensures
        units@ == wide(text@),
{
    let characters = characters_of(text);
    let mut units: Vec<u16> = Vec::new();
    let mut index: usize = 0;
    assert(text@.skip(0) =~= text@);
    while index < characters.len()
        invariant
            characters@ == text@,
            index <= characters.len(),
            units@ + wide(text@.skip(index as int)) == wide(text@),
        decreases characters.len() - index,
    {
        let ghost before = units@;
        let value: u32 = characters[index] as u32;
        if value < 0x10000 {
            units.push(value as u16);
        } else {
            units.push((0xD800 + (value - 0x10000) / 0x400) as u16);
            units.push((0xDC00 + (value - 0x10000) % 0x400) as u16);
        }
        proof {
            let rest = text@.skip(index as int);
            assert(rest[0] == text@[index as int]);
            assert(rest.skip(1) =~= text@.skip(index + 1));
            assert(units@ =~= before + units_of(text@[index as int]));
            assert(before + (units_of(rest[0]) + wide(rest.skip(1))) =~= units@ + wide(
                rest.skip(1),
            ));
        }
        index += 1;
    }
    assert(units@ + wide(text@.skip(index as int)) =~= units@);
    units
}

/// The text a wide name displays as; an unpaired surrogate shows as the replacement character.
pub fn display_of(units: &[u16]) -> (text: String)
    ensures
        text@ == displayed(units@),
{
    let mut text = String::new();
    let mut index: usize = 0;
    while index < units.len()
        invariant
            index <= units.len(),
            text@ + displayed_from(units@, index as int) == displayed(units@),
        decreases units.len() - index,
    {
        let ghost before = text@;
        let ghost from = index as int;
        let unit: u16 = units[index];
        let high: bool = 0xD800 <= unit && unit <= 0xDBFF;
        let low: bool = 0xDC00 <= unit && unit <= 0xDFFF;
        let mut value: u32 = unit as u32;
        let mut width: usize = 1;
        if high && index + 1 < units.len() && 0xDC00 <= units[index + 1] && units[index + 1]
            <= 0xDFFF {
            value = 0x10000 + (unit as u32 - 0xD800) * 0x400 + (units[index + 1] as u32 - 0xDC00);
            width = 2;
        } else if high || low {
            value = 0xFFFD;
        }
        match char::from_u32(value) {
            Some(character) => {
                text.push(character);
                proof {
                    assert(text@ =~= before + seq![value as char]);
                    assert(before + (seq![value as char] + displayed_from(units@, from + width))
                        =~= text@ + displayed_from(units@, from + width));
                }
            },
            None => {
                assert(false);
            },
        }
        index += width;
    }
    assert(text@ + displayed_from(units@, index as int) =~= text@);
    text
}

} // verus!
