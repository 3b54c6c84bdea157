//! Finding, cutting and decoding text.

use vstd::prelude::*;

use crate::strings::{is_white_space, text_of};
use crate::text;

verus! {

/// `std::str::from_utf8`: the text the bytes encode, none where they are not valid UTF-8.
#[verifier::external_body]
pub(crate) fn text_from_utf8(bytes: &[u8]) -> (decoded: Option<String>)
    ensures
        match decoded {
            Some(found) => vstd::utf8::valid_utf8(bytes@) && found@ == vstd::utf8::decode_utf8(
                bytes@,
            ),
            None => !vstd::utf8::valid_utf8(bytes@),
        },
{
    match std::str::from_utf8(bytes) {
        Ok(found) => Some(found.to_owned()),
        Err(_) => None,
    }
}

/// Every surrogate from `from` on is half of a pair.
pub open spec fn well_paired_from(units: Seq<u16>, from: int) -> bool
    decreases units.len() - from,
{
    if from < 0 || from >= units.len() {
        true
    } else if text::is_high_surrogate(units[from]) {
        from + 1 < units.len() && text::is_low_surrogate(units[from + 1]) && well_paired_from(
            units,
            from + 2,
        )
    } else {
        !text::is_low_surrogate(units[from]) && well_paired_from(units, from + 1)
    }
}

/// The text UTF-16 units encode, none where a surrogate stands alone.
pub fn text_from_utf16(units: &[u16]) -> (decoded: Option<String>)
    ensures
        match decoded {
            Some(found) => well_paired_from(units@, 0) && found@ == text::displayed(units@),
            None => !well_paired_from(units@, 0),
        },
{
    let mut index: usize = 0;
    while index < units.len()
        invariant
            index <= units.len(),
            well_paired_from(units@, 0) == well_paired_from(units@, index as int),
        decreases units.len() - index,
    {
        let unit: u16 = units[index];
        if 0xD800 <= unit && unit <= 0xDBFF {
            if index + 1 >= units.len() {
                return None;
            }
            let second: u16 = units[index + 1];
            if second < 0xDC00 || second > 0xDFFF {
                return None;
            }
            index += 2;
        } else if 0xDC00 <= unit && unit <= 0xDFFF {
            return None;
        } else {
            index += 1;
        }
    }
    Some(crate::text::display_of(units))
}

/// The pattern stands at this place of the text.
pub open spec fn occurs_at(text: Seq<char>, pattern: Seq<char>, at: int) -> bool {
    0 <= at && at + pattern.len() <= text.len() && text.subrange(at, at + pattern.len()) == pattern
}

/// The first place from `from` on where the pattern stands.
pub open spec fn found_from(text: Seq<char>, pattern: Seq<char>, from: int) -> Option<int>
    decreases text.len() + 1 - from,
{
    if from < 0 || from > text.len() {
        None
    } else if occurs_at(text, pattern, from) {
        Some(from)
    } else {
        found_from(text, pattern, from + 1)
    }
}

/// What is found lies inside the text, and the pattern stands there.
pub proof fn lemma_found_lies_inside(text: Seq<char>, pattern: Seq<char>, from: int)
    requires
        0 <= from,
    ensures
        found_from(text, pattern, from) matches Some(at) ==> from <= at && at + pattern.len()
            <= text.len() && occurs_at(text, pattern, at) && forall|earlier: int|
            from <= earlier < at ==> !#[trigger] occurs_at(text, pattern, earlier),
        found_from(text, pattern, from) is None ==> forall|at: int|
            from <= at ==> !#[trigger] occurs_at(text, pattern, at),
    decreases text.len() + 1 - from,
{
    if from <= text.len() && !occurs_at(text, pattern, from) {
        lemma_found_lies_inside(text, pattern, from + 1);
    }
}

fn stands_at(text: &[char], pattern: &[char], at: usize) -> (found: bool)
    ensures
        found == occurs_at(text@, pattern@, at as int),
{
    if text.len() < pattern.len() || at > text.len() - pattern.len() {
        return false;
    }
    let mut index: usize = 0;
    while index < pattern.len()
        invariant
            index <= pattern.len(),
            at + pattern.len() <= text.len(),
            forall|earlier: int|
                0 <= earlier < index ==> text@[at + earlier] == #[trigger] pattern@[earlier],
        decreases pattern.len() - index,
    {
        if text[at + index] != pattern[index] {
            proof {
                let there = text@.subrange(at as int, at + pattern@.len());
                assert(there[index as int] != pattern@[index as int]);
            }
            return false;
        }
        index += 1;
    }
    assert(text@.subrange(at as int, at + pattern@.len()) =~= pattern@);
    true
}

/// The first place from `from` on where the pattern stands.
pub fn find(text: &[char], pattern: &[char], from: usize) -> (place: Option<usize>)
    ensures
        (match place {
            Some(at) => Some(at as int),
            None => None,
        }) == found_from(text@, pattern@, from as int),
        place matches Some(at) ==> from <= at && at + pattern@.len() <= text@.len(),
{
    proof {
        lemma_found_lies_inside(text@, pattern@, from as int);
    }
    if from > text.len() {
        return None;
    }
    let mut at: usize = from;
    while at <= text.len()
        invariant
            from <= at <= text.len(),
            found_from(text@, pattern@, from as int) == found_from(text@, pattern@, at as int),
        decreases text.len() - at,
    {
        if stands_at(text, pattern, at) {
            return Some(at);
        }
        if at == text.len() {
            assert(found_from(text@, pattern@, at + 1) is None);
            return None;
        }
        at += 1;
    }
    None
}

/// The first place from `from` on that is not padding.
pub open spec fn past_padding(text: Seq<char>, padding: spec_fn(char) -> bool, from: int) -> int
    decreases text.len() - from,
{
    if from < 0 || from >= text.len() {
        text.len() as int
    } else if padding(text[from]) {
        past_padding(text, padding, from + 1)
    } else {
        from
    }
}

/// The end of the text without the padding before `end`.
pub open spec fn before_padding(text: Seq<char>, padding: spec_fn(char) -> bool, end: int) -> int
    decreases end,
{
    if end <= 0 || end > text.len() {
        0
    } else if padding(text[end - 1]) {
        before_padding(text, padding, end - 1)
    } else {
        end
    }
}

/// A text without the padding at its ends.
pub open spec fn stripped(text: Seq<char>, padding: spec_fn(char) -> bool) -> Seq<char> {
    let start = past_padding(text, padding, 0);
    let end = before_padding(text, padding, text.len() as int);
    if start >= end {
        Seq::empty()
    } else {
        text.subrange(start, end)
    }
}

/// White space as padding.
pub open spec fn white_padding() -> spec_fn(char) -> bool {
    |character: char| crate::strings::white_space(character)
}

/// What fills a profile's name field as padding.
pub open spec fn field_padding() -> spec_fn(char) -> bool {
    |character: char|
        character == '\0' || character == ' ' || character == '\t' || character == '\r' || character
            == '\n'
}

/// A text without white space at its ends.
pub open spec fn trimmed(text: Seq<char>) -> Seq<char> {
    stripped(text, white_padding())
}

/// The characters without white space at the ends.
pub fn trim(characters: &[char]) -> (text: String)
    ensures
        text@ == trimmed(characters@),
{
    let ghost padding = white_padding();
    let mut start: usize = 0;
    while start < characters.len() && is_white_space(characters[start])
        invariant
            padding == white_padding(),
            start <= characters.len(),
            past_padding(characters@, padding, 0) == past_padding(
                characters@,
                padding,
                start as int,
            ),
        decreases characters.len() - start,
    {
        start += 1;
    }
    let mut end: usize = characters.len();
    while end > 0 && is_white_space(characters[end - 1])
        invariant
            padding == white_padding(),
            end <= characters.len(),
            before_padding(characters@, padding, characters@.len() as int) == before_padding(
                characters@,
                padding,
                end as int,
            ),
        decreases end,
    {
        end -= 1;
    }
    if start >= end {
        let text = String::new();
        assert(text@ =~= Seq::empty());
        return text;
    }
    text_of(vstd::slice::slice_subrange(characters, start, end))
}

fn is_field_padding(character: char) -> (found: bool)
    ensures
        found == field_padding()(character),
{
    character == '\0' || character == ' ' || character == '\t' || character == '\r' || character
        == '\n'
}

/// The characters without what fills a profile's name field at the ends.
pub fn trim_field(characters: &[char]) -> (text: String)
    ensures
        text@ == stripped(characters@, field_padding()),
{
    let ghost padding = field_padding();
    let mut start: usize = 0;
    while start < characters.len() && is_field_padding(characters[start])
        invariant
            padding == field_padding(),
            start <= characters.len(),
            past_padding(characters@, padding, 0) == past_padding(
                characters@,
                padding,
                start as int,
            ),
        decreases characters.len() - start,
    {
        start += 1;
    }
    let mut end: usize = characters.len();
    while end > 0 && is_field_padding(characters[end - 1])
        invariant
            padding == field_padding(),
            end <= characters.len(),
            before_padding(characters@, padding, characters@.len() as int) == before_padding(
                characters@,
                padding,
                end as int,
            ),
        decreases end,
    {
        end -= 1;
    }
    if start >= end {
        let text = String::new();
        assert(text@ =~= Seq::empty());
        return text;
    }
    text_of(vstd::slice::slice_subrange(characters, start, end))
}

} // verus!
