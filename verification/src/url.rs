//! The pieces of a URL the viewer reads.

use vstd::prelude::*;

use crate::path::{extension_of, last_position_of};
use crate::strings::{characters_of, text_of};
use crate::text::lower_character;

verus! {

/// Where the query or the fragment starts, the length where there is neither.
pub open spec fn resource_end(url: Seq<char>, from: int) -> int
    decreases url.len() - from,
{
    if from >= url.len() || url[from] == '?' || url[from] == '#' {
        from
    } else {
        resource_end(url, from + 1)
    }
}

/// The last segment of a URL, without query and fragment.
pub open spec fn url_name(url: Seq<char>) -> Seq<char> {
    let end = resource_end(url, 0);
    url.subrange(crate::path::last_position(url, '/', end) + 1, end)
}

/// Whether a text starts with these characters, whatever their ASCII case.
pub open spec fn starts_ignoring_case(text: Seq<char>, lower_prefix: Seq<char>) -> bool {
    text.len() >= lower_prefix.len() && crate::text::lowered(text).take(lower_prefix.len() as int)
        == lower_prefix
}

/// The protocols a remote image may come over.
pub open spec fn supported_protocol(url: Seq<char>) -> bool {
    starts_ignoring_case(url, "http://"@) || starts_ignoring_case(url, "https://"@)
}

/// The last segment of a URL, without query and fragment.
pub fn file_name(url: &str) -> (name: String)
    ensures
        name@ == url_name(url@),
{
    let characters = characters_of(url);
    let mut end: usize = 0;
    while end < characters.len() && characters[end] != '?' && characters[end] != '#'
        invariant
            characters@ == url@,
            end <= characters.len(),
            resource_end(url@, 0) == resource_end(url@, end as int),
        decreases characters.len() - end,
    {
        end += 1;
    }
    let start: usize = match last_position_of(&characters, '/', end) {
        Some(slash) => slash + 1,
        None => 0,
    };
    text_of(vstd::slice::slice_subrange(&characters, start, end))
}

/// The extension of the last segment, in ASCII lower case.
pub fn extension_lowercase(url: &str) -> (found: Option<String>)
    ensures
        match found {
            Some(text) => crate::path::extension_of_name(url_name(url@)) == Some(text@),
            None => crate::path::extension_of_name(url_name(url@)) is None,
        },
{
    extension_of(&file_name(url))
}

fn starts_with_ignoring_case(text: &str, lower_prefix: &str) -> (starts: bool)
    ensures
        starts == starts_ignoring_case(text@, lower_prefix@),
{
    let characters = characters_of(text);
    let prefix = characters_of(lower_prefix);
    if characters.len() < prefix.len() {
        return false;
    }
    let ghost head = crate::text::lowered(text@).take(prefix@.len() as int);
    let mut index: usize = 0;
    while index < prefix.len()
        invariant
            characters@ == text@,
            prefix@ == lower_prefix@,
            prefix.len() <= characters.len(),
            index <= prefix.len(),
            head == crate::text::lowered(text@).take(prefix@.len() as int),
            forall|earlier: int| 0 <= earlier < index ==> head[earlier] == prefix@[earlier],
        decreases prefix.len() - index,
    {
        if lower_character(characters[index]) != prefix[index] {
            assert(head[index as int] != prefix@[index as int]);
            return false;
        }
        index += 1;
    }
    assert(head =~= prefix@);
    true
}

/// Whether the viewer downloads from this URL.
pub fn is_supported_protocol(url: &str) -> (supported: bool)
    ensures
        supported == supported_protocol(url@),
{
    starts_with_ignoring_case(url, "http://") || starts_with_ignoring_case(url, "https://")
}

} // verus!
