//! The identity of a viewable item.

use vstd::prelude::*;

use crate::path::{runs_of, FilePath};
use crate::strings::{characters_of, text_of};
use crate::text::lower_wide;

verus! {

/// What an item location stands for.
pub enum Place {
    File(Seq<u16>),
    ArchiveMember { archive: Seq<u16>, member: Seq<char> },
    Url(Seq<char>),
}

impl Place {
    /// The place with everything folded that does not tell items apart: two locations name the
    /// same item when their identities are equal.
    pub open spec fn identity(self) -> Place {
        match self {
            Place::File(path) => Place::File(crate::text::folded(path)),
            Place::ArchiveMember { archive, member } => Place::ArchiveMember {
                archive: crate::text::folded(archive),
                member,
            },
            Place::Url(url) => Place::Url(url),
        }
    }

    /// The extension in ASCII lower case.
    pub open spec fn extension(self) -> Option<Seq<char>> {
        match self {
            Place::File(path) => crate::path::extension(path),
            Place::ArchiveMember { archive, member } => crate::path::extension(
                crate::text::wide(member),
            ),
            Place::Url(url) => crate::path::extension_of_name(crate::url::url_name(url)),
        }
    }

    /// The leaf name titles and messages show.
    pub open spec fn name(self) -> Seq<char> {
        match self {
            Place::File(path) => match crate::path::file_name(path) {
                Some(name) => crate::text::displayed(name),
                None => crate::text::displayed(path),
            },
            Place::ArchiveMember { archive, member } => base_name(member),
            Place::Url(url) => crate::url::url_name(url),
        }
    }

    /// The whole location as text.
    pub open spec fn text(self) -> Seq<char> {
        match self {
            Place::File(path) => crate::text::displayed(path),
            Place::ArchiveMember { archive, member } => crate::text::displayed(archive) + seq![
                ' ',
                '\u{203A}',
                ' ',
            ] + member,
            Place::Url(url) => url,
        }
    }

    /// The folder a title shows before the name: a member's folder inside its archive, the archive
    /// itself for a member at the top.
    pub open spec fn folder(self) -> Option<Seq<char>> {
        match self {
            Place::File(path) => match crate::path::folder_of(path) {
                Some(name) => Some(crate::text::displayed(name)),
                None => None,
            },
            Place::ArchiveMember { archive, member } => {
                let segments = crate::path::runs(member_separators(member), 0);
                if segments.len() >= 2 {
                    Some(crate::path::piece(member, segments[segments.len() - 2]))
                } else {
                    match crate::path::file_name(archive) {
                        Some(name) => Some(crate::text::displayed(name)),
                        None => None,
                    }
                }
            },
            Place::Url(_) => None,
        }
    }

    /// The file that carries the item on disk.
    pub open spec fn carrier(self) -> Option<Seq<u16>> {
        match self {
            Place::File(path) => Some(path),
            Place::ArchiveMember { archive, member } => Some(archive),
            Place::Url(_) => None,
        }
    }

    /// What identity feeds a hasher: a tag, then each field behind a terminator no field holds.
    pub open spec fn hash_key(self) -> Seq<u32> {
        match self {
            Place::File(path) => seq![0u32] + unit_codes(path) + seq![u32::MAX],
            Place::ArchiveMember { archive, member } => seq![1u32] + unit_codes(archive)
                + seq![u32::MAX] + character_codes(member) + seq![u32::MAX],
            Place::Url(url) => seq![2u32] + character_codes(url) + seq![u32::MAX],
        }
    }
}

pub open spec fn unit_codes(units: Seq<u16>) -> Seq<u32> {
    units.map_values(|unit: u16| unit as u32)
}

pub open spec fn character_codes(text: Seq<char>) -> Seq<u32> {
    text.map_values(|character: char| character as u32)
}

/// Where the separators inside a member name stand.
pub open spec fn member_separators(member: Seq<char>) -> Seq<bool> {
    member.map_values(|character: char| character == '/' || character == '\\')
}

/// The last marked position below `end`, -1 where none is marked.
pub open spec fn last_mark(marks: Seq<bool>, end: int) -> int
    decreases end,
{
    if end <= 0 {
        -1
    } else if marks[end - 1] {
        end - 1
    } else {
        last_mark(marks, end - 1)
    }
}

/// What follows the last separator of a member name.
pub open spec fn base_name(member: Seq<char>) -> Seq<char> {
    member.skip(last_mark(member_separators(member), member.len() as int) + 1)
}

/// A viewable item: paths compare without ASCII case, member names and URLs exactly.
pub enum ItemLocation {
    File(FilePath),
    ArchiveMember { archive: FilePath, member: String },
    Url(String),
}

impl View for ItemLocation {
    type V = Place;

    open spec fn view(&self) -> Place {
        match self {
            ItemLocation::File(path) => Place::File(path@),
            ItemLocation::ArchiveMember { archive, member } => Place::ArchiveMember {
                archive: archive@,
                member: member@,
            },
            ItemLocation::Url(url) => Place::Url(url@),
        }
    }
}

impl Clone for ItemLocation {
    fn clone(&self) -> (copy: Self)
        ensures
            copy@ == self@,
    {
        match self {
            ItemLocation::File(path) => ItemLocation::File(path.clone()),
            ItemLocation::ArchiveMember { archive, member } => ItemLocation::ArchiveMember {
                archive: archive.clone(),
                member: member.clone(),
            },
            ItemLocation::Url(url) => ItemLocation::Url(url.clone()),
        }
    }
}

impl PartialEq for ItemLocation {
    fn eq(&self, other: &Self) -> (equal: bool) {
        self.same_item(other)
    }
}

impl vstd::std_specs::cmp::PartialEqSpecImpl for ItemLocation {
    open spec fn obeys_eq_spec() -> bool {
        true
    }

    open spec fn eq_spec(&self, other: &Self) -> bool {
        self@.identity() == other@.identity()
    }
}

impl Eq for ItemLocation {

}

impl std::hash::Hash for ItemLocation {
    fn hash<H: std::hash::Hasher>(&self, state: &mut H) {
        let key = self.identity_key();
        feed(&key, state);
    }
}

/// `Vec::hash`: feeds the key to the hasher; nothing is claimed of the hasher's state.
#[verifier::external_body]
fn feed<H: std::hash::Hasher>(key: &Vec<u32>, state: &mut H) {
    std::hash::Hash::hash(key, state)
}

/// Which characters of a member name separate folders.
fn member_separators_of(member: &[char]) -> (marks: Vec<bool>)
    ensures
        marks@ == member_separators(member@),
{
    let mut marks: Vec<bool> = Vec::new();
    let mut index: usize = 0;
    while index < member.len()
        invariant
            index <= member.len(),
            marks@ == member_separators(member@).take(index as int),
        decreases member.len() - index,
    {
        marks.push(member[index] == '/' || member[index] == '\\');
        index += 1;
        assert(marks@ =~= member_separators(member@).take(index as int));
    }
    assert(member_separators(member@).take(member@.len() as int) =~= member_separators(member@));
    marks
}

/// What follows the last separator of a member name.
fn base_name_of(member: &str) -> (name: String)
    ensures
        name@ == base_name(member@),
{
    let characters = characters_of(member);
    let mut start: usize = characters.len();
    while start > 0 && characters[start - 1] != '/' && characters[start - 1] != '\\'
        invariant
            characters@ == member@,
            start <= characters.len(),
            last_mark(member_separators(member@), member@.len() as int) == last_mark(
                member_separators(member@),
                start as int,
            ),
        decreases start,
    {
        start -= 1;
    }
    let name = text_of(vstd::slice::slice_subrange(&characters, start, characters.len()));
    assert(name@ =~= member@.skip(start as int));
    name
}

/// The text with the codes of another text and a terminator behind it.
fn push_characters(key: &mut Vec<u32>, text: &str)
    ensures
        final(key)@ == old(key)@ + character_codes(text@) + seq![u32::MAX],
{
    let characters = characters_of(text);
    let mut index: usize = 0;
    while index < characters.len()
        invariant
            characters@ == text@,
            index <= characters.len(),
            key@ == old(key)@ + character_codes(text@).take(index as int),
        decreases characters.len() - index,
    {
        key.push(characters[index] as u32);
        index += 1;
        assert(key@ =~= old(key)@ + character_codes(text@).take(index as int));
    }
    key.push(u32::MAX);
    assert(key@ =~= old(key)@ + character_codes(text@) + seq![u32::MAX]);
}

/// The key with the folded units of a path and a terminator behind it.
fn push_path_identity(key: &mut Vec<u32>, path: &FilePath)
    ensures
        final(key)@ == old(key)@ + unit_codes(crate::text::folded(path@)) + seq![u32::MAX],
{
    let ghost codes = unit_codes(crate::text::folded(path@));
    let mut index: usize = 0;
    while index < path.units.len()
        invariant
            codes == unit_codes(crate::text::folded(path@)),
            index <= path.units.len(),
            key@ == old(key)@ + codes.take(index as int),
        decreases path.units.len() - index,
    {
        key.push(lower_wide(path.units[index]) as u32);
        index += 1;
        assert(key@ =~= old(key)@ + codes.take(index as int));
    }
    key.push(u32::MAX);
    assert(key@ =~= old(key)@ + codes + seq![u32::MAX]);
}

impl ItemLocation {
    /// Whether both locations name the same item.
    pub fn same_item(&self, other: &ItemLocation) -> (same: bool)
        ensures
            same == (self@.identity() == other@.identity()),
    {
        match (self, other) {
            (ItemLocation::File(first), ItemLocation::File(second)) => first.same_path(second),
            (
                ItemLocation::ArchiveMember { archive: first, member: first_member },
                ItemLocation::ArchiveMember { archive: second, member: second_member },
            ) => first.same_path(second) && *first_member == *second_member,
            (ItemLocation::Url(first), ItemLocation::Url(second)) => *first == *second,
            _ => false,
        }
    }

    /// What identity feeds a hasher.
    pub fn identity_key(&self) -> (key: Vec<u32>)
        ensures
            key@ == self@.identity().hash_key(),
    {
        let mut key: Vec<u32> = Vec::new();
        match self {
            ItemLocation::File(path) => {
                key.push(0);
                push_path_identity(&mut key, path);
            },
            ItemLocation::ArchiveMember { archive, member } => {
                key.push(1);
                push_path_identity(&mut key, archive);
                push_characters(&mut key, member);
            },
            ItemLocation::Url(url) => {
                key.push(2);
                push_characters(&mut key, url);
            },
        }
        assert(key@ =~= self@.identity().hash_key());
        key
    }

    /// Leaf name for titles and messages (member basename inside archives).
    pub fn display_name(&self) -> (name: String)
        ensures
            name@ == self@.name(),
    {
        match self {
            ItemLocation::File(path) => match path.file_name() {
                Some(name) => name,
                None => path.display(),
            },
            ItemLocation::ArchiveMember { archive: _, member } => base_name_of(member),
            ItemLocation::Url(url) => crate::url::file_name(url),
        }
    }

    /// Full user-facing location text, the archive before the member.
    pub fn display_text(&self) -> (text: String)
        ensures
            text@ == self@.text(),
    {
        match self {
            ItemLocation::File(path) => path.display(),
            ItemLocation::ArchiveMember { archive, member } => {
                let mut text = archive.display();
                text.push(' ');
                text.push('\u{203A}');
                text.push(' ');
                text.append(member.as_str());
                assert(text@ =~= self@.text());
                text
            },
            ItemLocation::Url(url) => url.clone(),
        }
    }

    /// Parent folder leaf for titles (a member's folder inside its archive).
    pub fn folder_name(&self) -> (name: Option<String>)
        ensures
            match name {
                Some(found) => self@.folder() == Some(found@),
                None => self@.folder() is None,
            },
    {
        match self {
            ItemLocation::File(path) => path.parent_name(),
            ItemLocation::ArchiveMember { archive, member } => {
                let characters = characters_of(member);
                let marks = member_separators_of(&characters);
                let segments = runs_of(&marks, 0);
                if segments.len() >= 2 {
                    let run = segments[segments.len() - 2];
                    Some(text_of(vstd::slice::slice_subrange(&characters, run.0, run.1)))
                } else {
                    archive.file_name()
                }
            },
            ItemLocation::Url(_) => None,
        }
    }

    /// The file that carries this item on disk (the archive for members).
    pub fn containing_file(&self) -> (file: Option<&FilePath>)
        ensures
            match file {
                Some(path) => self@.carrier() == Some(path@),
                None => self@.carrier() is None,
            },
    {
        match self {
            ItemLocation::File(path) => Some(path),
            ItemLocation::ArchiveMember { archive, member: _ } => Some(archive),
            ItemLocation::Url(_) => None,
        }
    }

    /// Some only for plain files; members cannot take file operations.
    pub fn as_file(&self) -> (file: Option<&FilePath>)
        ensures
            match file {
                Some(path) => self@ == Place::File(path@),
                None => self@ !is File,
            },
    {
        match self {
            ItemLocation::File(path) => Some(path),
            ItemLocation::ArchiveMember { archive: _, member: _ } => None,
            ItemLocation::Url(_) => None,
        }
    }

    /// The extension in ASCII lower case.
    pub fn extension_lowercase(&self) -> (found: Option<String>)
        ensures
            match found {
                Some(text) => self@.extension() == Some(text@),
                None => self@.extension() is None,
            },
    {
        match self {
            ItemLocation::File(path) => path.extension_lowercase(),
            ItemLocation::ArchiveMember { archive: _, member } => FilePath::from_text(
                member,
            ).extension_lowercase(),
            ItemLocation::Url(url) => crate::url::extension_lowercase(url),
        }
    }
}

proof fn lemma_terminated_fields_match(
    first: Seq<u32>,
    first_rest: Seq<u32>,
    second: Seq<u32>,
    second_rest: Seq<u32>,
)
    requires
        first + seq![u32::MAX] + first_rest == second + seq![u32::MAX] + second_rest,
        !first.contains(u32::MAX),
        !second.contains(u32::MAX),
    ensures
        first == second,
        first_rest == second_rest,
{
    let whole = first + seq![u32::MAX] + first_rest;
    let other = second + seq![u32::MAX] + second_rest;
    assert(whole[first.len() as int] == u32::MAX);
    assert(other[second.len() as int] == u32::MAX);
    if first.len() < second.len() {
        assert(other[first.len() as int] == second[first.len() as int]);
        assert(second.contains(u32::MAX));
    }
    if second.len() < first.len() {
        assert(whole[second.len() as int] == first[second.len() as int]);
        assert(first.contains(u32::MAX));
    }
    assert forall|index: int| 0 <= index < first.len() implies first[index] == second[index] by {
        assert(whole[index] == first[index]);
        assert(other[index] == second[index]);
    }
    assert(first =~= second);
    assert(first_rest =~= whole.skip(first.len() as int + 1));
    assert(second_rest =~= other.skip(second.len() as int + 1));
}

proof fn lemma_unit_codes_injective(first: Seq<u16>, second: Seq<u16>)
    ensures
        unit_codes(first) == unit_codes(second) ==> first == second,
        !unit_codes(first).contains(u32::MAX),
{
    if unit_codes(first) == unit_codes(second) {
        assert forall|index: int| 0 <= index < first.len() implies first[index]
            == second[index] by {
            assert(unit_codes(first)[index] == unit_codes(second)[index]);
        }
        assert(unit_codes(first).len() == unit_codes(second).len());
        assert(first =~= second);
    }
}

proof fn lemma_character_code(character: char)
    ensures
        character as u32 != u32::MAX,
        (character as u32) as char == character,
{
}

proof fn lemma_character_codes_injective(first: Seq<char>, second: Seq<char>)
    ensures
        character_codes(first) == character_codes(second) ==> first == second,
        !character_codes(first).contains(u32::MAX),
{
    assert forall|index: int| 0 <= index < first.len() implies character_codes(first)[index]
        != u32::MAX by {
        lemma_character_code(first[index]);
    }
    if character_codes(first) == character_codes(second) {
        assert(character_codes(first).len() == character_codes(second).len());
        assert forall|index: int| 0 <= index < first.len() implies first[index]
            == second[index] by {
            assert(character_codes(first)[index] == character_codes(second)[index]);
            lemma_character_code(first[index]);
            lemma_character_code(second[index]);
        }
        assert(first =~= second);
    }
}

/// Hashing stays in step with equality: locations hash from the same key exactly when they name
/// the same item.
pub proof fn lemma_hash_key_tells_items_apart(first: Place, second: Place)
    ensures
        first.identity().hash_key() == second.identity().hash_key() <==> first.identity()
            == second.identity(),
{
    let one = first.identity();
    let two = second.identity();
    if one.hash_key() == two.hash_key() {
        assert(one.hash_key()[0] == two.hash_key()[0]);
        match (one, two) {
            (Place::File(a), Place::File(b)) => {
                lemma_unit_codes_injective(a, b);
                lemma_unit_codes_injective(b, a);
                assert(one.hash_key().skip(1) =~= unit_codes(a) + seq![u32::MAX] + Seq::empty());
                assert(two.hash_key().skip(1) =~= unit_codes(b) + seq![u32::MAX] + Seq::empty());
                lemma_terminated_fields_match(
                    unit_codes(a),
                    Seq::empty(),
                    unit_codes(b),
                    Seq::empty(),
                );
            },
            (
                Place::ArchiveMember { archive: a, member: m },
                Place::ArchiveMember { archive: b, member: n },
            ) => {
                lemma_unit_codes_injective(a, b);
                lemma_unit_codes_injective(b, a);
                lemma_character_codes_injective(m, n);
                lemma_character_codes_injective(n, m);
                let m_rest = character_codes(m) + seq![u32::MAX] + Seq::empty();
                let n_rest = character_codes(n) + seq![u32::MAX] + Seq::empty();
                assert(one.hash_key().skip(1) =~= unit_codes(a) + seq![u32::MAX] + m_rest);
                assert(two.hash_key().skip(1) =~= unit_codes(b) + seq![u32::MAX] + n_rest);
                lemma_terminated_fields_match(unit_codes(a), m_rest, unit_codes(b), n_rest);
                lemma_terminated_fields_match(
                    character_codes(m),
                    Seq::empty(),
                    character_codes(n),
                    Seq::empty(),
                );
            },
            (Place::Url(a), Place::Url(b)) => {
                lemma_character_codes_injective(a, b);
                lemma_character_codes_injective(b, a);
                assert(one.hash_key().skip(1) =~= character_codes(a) + seq![u32::MAX]
                    + Seq::empty());
                assert(two.hash_key().skip(1) =~= character_codes(b) + seq![u32::MAX]
                    + Seq::empty());
                lemma_terminated_fields_match(
                    character_codes(a),
                    Seq::empty(),
                    character_codes(b),
                    Seq::empty(),
                );
            },
            _ => {},
        }
    }
}

} // verus!
