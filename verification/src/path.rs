//! File paths as the file system stores them: UTF-16 units that need not pair up.

use vstd::prelude::*;

use crate::strings::characters_of;
use crate::text::{display_of, equal_ignoring_case, lower_character, wide_of};

verus! {

/// The end of the unmarked run that starts at `from`.
pub open spec fn run_end(marks: Seq<bool>, from: int) -> int
    decreases marks.len() - from,
{
    if from >= marks.len() || marks[from] {
        from
    } else {
        run_end(marks, from + 1)
    }
}

/// A run stays inside the sequence, and one that starts unmarked is not empty.
pub proof fn lemma_run_end_bounds(marks: Seq<bool>, from: int)
    requires
        0 <= from <= marks.len(),
    ensures
        from <= run_end(marks, from) <= marks.len(),
        from < marks.len() && !marks[from] ==> from < run_end(marks, from),
    decreases marks.len() - from,
{
    if from < marks.len() && !marks[from] {
        lemma_run_end_bounds(marks, from + 1);
    }
}

/// Every unmarked run from `from` on, as start and end.
pub open spec fn runs(marks: Seq<bool>, from: int) -> Seq<(usize, usize)>
    decreases marks.len() - from,
{
    if from < 0 || from >= marks.len() {
        Seq::empty()
    } else if marks[from] {
        runs(marks, from + 1)
    } else {
        proof {
            lemma_run_end_bounds(marks, from);
        }
        let end = run_end(marks, from);
        seq![(from as usize, end as usize)] + runs(marks, end)
    }
}

/// The runs lie inside the marked sequence, and none is empty.
pub proof fn lemma_runs_in_bounds(marks: Seq<bool>, from: int)
    requires
        marks.len() <= usize::MAX,
    ensures
        forall|index: int|
            0 <= index < runs(marks, from).len() ==> (#[trigger] runs(marks, from)[index]).0
                < runs(marks, from)[index].1 <= marks.len(),
    decreases marks.len() - from,
{
    if 0 <= from < marks.len() {
        if marks[from] {
            lemma_runs_in_bounds(marks, from + 1);
            assert(runs(marks, from) == runs(marks, from + 1));
        } else {
            lemma_run_end_bounds(marks, from);
            let end = run_end(marks, from);
            lemma_runs_in_bounds(marks, end);
            let rest = runs(marks, end);
            assert forall|index: int| 0 <= index < runs(marks, from).len() implies (
            #[trigger] runs(marks, from)[index]).0 < runs(marks, from)[index].1 <= marks.len() by {
                if index > 0 {
                    assert(runs(marks, from)[index] == rest[index - 1]);
                }
            }
        }
    }
}

/// Every unmarked run from `from` on.
pub fn runs_of(marks: &[bool], from: usize) -> (found: Vec<(usize, usize)>)
    requires
        from <= marks.len(),
    ensures
        found@ == runs(marks@, from as int),
        forall|index: int|
            0 <= index < found.len() ==> (#[trigger] found@[index]).0 < found@[index].1
                <= marks.len(),
{
    let mut found: Vec<(usize, usize)> = Vec::new();
    let mut at: usize = from;
    proof {
        lemma_runs_in_bounds(marks@, from as int);
    }
    while at < marks.len()
        invariant
            at <= marks.len(),
            found@ + runs(marks@, at as int) == runs(marks@, from as int),
        decreases marks.len() - at,
    {
        if marks[at] {
            at += 1;
        } else {
            let ghost before = found@;
            let mut end: usize = at;
            while end < marks.len() && !marks[end]
                invariant
                    at <= end <= marks.len(),
                    run_end(marks@, at as int) == run_end(marks@, end as int),
                decreases marks.len() - end,
            {
                end += 1;
            }
            found.push((at, end));
            proof {
                lemma_run_end_bounds(marks@, at as int);
                assert(runs(marks@, at as int) == seq![(at, end)] + runs(marks@, end as int));
                assert(before + (seq![(at, end)] + runs(marks@, end as int)) =~= found@ + runs(
                    marks@,
                    end as int,
                ));
            }
            at = end;
        }
    }
    assert(found@ + runs(marks@, at as int) =~= found@);
    found
}

pub open spec fn is_separator(unit: u16) -> bool {
    unit == 0x2F || unit == 0x5C
}

/// A path is verbatim: it begins with `\\?\`, written with backslashes. Nothing behind that is
/// normalized.
pub open spec fn is_verbatim(units: Seq<u16>) -> bool {
    units.len() >= 4 && units[0] == 0x5C && units[1] == 0x5C && units[2] == 0x3F && units[3] == 0x5C
}

/// Where the separators of a path stand; a verbatim one is separated by backslashes alone.
pub open spec fn separators(units: Seq<u16>) -> Seq<bool> {
    units.map_values(
        |unit: u16|
            if is_verbatim(units) {
                unit == 0x5C
            } else {
                is_separator(unit)
            },
    )
}

/// The units of one run.
pub open spec fn piece<T>(text: Seq<T>, run: (usize, usize)) -> Seq<T> {
    text.subrange(run.0 as int, run.1 as int)
}

/// A drive stands here: a letter and a colon.
pub open spec fn is_drive(units: Seq<u16>, at: int) -> bool {
    at + 2 <= units.len() && (0x41 <= units[at] <= 0x5A || 0x61 <= units[at] <= 0x7A) && units[at + 1]
        == 0x3A
}

/// A verbatim path goes on as a share does: `UNC\`.
pub open spec fn is_verbatim_share(units: Seq<u16>) -> bool {
    units.len() >= 8 && units[4] == 0x55 && units[5] == 0x4E && units[6] == 0x43 && units[7] == 0x5C
}

/// The end of the name behind one that ends at `end`, none where nothing is named there.
pub open spec fn next_name_end(marks: Seq<bool>, end: int) -> Option<int> {
    if end < marks.len() && run_end(marks, end + 1) > end + 1 {
        Some(run_end(marks, end + 1))
    } else {
        None
    }
}

/// Where the prefix ends: a drive (`C:`), a share (`\\server\share`), a device (`\\.\name`), or a verbatim
/// form of one of them or of any name.
pub open spec fn prefix_end(units: Seq<u16>) -> int {
    let marks = separators(units);
    if is_verbatim(units) {
        if is_verbatim_share(units) {
            let server = run_end(marks, 8);
            match next_name_end(marks, server) {
                Some(share) => share,
                None => server,
            }
        } else if is_drive(units, 4) && (units.len() == 6 || is_separator(units[6])) {
            6
        } else {
            run_end(marks, 4)
        }
    } else if units.len() >= 2 && is_separator(units[0]) && is_separator(units[1]) {
        if units.len() >= 4 && units[2] == 0x2E && is_separator(units[3]) {
            run_end(marks, 4)
        } else {
            let server = run_end(marks, 2);
            match next_name_end(marks, server) {
                Some(share) => if server > 2 {
                    share
                } else {
                    0
                },
                None => 0,
            }
        }
    } else if is_drive(units, 0) {
        2
    } else {
        0
    }
}

/// Where the root ends: behind the prefix, and behind a separator there.
pub open spec fn root_end(units: Seq<u16>) -> int {
    let prefix = prefix_end(units);
    if prefix < units.len() && is_separator(units[prefix]) {
        prefix + 1
    } else {
        prefix
    }
}

/// Where the components start: behind the root, and behind a `.` that stands in its place.
pub open spec fn body_start(units: Seq<u16>) -> int {
    let root = root_end(units);
    if root == prefix_end(units) && root < units.len() && units[root] == 0x2E && (root + 1
        == units.len() || is_separator(units[root + 1])) {
        root + 1
    } else {
        root
    }
}

/// The runs that are components: `.` is none, unless it starts the path or the path is verbatim.
pub open spec fn naming_runs(units: Seq<u16>, found: Seq<(usize, usize)>) -> Seq<(usize, usize)>
    decreases found.len(),
{
    if found.len() == 0 {
        Seq::empty()
    } else if piece(units, found.last()) == seq![0x2Eu16] && found.last().0 > 0 && !is_verbatim(
        units,
    ) {
        naming_runs(units, found.drop_last())
    } else {
        naming_runs(units, found.drop_last()).push(found.last())
    }
}

/// The components of a path behind its prefix and root.
pub open spec fn components(units: Seq<u16>) -> Seq<(usize, usize)> {
    naming_runs(units, runs(separators(units), root_end(units)))
}

/// The component at this position, unless it is missing, stays (`.`) or leads upward (`..`).
pub open spec fn normal_component(units: Seq<u16>, position: int) -> Option<Seq<u16>> {
    let found = components(units);
    if 0 <= position < found.len() && piece(units, found[position]) != seq![0x2Eu16] && piece(
        units,
        found[position],
    ) != seq![0x2Eu16, 0x2E] {
        Some(piece(units, found[position]))
    } else {
        None
    }
}

/// The last component of a path.
pub open spec fn file_name(units: Seq<u16>) -> Option<Seq<u16>> {
    normal_component(units, components(units).len() - 1)
}

/// The last component of the folder that holds a path.
pub open spec fn folder_of(units: Seq<u16>) -> Option<Seq<u16>> {
    normal_component(units, components(units).len() - 2)
}

/// The folder that holds a path; none for a bare prefix or root.
pub open spec fn parent(units: Seq<u16>) -> Option<Seq<u16>> {
    let found = components(units);
    if found.len() == 0 {
        None
    } else if found.len() >= 2 {
        Some(units.take(found[found.len() - 2].1 as int))
    } else if found[0].0 == 0 {
        Some(Seq::empty())
    } else {
        Some(units.take(body_start(units)))
    }
}

/// The last position below `end` that holds the character, -1 where none does.
pub open spec fn last_position(text: Seq<char>, character: char, end: int) -> int
    decreases end,
{
    if end <= 0 {
        -1
    } else if text[end - 1] == character {
        end - 1
    } else {
        last_position(text, character, end - 1)
    }
}

/// The extension of a file name in ASCII lower case: what follows the last dot, unless that dot
/// leads the name.
pub open spec fn extension_of_name(name: Seq<char>) -> Option<Seq<char>> {
    let dot = last_position(name, '.', name.len() as int);
    if dot <= 0 {
        None
    } else {
        Some(crate::text::lowered(name.skip(dot + 1)))
    }
}

/// The extension of a path in ASCII lower case.
pub open spec fn extension(units: Seq<u16>) -> Option<Seq<char>> {
    match file_name(units) {
        Some(name) => extension_of_name(crate::text::displayed(name)),
        None => None,
    }
}

/// Where a text holds the character last.
pub fn last_position_of(text: &[char], character: char, end: usize) -> (position: Option<usize>)
    requires
        end <= text.len(),
    ensures
        match position {
            Some(found) => found == last_position(text@, character, end as int) && found < end,
            None => last_position(text@, character, end as int) == -1,
        },
{
    let mut at: usize = end;
    while at > 0
        invariant
            at <= end <= text.len(),
            last_position(text@, character, end as int) == last_position(
                text@,
                character,
                at as int,
            ),
        decreases at,
    {
        if text[at - 1] == character {
            return Some(at - 1);
        }
        at -= 1;
    }
    None
}

/// The extension of a file name in ASCII lower case.
pub fn extension_of(name: &str) -> (found: Option<String>)
    ensures
        match found {
            Some(text) => extension_of_name(name@) == Some(text@),
            None => extension_of_name(name@) is None,
        },
{
    let characters = characters_of(name);
    match last_position_of(&characters, '.', characters.len()) {
        None => None,
        Some(dot) => {
            if dot == 0 {
                return None;
            }
            let mut text = String::new();
            let mut index: usize = dot + 1;
            let ghost lower = crate::text::lowered(name@.skip(dot + 1));
            while index < characters.len()
                invariant
                    characters@ == name@,
                    dot < index <= characters.len(),
                    lower == crate::text::lowered(name@.skip(dot + 1)),
                    text@ == lower.take(index - dot - 1),
                decreases characters.len() - index,
            {
                text.push(lower_character(characters[index]));
                index += 1;
                assert(text@ =~= lower.take(index - dot - 1));
            }
            assert(lower.take(lower.len() as int) =~= lower);
            Some(text)
        },
    }
}

/// A path to a file or a folder. Two paths name the same place when they differ in ASCII case
/// alone.
pub struct FilePath {
    pub units: Vec<u16>,
}

impl View for FilePath {
    type V = Seq<u16>;

    open spec fn view(&self) -> Seq<u16> {
        self.units@
    }
}

impl Clone for FilePath {
    fn clone(&self) -> (copy: Self)
        ensures
            copy@ == self@,
    {
        let units = self.units.clone();
        assert(units@ =~= self.units@);
        FilePath { units }
    }
}

fn separates(unit: u16) -> (separator: bool)
    ensures
        separator == is_separator(unit),
{
    unit == 0x2F || unit == 0x5C
}

fn verbatim(units: &[u16]) -> (found: bool)
    ensures
        found == is_verbatim(units@),
{
    units.len() >= 4 && units[0] == 0x5C && units[1] == 0x5C && units[2] == 0x3F && units[3] == 0x5C
}

fn separators_of(units: &[u16]) -> (marks: Vec<bool>)
    ensures
        marks@ == separators(units@),
{
    let backslash_alone: bool = verbatim(units);
    let mut marks: Vec<bool> = Vec::new();
    let mut index: usize = 0;
    while index < units.len()
        invariant
            backslash_alone == is_verbatim(units@),
            index <= units.len(),
            marks@ == separators(units@).take(index as int),
        decreases units.len() - index,
    {
        if backslash_alone {
            marks.push(units[index] == 0x5C);
        } else {
            marks.push(separates(units[index]));
        }
        index += 1;
        assert(marks@ =~= separators(units@).take(index as int));
    }
    assert(separators(units@).take(units@.len() as int) =~= separators(units@));
    marks
}

fn run_end_of(marks: &[bool], from: usize) -> (end: usize)
    requires
        from <= marks.len(),
    ensures
        end == run_end(marks@, from as int),
        from <= end <= marks.len(),
{
    let mut end: usize = from;
    while end < marks.len() && !marks[end]
        invariant
            from <= end <= marks.len(),
            run_end(marks@, from as int) == run_end(marks@, end as int),
        decreases marks.len() - end,
    {
        end += 1;
    }
    end
}

fn next_name_end_of(marks: &[bool], end: usize) -> (next: Option<usize>)
    requires
        end <= marks.len(),
    ensures
        match next {
            Some(found) => next_name_end(marks@, end as int) == Some(found as int) && found
                <= marks.len(),
            None => next_name_end(marks@, end as int) is None,
        },
{
    if end >= marks.len() {
        return None;
    }
    let next: usize = run_end_of(marks, end + 1);
    if next > end + 1 {
        Some(next)
    } else {
        None
    }
}

fn drive_at(units: &[u16], at: usize) -> (found: bool)
    requires
        at <= 4,
    ensures
        found == is_drive(units@, at as int),
{
    units.len() >= at + 2 && (0x41 <= units[at] && units[at] <= 0x5A || 0x61 <= units[at]
        && units[at] <= 0x7A) && units[at + 1] == 0x3A
}

/// Whether a run of units spells exactly these units.
fn spells(units: &[u16], run: (usize, usize), expected: &[u16]) -> (equal: bool)
    requires
        run.0 <= run.1 <= units.len(),
    ensures
        equal == (piece(units@, run) == expected@),
{
    if run.1 - run.0 != expected.len() {
        assert(piece(units@, run).len() != expected@.len());
        return false;
    }
    let mut index: usize = 0;
    while index < expected.len()
        invariant
            run.0 <= run.1 <= units.len(),
            run.1 - run.0 == expected.len(),
            index <= expected.len(),
            forall|earlier: int|
                0 <= earlier < index ==> units@[run.0 + earlier] == expected@[earlier],
        decreases expected.len() - index,
    {
        if units[run.0 + index] != expected[index] {
            assert(piece(units@, run)[index as int] != expected@[index as int]);
            return false;
        }
        index += 1;
    }
    assert(piece(units@, run) =~= expected@);
    true
}

fn prefix_end_of(units: &[u16], marks: &[bool]) -> (end: usize)
    requires
        marks@ == separators(units@),
    ensures
        end == prefix_end(units@),
        end <= units.len(),
{
    if verbatim(units) {
        let share: bool = units.len() >= 8 && units[4] == 0x55 && units[5] == 0x4E && units[6]
            == 0x43 && units[7] == 0x5C;
        if share {
            let server: usize = run_end_of(marks, 8);
            match next_name_end_of(marks, server) {
                Some(share) => share,
                None => server,
            }
        } else if drive_at(units, 4) && (units.len() == 6 || separates(units[6])) {
            6
        } else {
            run_end_of(marks, 4)
        }
    } else if units.len() >= 2 && separates(units[0]) && separates(units[1]) {
        if units.len() >= 4 && units[2] == 0x2E && separates(units[3]) {
            run_end_of(marks, 4)
        } else {
            let server: usize = run_end_of(marks, 2);
            match next_name_end_of(marks, server) {
                Some(share) => if server > 2 {
                    share
                } else {
                    0
                },
                None => 0,
            }
        }
    } else if drive_at(units, 0) {
        2
    } else {
        0
    }
}

fn root_end_of(units: &[u16], prefix: usize) -> (end: usize)
    requires
        prefix == prefix_end(units@),
        prefix <= units.len(),
    ensures
        end == root_end(units@),
        prefix <= end <= units.len(),
{
    if prefix < units.len() && separates(units[prefix]) {
        prefix + 1
    } else {
        prefix
    }
}

fn components_of(units: &[u16]) -> (found: Vec<(usize, usize)>)
    ensures
        found@ == components(units@),
        forall|index: int|
            0 <= index < found.len() ==> (#[trigger] found@[index]).0 < found@[index].1
                <= units.len(),
{
    let marks = separators_of(units);
    let prefix: usize = prefix_end_of(units, &marks);
    let candidates = runs_of(&marks, root_end_of(units, prefix));
    let kept: bool = verbatim(units);
    let dot: [u16; 1] = [0x2E];
    assert(dot@ =~= seq![0x2Eu16]);
    let mut found: Vec<(usize, usize)> = Vec::new();
    let mut index: usize = 0;
    while index < candidates.len()
        invariant
            index <= candidates.len(),
            kept == is_verbatim(units@),
            dot@ == seq![0x2Eu16],
            forall|position: int|
                0 <= position < candidates.len() ==> (#[trigger] candidates@[position]).0
                    < candidates@[position].1 <= units.len(),
            forall|position: int|
                0 <= position < found.len() ==> (#[trigger] found@[position]).0
                    < found@[position].1 <= units.len(),
            found@ == naming_runs(units@, candidates@.take(index as int)),
        decreases candidates.len() - index,
    {
        let named: bool = kept || candidates[index].0 == 0 || !spells(
            units,
            candidates[index],
            &dot,
        );
        if named {
            found.push(candidates[index]);
        }
        index += 1;
        assert(candidates@.take(index as int).drop_last() =~= candidates@.take(index - 1));
    }
    assert(candidates@.take(candidates@.len() as int) =~= candidates@);
    found
}

fn copy_units(units: &[u16], from: usize, to: usize) -> (copied: Vec<u16>)
    requires
        from <= to <= units.len(),
    ensures
        copied@ == units@.subrange(from as int, to as int),
{
    vstd::slice::slice_to_vec(vstd::slice::slice_subrange(units, from, to))
}

impl FilePath {
    /// The path a text spells.
    pub fn from_text(text: &str) -> (path: Self)
        ensures
            path@ == crate::text::wide(text@),
    {
        FilePath { units: wide_of(text) }
    }

    /// The path as text; an unpaired surrogate shows as the replacement character.
    pub fn display(&self) -> (text: String)
        ensures
            text@ == crate::text::displayed(self@),
    {
        display_of(&self.units)
    }

    /// The component this many places before the end, as text.
    fn component_text(&self, places: usize) -> (text: Option<String>)
        requires
            1 <= places <= 2,
        ensures
            match text {
                Some(found) => normal_component(self@, components(self@).len() - places)
                    matches Some(units) && found@ == crate::text::displayed(units),
                None => normal_component(self@, components(self@).len() - places) is None,
            },
    {
        let found = components_of(&self.units);
        if found.len() < places {
            return None;
        }
        let run = found[found.len() - places];
        let here: [u16; 1] = [0x2E];
        let upward: [u16; 2] = [0x2E, 0x2E];
        assert(here@ =~= seq![0x2Eu16]);
        assert(upward@ =~= seq![0x2Eu16, 0x2E]);
        if spells(&self.units, run, &here) || spells(&self.units, run, &upward) {
            return None;
        }
        Some(display_of(&copy_units(&self.units, run.0, run.1)))
    }

    /// The last component, as text.
    pub fn file_name(&self) -> (text: Option<String>)
        ensures
            match text {
                Some(found) => file_name(self@) matches Some(units) && found@
                    == crate::text::displayed(units),
                None => file_name(self@) is None,
            },
    {
        self.component_text(1)
    }

    /// The last component of the folder that holds the path, as text.
    pub fn parent_name(&self) -> (text: Option<String>)
        ensures
            match text {
                Some(found) => folder_of(self@) matches Some(units) && found@
                    == crate::text::displayed(units),
                None => folder_of(self@) is None,
            },
    {
        self.component_text(2)
    }

    /// The folder that holds the path; none for a bare prefix or root.
    pub fn parent(&self) -> (folder: Option<FilePath>)
        ensures
            match folder {
                Some(found) => parent(self@) == Some(found@),
                None => parent(self@) is None,
            },
    {
        let found = components_of(&self.units);
        if found.len() == 0 {
            return None;
        }
        let length: usize = if found.len() >= 2 {
            found[found.len() - 2].1
        } else if found[0].0 == 0 {
            0
        } else {
            let prefix: usize = prefix_end_of(&self.units, &separators_of(&self.units));
            let root: usize = root_end_of(&self.units, prefix);
            let stays: bool = root == prefix && root < self.units.len() && self.units[root] == 0x2E
                && (root + 1 == self.units.len() || separates(self.units[root + 1]));
            if stays {
                root + 1
            } else {
                root
            }
        };
        let units = copy_units(&self.units, 0, length);
        assert(units@ =~= self.units@.take(length as int));
        Some(FilePath { units })
    }

    /// The extension in ASCII lower case.
    pub fn extension_lowercase(&self) -> (found: Option<String>)
        ensures
            match found {
                Some(text) => extension(self@) == Some(text@),
                None => extension(self@) is None,
            },
    {
        match self.file_name() {
            Some(name) => extension_of(&name),
            None => None,
        }
    }

    /// Whether both paths name the same place.
    pub fn same_path(&self, other: &FilePath) -> (same: bool)
        ensures
            same == (crate::text::folded(self@) == crate::text::folded(other@)),
    {
        equal_ignoring_case(&self.units, &other.units)
    }
}

} // verus!
