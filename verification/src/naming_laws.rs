//! How files, members and URLs are named, and which of them are listed.

use vstd::prelude::*;

use crate::archive;
use crate::archive::{ArchiveErrorModel, HeaderModel, MemberModel};
use crate::build_plan;
use crate::display;
use crate::display::DisplayCapabilities;
use crate::formats;
use crate::listing::{CoreOptions, DecodedWeight};
use crate::location;
use crate::location::Place;
use crate::path;
use crate::registry;
use crate::scan;
use crate::scan::{FolderItemModel, ScanFound, ScanModel, ScopeModel};
use crate::search;
use crate::text;
use crate::text_input;
use crate::url;

verus! {

/// Only the letters from A to Z have another lower case, and folding twice is folding once.
pub proof fn lemma_folding_lowers_letters(units: Seq<u16>, index: int)
    requires
        0 <= index < units.len(),
    ensures
        text::folded(units).len() == units.len(),
        'A' as u16 <= units[index] <= 'Z' as u16 ==> text::folded(units)[index] == units[index] + 32,
        !('A' as u16 <= units[index] <= 'Z' as u16) ==> text::folded(units)[index] == units[index],
        text::folded(text::folded(units)) == text::folded(units),
{
    assert(text::folded(text::folded(units)) =~= text::folded(units));
}

/// Only the letters from A to Z have another lower case in a text.
pub proof fn lemma_lowering_lowers_letters(name: Seq<char>, index: int)
    requires
        0 <= index < name.len(),
    ensures
        text::lowered(name).len() == name.len(),
        'A' <= name[index] <= 'Z' ==> text::lowered(name)[index] as int == name[index] as int + 32,
        !('A' <= name[index] <= 'Z') ==> text::lowered(name)[index] == name[index],
{
}

proof fn lemma_last_position(name: Seq<char>, character: char, place: int, end: int)
    requires
        0 <= place < end <= name.len(),
        name[place] == character,
        forall|index: int| place < index < end ==> #[trigger] name[index] != character,
    ensures
        path::last_position(name, character, end) == place,
    decreases end,
{
    if end - 1 > place {
        assert(name[end - 1] != character);
        lemma_last_position(name, character, place, end - 1);
    }
}

proof fn lemma_no_position(name: Seq<char>, character: char, end: int)
    requires
        0 <= end <= name.len(),
        forall|index: int| 0 <= index < end ==> #[trigger] name[index] != character,
    ensures
        path::last_position(name, character, end) == -1,
    decreases end,
{
    if end > 0 {
        assert(name[end - 1] != character);
        lemma_no_position(name, character, end - 1);
    }
}

/// A name's extension is what stands behind its last dot, in lower case, and its stem what stands before
/// it; a name without a dot, or with none but at its start, has no extension and is its own stem.
pub proof fn lemma_extension_stands_behind_the_last_dot(stem: Seq<char>, ending: Seq<char>)
    requires
        !ending.contains('.'),
    ensures
        stem.len() > 0 ==> path::extension_of_name(stem + seq!['.'] + ending) == Some(
            text::lowered(ending),
        ),
        stem.len() > 0 ==> text_input::stem(stem + seq!['.'] + ending) == stem,
        path::extension_of_name(seq!['.'] + ending) is None,
        path::extension_of_name(ending) is None,
        text_input::stem(ending) == ending,
{
    let name = stem + seq!['.'] + ending;
    assert(forall|index: int| 0 <= index < ending.len() ==> #[trigger] ending[index] != '.');
    assert forall|index: int| stem.len() < index < name.len() implies #[trigger] name[index]
        != '.' by {
        assert(name[index] == ending[index - stem.len() - 1]);
    }
    lemma_last_position(name, '.', stem.len() as int, name.len() as int);
    assert(name.skip(stem.len() as int + 1) =~= ending);
    assert(name.take(stem.len() as int) =~= stem);
    let hidden = seq!['.'] + ending;
    assert forall|index: int| 0 < index < hidden.len() implies #[trigger] hidden[index] != '.' by {
        assert(hidden[index] == ending[index - 1]);
    }
    lemma_last_position(hidden, '.', 0, hidden.len() as int);
    lemma_no_position(ending, '.', ending.len() as int);
}

proof fn lemma_resource_ends(text: Seq<char>, from: int, end: int)
    requires
        0 <= from <= end <= text.len(),
        forall|index: int|
            from <= index < end ==> #[trigger] text[index] != '?' && text[index] != '#',
        end < text.len() ==> text[end] == '?' || text[end] == '#',
    ensures
        url::resource_end(text, from) == end,
    decreases end - from,
{
    if from < end {
        assert(text[from] != '?' && text[from] != '#');
        lemma_resource_ends(text, from + 1, end);
    }
}

/// A URL's name is what stands behind its last slash, up to its query or its fragment.
pub proof fn lemma_url_name_stands_behind_the_last_slash(
    base: Seq<char>,
    name: Seq<char>,
    tail: Seq<char>,
)
    requires
        forall|index: int|
            0 <= index < base.len() ==> #[trigger] base[index] != '?' && base[index] != '#',
        forall|index: int|
            0 <= index < name.len() ==> #[trigger] name[index] != '?' && name[index] != '#'
                && name[index] != '/',
        tail.len() > 0 ==> tail[0] == '?' || tail[0] == '#',
    ensures
        url::url_name(base + seq!['/'] + name + tail) == name,
{
    let whole = base + seq!['/'] + name + tail;
    let end = base.len() + 1 + name.len();
    assert forall|index: int| 0 <= index < end implies #[trigger] whole[index] != '?'
        && whole[index] != '#' by {
        if index < base.len() {
            assert(whole[index] == base[index]);
        } else if index > base.len() {
            assert(whole[index] == name[index - base.len() - 1]);
        }
    }
    if tail.len() > 0 {
        assert(whole[end as int] == tail[0]);
    }
    lemma_resource_ends(whole, 0, end as int);
    assert(whole[base.len() as int] == '/');
    assert forall|index: int| base.len() < index < end implies #[trigger] whole[index] != '/' by {
        assert(whole[index] == name[index - base.len() - 1]);
    }
    lemma_last_position(whole, '/', base.len() as int, end as int);
    assert(whole.subrange(base.len() as int + 1, end as int) =~= name);
}

/// A remote image comes over HTTP, plain or secure, in whatever case that is written.
pub proof fn lemma_supported_protocols(rest: Seq<char>)
    ensures
        url::supported_protocol("http://"@ + rest),
        url::supported_protocol("https://"@ + rest),
        forall|address: Seq<char>|
            #[trigger] url::supported_protocol(address) ==> address.len() >= 7 && (address[0] == 'h'
                || address[0] == 'H') && (address[3] == 'p' || address[3] == 'P'),
{
    reveal_strlit("http://");
    reveal_strlit("https://");
    let plain = "http://"@ + rest;
    assert(text::lowered(plain).take(7) =~= "http://"@);
    let secure = "https://"@ + rest;
    assert(text::lowered(secure).take(8) =~= "https://"@);
    assert forall|address: Seq<char>| #[trigger] url::supported_protocol(address) implies address.len()
        >= 7 && (address[0] == 'h' || address[0] == 'H') && (address[3] == 'p' || address[3]
        == 'P') by {
        let lower = text::lowered(address);
        if url::starts_ignoring_case(address, "http://"@) {
            assert(lower.take(7)[0] == 'h' && lower.take(7)[3] == 'p');
        } else {
            assert(lower.take(8)[0] == 'h' && lower.take(8)[3] == 'p');
        }
        assert(lower[0] == text::lower_char(address[0]));
        assert(lower[3] == text::lower_char(address[3]));
    }
}

proof fn lemma_last_mark(marks: Seq<bool>, place: int, end: int)
    requires
        0 <= place < end <= marks.len(),
        marks[place],
        forall|index: int| place < index < end ==> !#[trigger] marks[index],
    ensures
        location::last_mark(marks, end) == place,
    decreases end,
{
    if end - 1 > place {
        assert(!marks[end - 1]);
        lemma_last_mark(marks, place, end - 1);
    }
}

/// A member's name is what stands behind its last slash, whichever way that leans.
pub proof fn lemma_member_name_stands_behind_the_last_slash(
    folder: Seq<char>,
    name: Seq<char>,
    archive_path: Seq<u16>,
    leaning_back: bool,
)
    requires
        !name.contains('/') && !name.contains('\\'),
    ensures
        ({
            let slash = if leaning_back {
                '\\'
            } else {
                '/'
            };
            (Place::ArchiveMember {
                archive: archive_path,
                member: folder + seq![slash] + name,
            }).name() == name
        }),
{
    let slash = if leaning_back {
        '\\'
    } else {
        '/'
    };
    let member = folder + seq![slash] + name;
    let marks = location::member_separators(member);
    assert(marks[folder.len() as int]);
    assert(forall|index: int| 0 <= index < name.len() ==> #[trigger] name[index] != '/'
        && name[index] != '\\');
    assert forall|index: int| folder.len() < index < marks.len() implies !#[trigger] marks[index] by {
        assert(member[index] == name[index - folder.len() - 1]);
    }
    lemma_last_mark(marks, folder.len() as int, member.len() as int);
    assert(member.skip(folder.len() as int + 1) =~= name);
}

/// The whole location of a member is its archive, a pointing mark and its name; a file's and a URL's is
/// themselves.
pub proof fn lemma_location_texts(path: Seq<u16>, member: Seq<char>, address: Seq<char>)
    ensures
        Place::File(path).text() == text::displayed(path),
        Place::Url(address).text() == address,
        (Place::ArchiveMember { archive: path, member }).text() == text::displayed(path) + seq![
            ' ',
            '\u{203A}',
            ' ',
        ] + member,
        Place::File(path).carrier() == Some(path),
        (Place::ArchiveMember { archive: path, member }).carrier() == Some(path),
        Place::Url(address).carrier() is None,
        Place::Url(address).folder() is None,
{
}

proof fn lemma_run_stops_at_a_mark(marks: Seq<bool>, from: int, place: int)
    requires
        0 <= from <= place < marks.len(),
        marks[place],
    ensures
        from <= path::run_end(marks, from) <= place,
        from < path::run_end(marks, from) ==> !marks[path::run_end(marks, from) - 1],
        marks[path::run_end(marks, from)],
    decreases place - from,
{
    if !marks[from] {
        lemma_run_stops_at_a_mark(marks, from + 1, place);
    }
}

proof fn lemma_open_run_goes_to_the_end(marks: Seq<bool>, from: int)
    requires
        0 <= from <= marks.len(),
        forall|index: int| from <= index < marks.len() ==> !#[trigger] marks[index],
    ensures
        path::run_end(marks, from) == marks.len(),
    decreases marks.len() - from,
{
    if from < marks.len() {
        assert(!marks[from]);
        lemma_open_run_goes_to_the_end(marks, from + 1);
    }
}

proof fn lemma_last_runs(marks: Seq<bool>, from: int, place: int)
    requires
        0 <= from <= place + 1,
        0 <= place,
        place + 1 < marks.len() <= usize::MAX,
        marks[place],
        forall|index: int| place < index < marks.len() ==> !#[trigger] marks[index],
    ensures
        ({
            let found = path::runs(marks, from);
            &&& found.len() > 0
            &&& found.last() == ((place + 1) as usize, marks.len() as usize)
            &&& from < place && !marks[place - 1] ==> found.len() >= 2 && found[found.len()
                - 2].1 == place && found[found.len() - 2].0 >= from
        }),
    decreases place + 1 - from,
{
    let found = path::runs(marks, from);
    if from == place + 1 {
        lemma_open_run_goes_to_the_end(marks, from);
        path::lemma_run_end_bounds(marks, from);
        assert(path::runs(marks, marks.len() as int) =~= Seq::empty());
        assert(found =~= seq![((place + 1) as usize, marks.len() as usize)]);
    } else if marks[from] {
        lemma_last_runs(marks, from + 1, place);
    } else {
        lemma_run_stops_at_a_mark(marks, from, place);
        path::lemma_run_end_bounds(marks, from);
        let end = path::run_end(marks, from);
        lemma_last_runs(marks, end, place);
        let rest = path::runs(marks, end);
        assert(found =~= seq![(from as usize, end as usize)] + rest);
        assert(found.last() == rest.last());
        if end == place {
            lemma_last_runs(marks, place + 1, place);
            assert(rest =~= path::runs(marks, place + 1));
            lemma_single_run(marks, place);
            assert(found[found.len() - 2] == (from as usize, end as usize));
        } else if !marks[place - 1] {
            assert(found[found.len() - 2] == rest[rest.len() - 2]);
        }
    }
}

proof fn lemma_single_run(marks: Seq<bool>, place: int)
    requires
        0 <= place,
        place + 1 < marks.len() <= usize::MAX,
        forall|index: int| place < index < marks.len() ==> !#[trigger] marks[index],
    ensures
        path::runs(marks, place + 1).len() == 1,
{
    lemma_open_run_goes_to_the_end(marks, place + 1);
    path::lemma_run_end_bounds(marks, place + 1);
    assert(path::runs(marks, marks.len() as int) =~= Seq::empty());
}

/// A path on a drive splits at its last separator: behind it stands the name, before it the folder.
pub proof fn lemma_path_splits_at_its_last_separator(
    folder: Seq<u16>,
    separator: u16,
    name: Seq<u16>,
)
    requires
        separator == '/' as u16 || separator == '\\' as u16,
        folder.len() >= 2,
        'A' as u16 <= folder[0] <= 'Z' as u16 || 'a' as u16 <= folder[0] <= 'z' as u16,
        folder[1] == ':' as u16,
        folder.len() >= 3 ==> folder[2] == '/' as u16 || folder[2] == '\\' as u16,
        name.len() > 0,
        forall|index: int|
            0 <= index < name.len() ==> #[trigger] name[index] != '/' as u16 && name[index]
                != '\\' as u16,
        name != seq!['.' as u16] && name != seq!['.' as u16, '.' as u16],
        folder.len() + 1 + name.len() <= usize::MAX,
    ensures
        path::file_name(folder + seq![separator] + name) == Some(name),
        folder.len() == 2 ==> path::parent(folder + seq![separator] + name) == Some(
            folder + seq![separator],
        ),
        folder.len() > 3 && folder.last() != '/' as u16 && folder.last() != '\\' as u16
            && folder.last() != '.' as u16 ==> path::parent(folder + seq![separator] + name)
            == Some(folder),
{
    let units = folder + seq![separator] + name;
    let place = folder.len() as int;
    assert(units[0] == folder[0] && units[1] == folder[1]);
    assert(units[place] == separator);
    if folder.len() >= 3 {
        assert(units[2] == folder[2]);
    }
    assert(!path::is_verbatim(units));
    assert(path::is_drive(units, 0));
    assert(path::prefix_end(units) == 2);
    assert(path::root_end(units) == 3);
    let marks = path::separators(units);
    assert(marks[place]);
    assert forall|index: int| place < index < marks.len() implies !#[trigger] marks[index] by {
        assert(units[index] == name[index - place - 1]);
    }
    lemma_last_runs(marks, 3, place);
    let found = path::runs(marks, 3);
    let last = found.last();
    assert(path::piece(units, last) =~= name);
    let named = path::components(units);
    assert(named == path::naming_runs(units, found.drop_last()).push(last));
    assert(named.last() == last);
    if folder.len() == 2 {
        lemma_single_run(marks, place);
        assert(found.drop_last() =~= Seq::empty());
        assert(named.len() == 1);
        assert(units.take(3) =~= folder + seq![separator]);
    } else if folder.len() > 3 && folder.last() != '/' as u16 && folder.last() != '\\' as u16
        && folder.last() != '.' as u16 {
        assert(units[place - 1] == folder[place - 1]);
        assert(!marks[place - 1]);
        let rest = found.drop_last();
        assert(rest.last() == found[found.len() - 2]);
        let held = path::piece(units, rest.last());
        path::lemma_runs_in_bounds(marks, 3);
        assert(held[held.len() - 1] == units[place - 1]);
        assert(held != seq!['.' as u16]) by {
            if held == seq!['.' as u16] {
                assert(held[0] == '.' as u16);
            }
        }
        let before = path::naming_runs(units, rest);
        assert(before.last() == rest.last());
        assert(named[named.len() - 2] == rest.last());
        assert(units.take(place) =~= folder);
    }
}

/// An archive goes by its extension: zip, 7z, rar and tar, and the four of comic books.
pub proof fn lemma_archive_extensions(extension: Seq<char>)
    ensures
        archive::lists_archive(extension) <==> extension == "zip"@ || extension == "7z"@
            || extension == "rar"@ || extension == "tar"@ || extension == "cbz"@ || extension
            == "cbr"@ || extension == "cb7"@ || extension == "cbt"@,
{
    let rows = archive::ARCHIVE_EXTENSIONS@;
    assert(rows[0].0@ == "zip"@);
    assert(rows[1].0@ == "7z"@);
    assert(rows[2].0@ == "rar"@);
    assert(rows[3].0@ == "tar"@);
    assert(rows[4].0@ == "cbz"@);
    assert(rows[5].0@ == "cbr"@);
    assert(rows[6].0@ == "cb7"@);
    assert(rows[7].0@ == "cbt"@);
}

/// A member's time counts tenths of microseconds from 1601: seconds apart are ten million apart, and a
/// time before 1970 counts as 1970.
pub proof fn lemma_member_times_count_seconds(seconds: i64)
    ensures
        0 <= seconds <= 1_000_000_000_000 ==> archive::member_time(seconds) - archive::member_time(0)
            == seconds * 10_000_000,
        seconds < 0 ==> archive::member_time(seconds) == archive::member_time(0),
        archive::member_time(0) == 134774 * 86400 * 10_000_000,
{
}

/// A member is listed where it is a regular file that has a name and is not encrypted, with the size it
/// declares, none where that is below zero or not declared.
pub proof fn lemma_regular_members_are_listed(header: HeaderModel)
    ensures
        archive::listed_member(header) matches Some(member) ==> {
            &&& header.filetype & 0o170000 == 0o100000
            &&& !header.data_encrypted
            &&& header.name == Some(member.name)
            &&& header.size matches Some(bytes) ==> (bytes >= 0 ==> member.size == bytes) && (bytes
                < 0 ==> member.size == 0)
            &&& header.size is None ==> member.size == 0
            &&& member.modified == archive::member_time(header.modified_seconds)
        },
        header.filetype & 0o170000 == 0o100000 && !header.data_encrypted && header.name is Some
            ==> archive::listed_member(header) is Some,
{
}

/// The members of an archive are listed in its order, each header that lists one in its turn.
pub proof fn lemma_members_keep_their_order(headers: Seq<HeaderModel>, header: HeaderModel)
    ensures
        archive::listed_members(headers.push(header)) == (match archive::listed_member(header) {
            Some(member) => archive::listed_members(headers).push(member),
            None => archive::listed_members(headers),
        }),
        archive::listed_members(headers).len() <= headers.len(),
        archive::listed_members(Seq::empty()).len() == 0,
{
    assert(headers.push(header).drop_last() =~= headers);
    lemma_no_more_members_than_headers(headers);
}

proof fn lemma_no_more_members_than_headers(headers: Seq<HeaderModel>)
    ensures
        archive::listed_members(headers).len() <= headers.len(),
    decreases headers.len(),
{
    if headers.len() > 0 {
        lemma_no_more_members_than_headers(headers.drop_last());
    }
}

/// A cancelled archive stays a cancellation; any other error keeps its code and its words.
pub proof fn lemma_archive_errors_keep_their_words(error: ArchiveErrorModel)
    ensures
        error.cancelled ==> archive::archive_decode_error(error).is_cancelled(),
        !error.cancelled ==> archive::archive_decode_error(error).code == error.code
            && archive::archive_decode_error(error).message == error.message,
{
}

/// A folder lists a file, not a folder; not a hidden one where those are skipped, nor what another system
/// left behind; and of what is left, what its extension or, where that is asked for, its content says is
/// an image. The entry says of the file what the folder does.
pub proof fn lemma_folder_lists_its_images(item: FolderItemModel, options: CoreOptions)
    ensures
        ({
            let known = registry::format_of_path_extension(item.name) is Some;
            let recognized = options.detect_format_by_content && item.header is Some
                && registry::format_of_content(item.header->0) is Some;
            let left_behind = item.name.len() >= 2 && item.name[0] == '.' as u16 && item.name[1]
                == '_' as u16;
            scan::folder_entry(item, options) is Some <==> item.is_file && !(item.hidden
                && options.skip_hidden) && !left_behind && (known || recognized)
        }),
        scan::folder_entry(item, options) matches Some(entry) ==> {
            &&& entry.location == Place::File(item.path)
            &&& entry.name_rank == item.name_rank
            &&& entry.file_size == item.file_size
            &&& item.modified is Some ==> Some(entry.modified) == item.modified
            &&& item.created is Some ==> Some(entry.created) == item.created
            &&& item.modified is None ==> entry.modified == archive::member_time(0)
            &&& item.created is None ==> entry.created == archive::member_time(0)
            &&& entry.weight == DecodedWeight::Unknown
            &&& registry::format_of_path_extension(item.name) matches Some(format)
                ==> entry.format_name == format.title()
        },
{
}

/// A folder's entries stand in its order, each item that lists one in its turn.
pub proof fn lemma_folder_entries_keep_their_order(
    items: Seq<FolderItemModel>,
    item: FolderItemModel,
    options: CoreOptions,
)
    ensures
        scan::folder_entries(items.push(item), options) == (match scan::folder_entry(
            item,
            options,
        ) {
            Some(entry) => scan::folder_entries(items, options).push(entry),
            None => scan::folder_entries(items, options),
        }),
        scan::folder_entries(Seq::empty(), options).len() == 0,
{
    assert(items.push(item).drop_last() =~= items);
}

/// An archive lists the members whose extension is that of an image, under the archive's path, with the
/// member's size and time.
pub proof fn lemma_archive_lists_its_images(
    archive_path: Seq<u16>,
    member: MemberModel,
    name_rank: u64,
)
    ensures
        scan::entry_of_member(archive_path, member, name_rank) is Some <==> (path::extension(
            text::wide(member.name),
        ) matches Some(extension) && registry::format_of_extension(extension) is Some),
        scan::entry_of_member(archive_path, member, name_rank) matches Some(entry) ==> {
            &&& entry.location == (Place::ArchiveMember {
                archive: archive_path,
                member: member.name,
            })
            &&& entry.name_rank == name_rank
            &&& entry.file_size == member.size
            &&& entry.modified == member.modified
            &&& entry.created == member.modified
        },
{
}

/// A scope covers the same folder or the same archive, whatever the case of its path, and never one the
/// other.
pub proof fn lemma_scopes_cover_their_own_kind(first: Seq<u16>, second: Seq<u16>)
    ensures
        ScopeModel::Directory(first).covers(ScopeModel::Directory(second)) <==> text::folded(first)
            == text::folded(second),
        ScopeModel::Archive(first).covers(ScopeModel::Archive(second)) <==> text::folded(first)
            == text::folded(second),
        !ScopeModel::Directory(first).covers(ScopeModel::Archive(second)),
        !ScopeModel::Archive(first).covers(ScopeModel::Directory(second)),
{
}

/// A file's time counts whole hundreds of nanoseconds from 1601, forward or backward of 1970.
pub proof fn lemma_file_times_count_intervals(nanoseconds: int)
    requires
        0 <= nanoseconds <= 10_000_000_000_000_000_000,
    ensures
        scan::intervals(true, nanoseconds) == Some(
            (archive::member_time(0) + nanoseconds / 100) as u64,
        ),
        scan::intervals(false, nanoseconds) == Some(
            (archive::member_time(0) - nanoseconds / 100) as u64,
        ),
{
}

/// What is stripped is the padding at both ends and nothing else: what is left stands in the text, and
/// neither begins nor ends with padding.
pub proof fn lemma_stripping_takes_the_padding(
    padded: Seq<char>,
    padding: spec_fn(char) -> bool,
)
    ensures
        ({
            let kept = search::stripped(padded, padding);
            &&& kept.len() > 0 ==> !padding(kept[0]) && !padding(kept.last())
            &&& kept.len() == 0 ==> forall|index: int|
                0 <= index < padded.len() ==> padding(#[trigger] padded[index])
            &&& kept.len() > 0 ==> exists|start: int|
                0 <= start && start + kept.len() <= padded.len() && #[trigger] padded.subrange(
                    start,
                    start + kept.len(),
                ) == kept && (forall|index: int|
                    0 <= index < start ==> padding(#[trigger] padded[index])) && (forall|index: int|
                    start + kept.len() <= index < padded.len() ==> padding(
                        #[trigger] padded[index],
                    ))
        }),
{
    lemma_padding_in_front(padded, padding, 0);
    lemma_padding_behind(padded, padding, padded.len() as int);
    let start = search::past_padding(padded, padding, 0);
    let end = search::before_padding(padded, padding, padded.len() as int);
    if start < end {
        let kept = search::stripped(padded, padding);
        assert(padded.subrange(start, start + kept.len()) == kept);
        assert(kept[0] == padded[start]);
        assert(kept.last() == padded[end - 1]);
    } else {
        assert forall|index: int| 0 <= index < padded.len() implies padding(
            #[trigger] padded[index],
        ) by {
            if index >= start {
                assert(index >= end);
            }
        }
    }
}

proof fn lemma_padding_in_front(padded: Seq<char>, padding: spec_fn(char) -> bool, from: int)
    requires
        0 <= from <= padded.len(),
    ensures
        ({
            let start = search::past_padding(padded, padding, from);
            &&& from <= start <= padded.len()
            &&& start < padded.len() ==> !padding(padded[start])
            &&& forall|index: int| from <= index < start ==> padding(#[trigger] padded[index])
        }),
    decreases padded.len() - from,
{
    if from < padded.len() && padding(padded[from]) {
        lemma_padding_in_front(padded, padding, from + 1);
    }
}

proof fn lemma_padding_behind(padded: Seq<char>, padding: spec_fn(char) -> bool, end: int)
    requires
        0 <= end <= padded.len(),
    ensures
        ({
            let last = search::before_padding(padded, padding, end);
            &&& 0 <= last <= end
            &&& last > 0 ==> !padding(padded[last - 1])
            &&& forall|index: int| last <= index < end ==> padding(#[trigger] padded[index])
        }),
    decreases end,
{
    if end > 0 && padding(padded[end - 1]) {
        lemma_padding_behind(padded, padding, end - 1);
    }
}

/// A display's tone mapping aims at what it can show where it shows HDR, at 600 nits where it does not say,
/// and at 203 nits where it shows none; a full frame is limited by what the display says, or by the same.
pub proof fn lemma_display_targets(capabilities: DisplayCapabilities)
    ensures
        ({
            let (target, full_frame) = capabilities.targets();
            &&& !capabilities.hdr ==> target == 0x434B_0000 && full_frame == target
            &&& capabilities.hdr && capabilities.maximum_luminance_nits is None ==> target
                == 0x4416_0000
            &&& capabilities.hdr && capabilities.maximum_luminance_nits is Some ==> Some(target)
                == capabilities.maximum_luminance_nits
            &&& capabilities.hdr && capabilities.maximum_full_frame_luminance_nits is None
                ==> full_frame == target
            &&& capabilities.hdr && capabilities.maximum_full_frame_luminance_nits is Some ==> Some(
                full_frame,
            ) == capabilities.maximum_full_frame_luminance_nits
        }),
        capabilities.hdr ==> capabilities.mode() == "HDR"@,
        !capabilities.hdr && capabilities.advanced_color ==> capabilities.mode() == "WCG"@,
        !capabilities.hdr && !capabilities.advanced_color ==> capabilities.mode() == "SDR"@,
{
}

/// A luminance counts where it is above zero.
pub proof fn lemma_luminance_counts_above_zero(bits: u32)
    ensures
        display::meaningful_nits(Some(bits)) == (if 0 < bits <= 0x7F80_0000 {
            Some(bits)
        } else {
            None
        }),
        display::meaningful_nits(None) is None,
{
}

/// The path that drives a device is the first of its name, and there is none where no path has it.
pub proof fn lemma_first_path_drives_the_device(
    names: Seq<Option<Seq<u16>>>,
    device: Seq<u16>,
    from: int,
    index: int,
)
    requires
        0 <= from <= index <= names.len(),
        forall|earlier: int| from <= earlier < index ==> #[trigger] names[earlier] != Some(device),
        index < names.len() ==> names[index] == Some(device),
    ensures
        index < names.len() ==> display::driving_path_from(names, device, from) == Some(index),
        index == names.len() ==> display::driving_path_from(names, device, from) is None,
    decreases index - from,
{
    if from < index {
        assert(names[from] != Some(device));
        lemma_first_path_drives_the_device(names, device, from + 1, index);
    }
}

/// The depth of a monitor is that of the first output on it, where that says one.
pub proof fn lemma_first_output_says_the_depth(
    outputs: Seq<(u64, u32)>,
    monitor: u64,
    from: int,
    index: int,
)
    requires
        0 <= from <= index <= outputs.len(),
        forall|earlier: int| from <= earlier < index ==> (#[trigger] outputs[earlier]).0 != monitor,
        index < outputs.len() ==> outputs[index].0 == monitor,
    ensures
        index < outputs.len() ==> display::output_from(outputs, monitor, from) == (if outputs[index].1
            > 0 {
            Some(outputs[index].1)
        } else {
            None
        }),
        index == outputs.len() ==> display::output_from(outputs, monitor, from) is None,
    decreases index - from,
{
    if from < index {
        assert(outputs[from].0 != monitor);
        lemma_first_output_says_the_depth(outputs, monitor, from + 1, index);
    }
}

/// A library is linked by its name without the ending, an archive that begins with `lib` by its whole
/// name, and nothing else is.
pub proof fn lemma_libraries_are_linked_by_name(name: Seq<char>)
    ensures
        build_plan::link_of(name + ".lib"@) == Some("static="@ + name),
        build_plan::link_of("lib"@ + name + ".a"@) == Some(
            "static:+verbatim="@ + ("lib"@ + name + ".a"@),
        ),
        build_plan::link_of(name) is Some ==> name.len() >= 4 && (name.last() == 'b' || name.last()
            == 'a'),
{
    reveal_strlit(".lib");
    reveal_strlit("lib");
    reveal_strlit(".a");
    let library = name + ".lib"@;
    assert(library.skip(library.len() - 4) =~= ".lib"@);
    assert(library.take(library.len() - 4) =~= name);
    let kept = "lib"@ + name + ".a"@;
    assert(kept.take(3) =~= "lib"@);
    assert(kept.skip(kept.len() - 2) =~= ".a"@);
    assert(kept.last() == 'a');
    if build_plan::ends_with(kept, ".lib"@) {
        assert(kept.skip(kept.len() - 4)[3] == 'a');
    }
    if build_plan::ends_with(name, ".lib"@) {
        assert(name.skip(name.len() - 4)[3] == name.last());
    } else if build_plan::begins_with(name, "lib"@) && build_plan::ends_with(name, ".a"@) {
        assert(name.skip(name.len() - 2)[1] == name.last());
        assert(name.take(3)[2] == name[2]);
        assert(name.skip(name.len() - 2)[0] == name[name.len() - 2]);
    }
}

/// One character takes another's place wherever that stands, and all others stay.
pub proof fn lemma_characters_are_exchanged(name: Seq<char>, from: char, to: char, index: int)
    requires
        0 <= index < name.len(),
    ensures
        build_plan::exchanged(name, from, to).len() == name.len(),
        name[index] == from ==> build_plan::exchanged(name, from, to)[index] == to,
        name[index] != from ==> build_plan::exchanged(name, from, to)[index] == name[index],
{
}

/// A shader is compiled again where a source changed after it was written.
pub proof fn lemma_later_change_counts(changed: u64, written: u64)
    ensures
        build_plan::changed_since(Some(changed), written) <==> changed > written,
        !build_plan::changed_since(None, written),
{
}

/// A path on a share splits at its last separator too: what names the share is where the names begin.
pub proof fn lemma_share_is_where_names_begin(server: Seq<u16>, share: Seq<u16>, name: Seq<u16>)
    requires
        server.len() > 0 && share.len() > 0 && name.len() > 0,
        forall|index: int|
            0 <= index < server.len() ==> #[trigger] server[index] != '/' as u16 && server[index]
                != '\\' as u16,
        forall|index: int|
            0 <= index < share.len() ==> #[trigger] share[index] != '/' as u16 && share[index]
                != '\\' as u16,
        forall|index: int|
            0 <= index < name.len() ==> #[trigger] name[index] != '/' as u16 && name[index]
                != '\\' as u16,
        server[0] != '.' as u16 && server[0] != '?' as u16,
        name != seq!['.' as u16] && name != seq!['.' as u16, '.' as u16],
        server.len() + share.len() + name.len() + 4 <= usize::MAX,
    ensures
        ({
            let mark = seq!['\\' as u16];
            let root = mark + mark + server + mark + share + mark;
            &&& path::file_name(root + name) == Some(name)
            &&& path::parent(root + name) == Some(root)
        }),
{
    let mark = seq!['\\' as u16];
    let root = mark + mark + server + mark + share + mark;
    let units = root + name;
    let first = 2 + server.len() as int;
    let second = first + 1 + share.len() as int;
    assert(units[0] == '\\' as u16 && units[1] == '\\' as u16);
    assert(units[2] == server[0]);
    assert(!path::is_verbatim(units));
    let marks = path::separators(units);
    assert(marks[first]);
    assert(marks[second]);
    assert forall|index: int| 2 <= index < first implies !#[trigger] marks[index] by {
        assert(units[index] == server[index - 2]);
    }
    assert forall|index: int| first < index < second implies !#[trigger] marks[index] by {
        assert(units[index] == share[index - first - 1]);
    }
    assert forall|index: int| second < index < marks.len() implies !#[trigger] marks[index] by {
        assert(units[index] == name[index - second - 1]);
    }
    lemma_run_goes_to_the_mark(marks, 2, first);
    lemma_run_goes_to_the_mark(marks, first + 1, second);
    assert(path::prefix_end(units) == second);
    assert(path::root_end(units) == second + 1);
    lemma_last_runs(marks, second + 1, second);
    lemma_single_run(marks, second);
    let found = path::runs(marks, second + 1);
    assert(path::piece(units, found.last()) =~= name);
    assert(found.drop_last() =~= Seq::empty());
    assert(path::naming_runs(units, found.drop_last()) =~= Seq::empty());
    assert(path::components(units) =~= seq![found.last()]);
    assert(units.take(second + 1) =~= root);
    assert(path::body_start(units) == second + 1);
}

proof fn lemma_run_goes_to_the_mark(marks: Seq<bool>, from: int, place: int)
    requires
        0 <= from <= place < marks.len(),
        marks[place],
        forall|index: int| from <= index < place ==> !#[trigger] marks[index],
    ensures
        path::run_end(marks, from) == place,
    decreases place - from,
{
    if from < place {
        assert(!marks[from]);
        lemma_run_goes_to_the_mark(marks, from + 1, place);
    }
}

/// A folder brings the entries of its items, in the order asked for; an archive brings those of its members,
/// fails where it lists no image, and fails with its own error where it cannot be read.
pub proof fn lemma_scans_bring_what_is_listed(
    scope: ScopeModel,
    options: CoreOptions,
    found: ScanFound,
)
    ensures
        match found {
            ScanFound::Folder(items) => scan::scanned(scope, options, found) matches ScanModel::Listed(
                entries,
            ) && entries == crate::listing::arranged(
                scan::folder_entries(scan::item_models(items@), options),
                options,
            ),
            ScanFound::Archive(Ok(list), ranks) => {
                let entries = scan::member_entries(
                    scope.path(),
                    archive::member_models(list@),
                    ranks@,
                );
                if entries.len() > 0 {
                    scan::scanned(scope, options, found) == ScanModel::Listed(
                        crate::listing::arranged(entries, options),
                    )
                } else {
                    scan::scanned(scope, options, found) is Failed
                }
            },
            ScanFound::Archive(Err(error), _) => scan::scanned(
                scope,
                options,
                found,
            ) matches ScanModel::Failed(answer) && (!error@.cancelled ==> answer.message
                == error@.message && answer.code == error@.code),
        },
{
}

/// A number's digits read back as the number, without a zero in front.
pub proof fn lemma_digits_read_back(value: int)
    requires
        0 <= value,
    ensures
        crate::keys::decimal_value(crate::strings::decimal_text(value)) == value,
        crate::strings::decimal_text(value).len() > 0,
        value > 0 ==> crate::strings::decimal_text(value)[0] != '0',
        forall|index: int|
            0 <= index < crate::strings::decimal_text(value).len() ==> '0'
                <= #[trigger] crate::strings::decimal_text(value)[index] <= '9',
    decreases value,
{
    let digits = crate::strings::decimal_text(value);
    if value < 10 {
        assert(digits.drop_last() =~= Seq::<char>::empty());
        assert(crate::keys::decimal_value(digits.drop_last()) == 0);
        assert(digits.last() as int == 0x30 + value);
    } else {
        lemma_digits_read_back(value / 10);
        let front = crate::strings::decimal_text(value / 10);
        assert(digits.drop_last() =~= front);
        assert(digits.last() as int == 0x30 + value % 10);
        assert(digits[0] == front[0]);
        assert forall|index: int| 0 <= index < digits.len() implies '0' <= #[trigger] digits[index]
            <= '9' by {
            if index < front.len() {
                assert(digits[index] == front[index]);
            }
        }
    }
}

/// A space, a tab and the ends of a line are white space; letters, digits and marks are not.
pub proof fn lemma_white_space_shows_nothing(character: char)
    ensures
        character == ' ' || character == '\t' || character == '\n' || character == '\r'
            ==> crate::strings::white_space(character),
        '!' <= character <= '~' ==> !crate::strings::white_space(character),
{
}

/// A text that does not hold a pattern stays as it is; one that does has the replacement where the first
/// occurrence stood, and goes on behind it.
pub proof fn lemma_patterns_are_replaced(
    given: Seq<char>,
    pattern: Seq<char>,
    replacement: Seq<char>,
)
    requires
        pattern.len() > 0,
    ensures
        search::found_from(given, pattern, 0) is None ==> build_plan::replaced_from(
            given,
            pattern,
            replacement,
            0,
        ) == given,
        search::found_from(given, pattern, 0) matches Some(at) ==> build_plan::replaced_from(
            given,
            pattern,
            replacement,
            0,
        ) == given.take(at) + replacement + build_plan::replaced_from(
            given,
            pattern,
            replacement,
            at + pattern.len(),
        ),
{
    search::lemma_found_lies_inside(given, pattern, 0);
    assert(given.skip(0) =~= given);
    if let Some(at) = search::found_from(given, pattern, 0) {
        assert(given.subrange(0, at) =~= given.take(at));
    }
}

/// A group is found by its name: the groups stand by name, and none is lost or added.
pub proof fn lemma_groups_are_sorted_whole(groups: Seq<(Seq<char>, Seq<Seq<char>>)>)
    ensures
        crate::formats::by_name(groups).to_multiset() == groups.to_multiset(),
    decreases groups.len(),
{
    broadcast use vstd::seq_lib::group_to_multiset_ensures;

    if groups.len() > 0 {
        let rest = groups.drop_last();
        lemma_groups_are_sorted_whole(rest);
        lemma_inserted_group_is_added(crate::formats::by_name(rest), groups.last());
        assert(groups =~= rest.push(groups.last()));
    }
}

proof fn lemma_inserted_group_is_added(
    groups: Seq<(Seq<char>, Seq<Seq<char>>)>,
    group: (Seq<char>, Seq<Seq<char>>),
)
    ensures
        crate::formats::inserted(groups, group).to_multiset() == groups.to_multiset().insert(group),
    decreases groups.len(),
{
    broadcast use vstd::seq_lib::group_to_multiset_ensures;

    if groups.len() > 0 && crate::strings::text_before(group.0, groups.last().0) {
        let rest = groups.drop_last();
        lemma_inserted_group_is_added(rest, group);
        assert(groups =~= rest.push(groups.last()));
        assert(crate::formats::inserted(groups, group).to_multiset() =~= groups.to_multiset().insert(
            group,
        ));
    }
}

/// A cancelled download stays a cancellation; any other error keeps its code and its words. A member that
/// could not be read fails with its archive's words.
pub proof fn lemma_errors_keep_their_words(
    error: crate::worker::NetworkError,
    unread: ArchiveErrorModel,
    decoded: Result<crate::image::ImageModel, crate::image::ErrorModel>,
)
    ensures
        error.cancelled ==> crate::worker::network_decode_error(error).is_cancelled(),
        !error.cancelled ==> crate::worker::network_decode_error(error).code == error.code
            && crate::worker::network_decode_error(error).message == error.message@,
        crate::worker::member_outcome(Ok(decoded)) == decoded,
        crate::worker::member_outcome(Err(unread)) matches Err(answer) && (!unread.cancelled
            ==> answer.message == unread.message && answer.code == unread.code),
{
}

/// A time that is reported is listed as it is, and one that is not as the first of January 1970: 134774
/// days of 864 thousand million tenths of a microsecond from where file times start.
pub proof fn lemma_listed_times_are_the_reported_ones(item: FolderItemModel, options: CoreOptions)
    ensures
        scan::folder_entry(item, options) matches Some(entry) ==> {
            &&& item.modified matches Some(time) ==> entry.modified == time
            &&& item.created matches Some(time) ==> entry.created == time
            &&& item.modified is None ==> entry.modified == 134774 * 864_000_000_000
            &&& item.created is None ==> entry.created == 134774 * 864_000_000_000
            &&& entry.file_size == item.file_size
            &&& entry.name_rank == item.name_rank
        },
{
}

proof fn lemma_run_before_the_last(marks: Seq<bool>, from: int, start: int, place: int)
    requires
        0 <= from <= start < place,
        place + 1 < marks.len() <= usize::MAX,
        marks[place],
        from < start ==> marks[start - 1],
        forall|index: int| start <= index < place ==> !#[trigger] marks[index],
        forall|index: int| place < index < marks.len() ==> !#[trigger] marks[index],
    ensures
        ({
            let found = path::runs(marks, from);
            found.len() >= 2 && found[found.len() - 2] == (start as usize, place as usize)
        }),
    decreases start - from,
{
    let found = path::runs(marks, from);
    path::lemma_run_end_bounds(marks, from);
    if from == start {
        lemma_run_goes_to_the_mark(marks, from, place);
        lemma_single_run(marks, place);
        assert(!marks[from]);
        assert(path::runs(marks, place) == path::runs(marks, place + 1));
        assert(found == seq![(start as usize, place as usize)] + path::runs(marks, place));
    } else if marks[from] {
        lemma_run_before_the_last(marks, from + 1, start, place);
    } else {
        lemma_run_stops_at_a_mark(marks, from, start - 1);
        let end = path::run_end(marks, from);
        lemma_run_before_the_last(marks, end, start, place);
        let rest = path::runs(marks, end);
        assert(found == seq![(from as usize, end as usize)] + rest);
        assert(found[found.len() - 2] == rest[rest.len() - 2]);
    }
}

/// An archive member lies in the folder it is named under last, however deep that is, and whichever slash
/// stands between; one that is named under no folder lies in its archive.
pub proof fn lemma_member_lies_in_its_innermost_folder(
    above: Seq<char>,
    folder: Seq<char>,
    name: Seq<char>,
    archive_path: Seq<u16>,
    slash: char,
)
    requires
        slash == '/' || slash == '\\',
        folder.len() > 0 && name.len() > 0,
        !folder.contains('/') && !folder.contains('\\'),
        !name.contains('/') && !name.contains('\\'),
        above.len() == 0 || above.last() == slash,
        above.len() + folder.len() + name.len() < usize::MAX,
    ensures
        (Place::ArchiveMember {
            archive: archive_path,
            member: above + folder + seq![slash] + name,
        }).folder() == Some(folder),
        (Place::ArchiveMember { archive: archive_path, member: name }).folder() == (match path::file_name(
            archive_path,
        ) {
            Some(file) => Some(text::displayed(file)),
            None => None,
        }),
{
    let member = above + folder + seq![slash] + name;
    let marks = location::member_separators(member);
    let start = above.len() as int;
    let place = start + folder.len();
    assert forall|index: int| start <= index < place implies !#[trigger] marks[index] by {
        assert(member[index] == folder[index - start]);
        assert(folder.contains(folder[index - start]));
    }
    assert forall|index: int| place < index < marks.len() implies !#[trigger] marks[index] by {
        assert(member[index] == name[index - place - 1]);
        assert(name.contains(name[index - place - 1]));
    }
    assert(member[place] == slash);
    if start > 0 {
        assert(member[start - 1] == above.last());
    }
    lemma_run_before_the_last(marks, 0, start, place);
    assert(member.subrange(start, place) =~= folder);
    let bare = location::member_separators(name);
    assert forall|index: int| 0 <= index < bare.len() implies !#[trigger] bare[index] by {
        assert(name.contains(name[index]));
    }
    lemma_open_run_goes_to_the_end(bare, 0);
    path::lemma_run_end_bounds(bare, 0);
    assert(path::runs(bare, bare.len() as int) =~= Seq::empty());
    assert(path::runs(bare, 0).len() == 1);
}

/// The archive extensions are offered in the order of their table, each under the name it has there.
pub proof fn lemma_archives_are_offered_in_order(row: int)
    requires
        0 <= row < 8,
    ensures
        ({
            let groups = formats::archive_groups();
            let group = if row < 4 {
                groups[0]
            } else {
                groups[1]
            };
            &&& groups.len() == 2
            &&& groups[0].1.len() == 4 && groups[1].1.len() == 4
            &&& group.0 == archive::ARCHIVE_EXTENSIONS@[row].1@
            &&& group.1[row % 4] == archive::ARCHIVE_EXTENSIONS@[row].0@
        }),
{
}

} // verus!
