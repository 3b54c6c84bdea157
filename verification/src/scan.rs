//! Scanning a folder or an archive for the items it lists.

use vstd::prelude::*;

use crate::archive;
use crate::archive::{decode_error_from_archive, ArchiveError, MemberInfo, FILETIME_UNIX_EPOCH};
use crate::image::{uncoded_error, DecodeError};
use crate::listing;
use crate::listing::{
    sort_entries, CoreOptions, DecodedWeight, EntryModel, ListingEntry, SortMode,
};
use crate::location::{ItemLocation, Place};
use crate::path::FilePath;
use crate::registry::format_for_extension;

verus! {

/// What the entry listing was scanned from.
pub enum ListingScope {
    Directory(FilePath),
    Archive(FilePath),
}

/// What a listing scope stands for.
pub enum ScopeModel {
    Directory(Seq<u16>),
    Archive(Seq<u16>),
}

impl ScopeModel {
    /// Same kind over the same path, compared like item identity.
    pub open spec fn covers(self, other: ScopeModel) -> bool {
        match (self, other) {
            (ScopeModel::Directory(first), ScopeModel::Directory(second)) => crate::text::folded(
                first,
            ) == crate::text::folded(second),
            (ScopeModel::Archive(first), ScopeModel::Archive(second)) => crate::text::folded(first)
                == crate::text::folded(second),
            _ => false,
        }
    }

    pub open spec fn path(self) -> Seq<u16> {
        match self {
            ScopeModel::Directory(path) => path,
            ScopeModel::Archive(path) => path,
        }
    }
}

impl View for ListingScope {
    type V = ScopeModel;

    open spec fn view(&self) -> ScopeModel {
        match self {
            ListingScope::Directory(path) => ScopeModel::Directory(path@),
            ListingScope::Archive(path) => ScopeModel::Archive(path@),
        }
    }
}

impl Clone for ListingScope {
    fn clone(&self) -> (copy: Self)
        ensures
            copy@ == self@,
    {
        match self {
            ListingScope::Directory(path) => ListingScope::Directory(path.clone()),
            ListingScope::Archive(path) => ListingScope::Archive(path.clone()),
        }
    }
}

impl ListingScope {
    /// Same kind over the same path, compared like item identity (case-insensitive).
    pub fn covers(&self, other: &ListingScope) -> (same: bool)
        ensures
            same == self@.covers(other@),
    {
        match (self, other) {
            (ListingScope::Directory(first), ListingScope::Directory(second)) => first.same_path(
                second,
            ),
            (ListingScope::Archive(first), ListingScope::Archive(second)) => first.same_path(
                second,
            ),
            _ => false,
        }
    }

    pub fn path(&self) -> (path: &FilePath)
        ensures
            path@ == self@.path(),
    {
        match self {
            ListingScope::Directory(path) => path,
            ListingScope::Archive(path) => path,
        }
    }
}

/// One item of a folder as the file system reports it.
pub struct FolderItem {
    pub path: FilePath,
    /// The item's name alone.
    pub name: FilePath,
    /// The place of the name in the natural order of the folder's names.
    pub name_rank: u64,
    pub is_file: bool,
    pub hidden: bool,
    pub file_size: u64,
    pub modified: Option<u64>,
    pub created: Option<u64>,
    /// The start of the file, where the options ask for the content.
    pub header: Option<Vec<u8>>,
}

#[verifier::ext_equal]
pub struct FolderItemModel {
    pub path: Seq<u16>,
    pub name: Seq<u16>,
    pub name_rank: u64,
    pub is_file: bool,
    pub hidden: bool,
    pub file_size: u64,
    pub modified: Option<u64>,
    pub created: Option<u64>,
    pub header: Option<Seq<u8>>,
}

impl View for FolderItem {
    type V = FolderItemModel;

    open spec fn view(&self) -> FolderItemModel {
        FolderItemModel {
            path: self.path@,
            name: self.name@,
            name_rank: self.name_rank,
            is_file: self.is_file,
            hidden: self.hidden,
            file_size: self.file_size,
            modified: self.modified,
            created: self.created,
            header: crate::image::optional_bytes(self.header),
        }
    }
}

/// Metadata files another system leaves behind start with `._`.
pub open spec fn is_metadata_name(name: Seq<u16>) -> bool {
    name.len() >= 2 && name[0] == 0x2E && name[1] == 0x5F
}

/// The format name a name's extension stands for.
pub open spec fn format_title(name: Seq<u16>) -> Option<Seq<char>> {
    match crate::registry::format_of_path_extension(name) {
        Some(format) => Some(format.title()),
        None => None,
    }
}

/// A time the file system does not report counts as the UNIX epoch.
pub open spec fn time_or_epoch(time: Option<u64>) -> u64 {
    match time {
        Some(found) => found,
        None => FILETIME_UNIX_EPOCH,
    }
}

/// The entry a folder item lists: a file that is not hidden, of a known extension, or of known
/// content where the options look at it.
pub open spec fn folder_entry(item: FolderItemModel, options: CoreOptions) -> Option<EntryModel> {
    let title = format_title(item.name);
    let recognized = options.detect_format_by_content && (item.header matches Some(header)
        && crate::registry::format_of_content(header) is Some);
    if !item.is_file || (options.skip_hidden && item.hidden) || is_metadata_name(item.name) || (
    title is None && !recognized) {
        None
    } else {
        Some(
            EntryModel {
                location: Place::File(item.path),
                name_rank: item.name_rank,
                file_size: item.file_size,
                modified: time_or_epoch(item.modified),
                created: time_or_epoch(item.created),
                format_name: match title {
                    Some(name) => name,
                    None => ""@,
                },
                weight: DecodedWeight::Unknown,
            },
        )
    }
}

/// The entries these folder items list, in folder order.
pub open spec fn folder_entries(items: Seq<FolderItemModel>, options: CoreOptions) -> Seq<EntryModel>
    decreases items.len(),
{
    if items.len() == 0 {
        Seq::empty()
    } else {
        match folder_entry(items.last(), options) {
            Some(entry) => folder_entries(items.drop_last(), options).push(entry),
            None => folder_entries(items.drop_last(), options),
        }
    }
}

pub open spec fn item_models(items: Seq<FolderItem>) -> Seq<FolderItemModel> {
    items.map_values(|item: FolderItem| item@)
}

fn format_title_of(name: &FilePath) -> (title: Option<&'static str>)
    ensures
        match title {
            Some(text) => format_title(name@) == Some(text@),
            None => format_title(name@) is None,
        },
{
    match name.extension_lowercase() {
        Some(extension) => match format_for_extension(&extension) {
            Some(format) => Some(format.name()),
            None => None,
        },
        None => None,
    }
}

fn entry_of_item(item: &FolderItem, options: &CoreOptions) -> (entry: Option<ListingEntry>)
    ensures
        match entry {
            Some(found) => folder_entry(item@, *options) == Some(found@),
            None => folder_entry(item@, *options) is None,
        },
{
    if !item.is_file || (options.skip_hidden && item.hidden) {
        return None;
    }
    if item.name.units.len() >= 2 && item.name.units[0] == 0x2E && item.name.units[1] == 0x5F {
        return None;
    }
    let title = format_title_of(&item.name);
    let recognized: bool = if options.detect_format_by_content {
        match &item.header {
            Some(header) => crate::registry::descriptor_for_content(header).is_some(),
            None => false,
        }
    } else {
        false
    };
    if title.is_none() && !recognized {
        return None;
    }
    let entry = ListingEntry {
        location: ItemLocation::File(item.path.clone()),
        name_rank: item.name_rank,
        file_size: item.file_size,
        modified: match item.modified {
            Some(time) => time,
            None => FILETIME_UNIX_EPOCH,
        },
        created: match item.created {
            Some(time) => time,
            None => FILETIME_UNIX_EPOCH,
        },
        format_name: match title {
            Some(name) => name,
            None => "",
        },
        weight: DecodedWeight::Unknown,
    };
    Some(entry)
}

/// The images among the items of a folder.
pub fn scan_folder(items: &Vec<FolderItem>, options: &CoreOptions) -> (entries: Vec<ListingEntry>)
    ensures
        listing::entry_models(entries@) == folder_entries(item_models(items@), *options),
{
    let ghost models = item_models(items@);
    let mut entries: Vec<ListingEntry> = Vec::new();
    let mut index: usize = 0;
    while index < items.len()
        invariant
            models == item_models(items@),
            index <= items.len(),
            listing::entry_models(entries@) == folder_entries(models.take(index as int), *options),
        decreases items.len() - index,
    {
        let ghost before = entries@;
        assert(models.take(index + 1).drop_last() =~= models.take(index as int));
        assert(models[index as int] == items@[index as int]@);
        if let Some(entry) = entry_of_item(&items[index], options) {
            entries.push(entry);
            assert(listing::entry_models(entries@) =~= listing::entry_models(before).push(entry@));
        }
        index += 1;
    }
    assert(models.take(index as int) =~= models);
    entries
}

/// The entry an archive member lists: image members alone. Archives do not record creation times.
pub open spec fn entry_of_member(
    archive: Seq<u16>,
    member: crate::archive::MemberModel,
    name_rank: u64,
) -> Option<EntryModel> {
    match crate::path::extension(crate::text::wide(member.name)) {
        Some(extension) => match crate::registry::format_of_extension(extension) {
            Some(format) => Some(
                EntryModel {
                    location: Place::ArchiveMember { archive, member: member.name },
                    name_rank,
                    file_size: member.size,
                    modified: member.modified,
                    created: member.modified,
                    format_name: format.title(),
                    weight: DecodedWeight::Unknown,
                },
            ),
            None => None,
        },
        None => None,
    }
}

/// Entry for an image member; other member types drop out of the listing.
pub fn member_entry(archive: &FilePath, member: &MemberInfo, name_rank: u64) -> (entry: Option<
    ListingEntry,
>)
    ensures
        match entry {
            Some(found) => entry_of_member(archive@, member@, name_rank) == Some(found@),
            None => entry_of_member(archive@, member@, name_rank) is None,
        },
{
    let location = ItemLocation::ArchiveMember {
        archive: archive.clone(),
        member: member.name.clone(),
    };
    match location.extension_lowercase() {
        Some(extension) => match format_for_extension(&extension) {
            Some(format) => Some(
                ListingEntry {
                    location,
                    name_rank,
                    file_size: member.size,
                    modified: member.modified,
                    created: member.modified,
                    format_name: format.name(),
                    weight: DecodedWeight::Unknown,
                },
            ),
            None => None,
        },
        None => None,
    }
}

/// The entries these members list, in archive order.
pub open spec fn member_entries(
    archive: Seq<u16>,
    members: Seq<crate::archive::MemberModel>,
    ranks: Seq<u64>,
) -> Seq<EntryModel>
    decreases members.len(),
{
    if members.len() == 0 {
        Seq::empty()
    } else {
        let rest = member_entries(archive, members.drop_last(), ranks);
        match entry_of_member(archive, members.last(), ranks[members.len() - 1]) {
            Some(entry) => rest.push(entry),
            None => rest,
        }
    }
}

/// Image members of an archive, sorted; an archive without one is an error, not a listing. `ranks`
/// places each member's name in the natural order of all of them.
pub fn enumerate_archive(
    archive: &FilePath,
    members: Result<Vec<MemberInfo>, ArchiveError>,
    ranks: &Vec<u64>,
    options: &CoreOptions,
) -> (listed: Result<Vec<ListingEntry>, DecodeError>)
    requires
        members matches Ok(list) ==> list@.len() == ranks@.len(),
    ensures
        match (members, listed) {
            (Err(error), Err(reported)) => reported@ == crate::archive::archive_decode_error(error@),
            (Ok(list), Err(reported)) => member_entries(
                archive@,
                archive::member_models(list@),
                ranks@,
            ).len() == 0 && reported@ == crate::image::uncoded(
                "Archive contains no supported images"@,
            ),
            (Ok(list), Ok(entries)) => {
                let found = member_entries(archive@, archive::member_models(list@), ranks@);
                found.len() > 0 && listing::entry_models(entries@) == listing::arranged(found, *options)
            },
            (Err(_), Ok(_)) => false,
        },
{
    match members {
        Err(error) => Err(decode_error_from_archive(error)),
        Ok(list) => {
            let ghost models = archive::member_models(list@);
            let mut entries: Vec<ListingEntry> = Vec::new();
            let mut index: usize = 0;
            while index < list.len()
                invariant
                    models == archive::member_models(list@),
                    list@.len() == ranks@.len(),
                    index <= list.len(),
                    listing::entry_models(entries@) == member_entries(
                        archive@,
                        models.take(index as int),
                        ranks@,
                    ),
                decreases list.len() - index,
            {
                let ghost before = entries@;
                assert(models.take(index + 1).drop_last() =~= models.take(index as int));
                assert(models[index as int] == list@[index as int]@);
                if let Some(entry) = member_entry(archive, &list[index], ranks[index]) {
                    entries.push(entry);
                    assert(listing::entry_models(entries@) =~= listing::entry_models(before).push(entry@));
                }
                index += 1;
            }
            assert(models.take(index as int) =~= models);
            assert(listing::entry_models(entries@).len() == entries@.len());
            if entries.len() == 0 {
                return Err(uncoded_error("Archive contains no supported images"));
            }
            Ok(sort_entries(entries, options))
        },
    }
}

/// What enumerating a scope found.
pub enum ScanFound {
    /// A folder's items, none where it could not be read.
    Folder(Vec<FolderItem>),
    /// An archive's members and the ranks of their names.
    Archive(Result<Vec<MemberInfo>, ArchiveError>, Vec<u64>),
}

/// A finished background scan.
pub struct ScannedListing {
    pub scope: ListingScope,
    pub sort_mode: SortMode,
    pub sort_descending: bool,
    /// Directories always land Ok; archives can fail to enumerate or hold no images.
    pub result: Result<Vec<ListingEntry>, DecodeError>,
}

/// What a scan brought.
pub enum ScanModel {
    Listed(Seq<EntryModel>),
    Failed(crate::image::ErrorModel),
}

pub open spec fn scan_model(result: Result<Vec<ListingEntry>, DecodeError>) -> ScanModel {
    match result {
        Ok(entries) => ScanModel::Listed(listing::entry_models(entries@)),
        Err(error) => ScanModel::Failed(error@),
    }
}

/// What a scan of a scope brings: a folder sorts what it lists, an archive may fail.
pub open spec fn scanned(scope: ScopeModel, options: CoreOptions, found: ScanFound) -> ScanModel {
    match found {
        ScanFound::Folder(items) => ScanModel::Listed(
            listing::arranged(folder_entries(item_models(items@), options), options),
        ),
        ScanFound::Archive(Err(error), ranks) => ScanModel::Failed(
            crate::archive::archive_decode_error(error@),
        ),
        ScanFound::Archive(Ok(list), ranks) => {
            let entries = member_entries(scope.path(), archive::member_models(list@), ranks@);
            if entries.len() == 0 {
                ScanModel::Failed(crate::image::uncoded("Archive contains no supported images"@))
            } else {
                ScanModel::Listed(listing::arranged(entries, options))
            }
        },
    }
}

impl ScannedListing {
    /// Sorts what enumerating the scope found: the worker half of a scan.
    pub fn of(scope: ListingScope, options: &CoreOptions, found: ScanFound) -> (scan: Self)
        requires
            found matches ScanFound::Archive(Ok(list), ranks) ==> list@.len() == ranks@.len(),
        ensures
            scan.scope == scope,
            scan.sort_mode == options.sort_mode,
            scan.sort_descending == options.sort_descending,
            scan_model(scan.result) == scanned(scope@, *options, found),
    {
        let result = match found {
            ScanFound::Folder(items) => Ok(sort_entries(scan_folder(&items, options), options)),
            ScanFound::Archive(members, ranks) => enumerate_archive(
                scope.path(),
                members,
                &ranks,
                options,
            ),
        };
        ScannedListing {
            scope,
            sort_mode: options.sort_mode,
            sort_descending: options.sort_descending,
            result,
        }
    }
}

/// A time so many nanoseconds after the UNIX epoch, or before it, in whole 100 ns intervals from 1601;
/// none out of range.
pub open spec fn intervals(after_epoch: bool, nanoseconds: int) -> Option<u64> {
    let count = if after_epoch {
        FILETIME_UNIX_EPOCH + nanoseconds / 100
    } else {
        FILETIME_UNIX_EPOCH - nanoseconds / 100
    };
    if 0 <= count <= u64::MAX {
        Some(count as u64)
    } else {
        None
    }
}

pub fn file_time(after_epoch: bool, nanoseconds: u128) -> (time: Option<u64>)
    ensures
        time == intervals(after_epoch, nanoseconds as int),
{
    let distance: u128 = nanoseconds / 100;
    if after_epoch {
        if distance <= (u64::MAX - FILETIME_UNIX_EPOCH) as u128 {
            Some(FILETIME_UNIX_EPOCH + distance as u64)
        } else {
            None
        }
    } else if distance <= FILETIME_UNIX_EPOCH as u128 {
        Some(FILETIME_UNIX_EPOCH - distance as u64)
    } else {
        None
    }
}

/// A later time has no fewer intervals.
pub proof fn lemma_file_times_keep_order(
    first_after: bool,
    first: int,
    second_after: bool,
    second: int,
)
    requires
        0 <= first,
        0 <= second,
        if first_after {
            second_after && first <= second
        } else {
            second_after || second <= first
        },
        intervals(first_after, first) is Some,
        intervals(second_after, second) is Some,
    ensures
        intervals(first_after, first)->0 <= intervals(second_after, second)->0,
{
}

} // verus!
