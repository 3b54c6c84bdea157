//! Read-only archive access: which members list, and what may be extracted.

use vstd::prelude::*;

use crate::image::DecodeError;
use crate::path::FilePath;
use crate::strings::{is_blank, same_text};

verus! {

/// Archive extensions in lower case, each with the group it belongs to.
pub const ARCHIVE_EXTENSIONS: [(&'static str, &'static str); 8] = [
    ("zip", "Archive"),
    ("7z", "Archive"),
    ("rar", "Archive"),
    ("tar", "Archive"),
    ("cbz", "Comic Book Archive"),
    ("cbr", "Comic Book Archive"),
    ("cb7", "Comic Book Archive"),
    ("cbt", "Comic Book Archive"),
];

/// Uncompressed per-member ceiling; guards against members that expand without end.
pub const MAXIMUM_MEMBER_BYTES: u64 = 1073741824;

/// The bits of a file mode that tell the kind of file.
pub const FILETYPE_MASK: u32 = 0o170000;

/// A regular file.
pub const FILETYPE_REGULAR: u32 = 0o100000;

/// 100 ns intervals from 1601-01-01 to the UNIX epoch.
pub const FILETIME_UNIX_EPOCH: u64 = 116_444_736_000_000_000;

/// Whether an extension in lower case is that of an archive.
pub open spec fn lists_archive(extension: Seq<char>) -> bool {
    exists|row: int|
        0 <= row < ARCHIVE_EXTENSIONS@.len() && (#[trigger] ARCHIVE_EXTENSIONS@[row]).0@
            == extension
}

/// The extension groups, parallel to those of the image formats.
pub fn format_groups() -> (groups: Vec<(&'static str, Vec<&'static str>)>)
    ensures
        groups@.len() == 2,
        groups@[0].0@ == "Archive"@,
        crate::strings::texts(groups@[0].1@) == seq!["zip"@, "7z"@, "rar"@, "tar"@],
        groups@[1].0@ == "Comic Book Archive"@,
        crate::strings::texts(groups@[1].1@) == seq!["cbz"@, "cbr"@, "cb7"@, "cbt"@],
{
    let archives = vec!["zip", "7z", "rar", "tar"];
    let comics = vec!["cbz", "cbr", "cb7", "cbt"];
    assert(crate::strings::texts(archives@) =~= seq!["zip"@, "7z"@, "rar"@, "tar"@]);
    assert(crate::strings::texts(comics@) =~= seq!["cbz"@, "cbr"@, "cb7"@, "cbt"@]);
    let mut groups: Vec<(&'static str, Vec<&'static str>)> = Vec::new();
    groups.push(("Archive", archives));
    groups.push(("Comic Book Archive", comics));
    groups
}

/// Every archive extension, in group order.
pub fn supported_extensions() -> (list: Vec<&'static str>)
    ensures
        list@.len() == ARCHIVE_EXTENSIONS@.len(),
        forall|row: int|
            0 <= row < list@.len() ==> (#[trigger] list@[row])@ == ARCHIVE_EXTENSIONS@[row].0@,
{
    let mut list: Vec<&'static str> = Vec::new();
    let mut row: usize = 0;
    while row < ARCHIVE_EXTENSIONS.len()
        invariant
            row <= ARCHIVE_EXTENSIONS@.len(),
            list@.len() == row,
            forall|earlier: int|
                0 <= earlier < row ==> (#[trigger] list@[earlier])@
                    == ARCHIVE_EXTENSIONS@[earlier].0@,
        decreases ARCHIVE_EXTENSIONS@.len() - row,
    {
        list.push(ARCHIVE_EXTENSIONS[row].0);
        row += 1;
    }
    list
}

pub fn is_archive_extension(extension: &str) -> (archive: bool)
    ensures
        archive == lists_archive(extension@),
{
    let mut row: usize = 0;
    while row < ARCHIVE_EXTENSIONS.len()
        invariant
            row <= ARCHIVE_EXTENSIONS@.len(),
            forall|earlier: int|
                0 <= earlier < row ==> (#[trigger] ARCHIVE_EXTENSIONS@[earlier]).0@ != extension@,
        decreases ARCHIVE_EXTENSIONS@.len() - row,
    {
        if same_text(ARCHIVE_EXTENSIONS[row].0, extension) {
            assert(ARCHIVE_EXTENSIONS@[row as int].0@ == extension@);
            return true;
        }
        row += 1;
    }
    false
}

/// A path whose extension is that of an archive.
pub open spec fn is_archive_path(path: Seq<u16>) -> bool {
    crate::path::extension(path) matches Some(extension) && lists_archive(extension)
}

/// A URL whose last segment has the extension of an archive.
pub open spec fn is_archive_url(url: Seq<char>) -> bool {
    crate::path::extension_of_name(crate::url::url_name(url)) matches Some(extension)
        && lists_archive(extension)
}

pub fn path_is_archive(path: &FilePath) -> (archive: bool)
    ensures
        archive == is_archive_path(path@),
{
    match path.extension_lowercase() {
        Some(extension) => is_archive_extension(&extension),
        None => false,
    }
}

pub fn url_is_archive(url: &str) -> (archive: bool)
    ensures
        archive == is_archive_url(url@),
{
    match crate::url::extension_lowercase(url) {
        Some(extension) => is_archive_extension(&extension),
        None => false,
    }
}

pub struct MemberInfo {
    /// Path inside the archive, slashes as stored.
    pub name: String,
    /// Uncompressed size; 0 when the header does not declare one.
    pub size: u64,
    /// 100 ns intervals from 1601.
    pub modified: u64,
}

#[verifier::ext_equal]
pub struct MemberModel {
    pub name: Seq<char>,
    pub size: u64,
    pub modified: u64,
}

impl View for MemberInfo {
    type V = MemberModel;

    open spec fn view(&self) -> MemberModel {
        MemberModel { name: self.name@, size: self.size, modified: self.modified }
    }
}

pub struct ArchiveError {
    pub message: String,
    pub code: i32,
    pub cancelled: bool,
}

#[verifier::ext_equal]
pub struct ArchiveErrorModel {
    pub message: Seq<char>,
    pub code: i32,
    pub cancelled: bool,
}

impl View for ArchiveError {
    type V = ArchiveErrorModel;

    open spec fn view(&self) -> ArchiveErrorModel {
        ArchiveErrorModel { message: self.message@, code: self.code, cancelled: self.cancelled }
    }
}

/// An archive error of the viewer's own: no code, not a cancellation.
pub open spec fn plain_error(message: Seq<char>) -> ArchiveErrorModel {
    ArchiveErrorModel { message, code: 0, cancelled: false }
}

impl ArchiveError {
    pub fn new(message: &str) -> (error: Self)
        ensures
            error@ == plain_error(message@),
    {
        ArchiveError { message: message.to_owned(), code: 0, cancelled: false }
    }

    pub fn cancelled() -> (error: Self)
        ensures
            error@ == (ArchiveErrorModel { message: "cancelled"@, code: 0, cancelled: true }),
    {
        ArchiveError { message: "cancelled".to_owned(), code: 0, cancelled: true }
    }

    /// What the reader reports: its own text, the fallback where it has none to show.
    pub fn reported(text: Option<&str>, code: i32, fallback: &str) -> (error: Self)
        ensures
            error@ == (ArchiveErrorModel {
                message: match text {
                    Some(shown) => if crate::strings::blank(shown@) {
                        fallback@
                    } else {
                        shown@
                    },
                    None => fallback@,
                },
                code,
                cancelled: false,
            }),
    {
        let message = match text {
            Some(shown) => if is_blank(shown) {
                fallback.to_owned()
            } else {
                shown.to_owned()
            },
            None => fallback.to_owned(),
        };
        ArchiveError { message, code, cancelled: false }
    }
}

/// The decode error an archive error turns into: a cancellation stays one.
pub open spec fn archive_decode_error(error: ArchiveErrorModel) -> crate::image::ErrorModel {
    if error.cancelled {
        crate::image::cancelled_error()
    } else {
        crate::image::ErrorModel {
            code: error.code,
            message: error.message,
            store_codec_names: Seq::empty(),
        }
    }
}

pub fn decode_error_from_archive(error: ArchiveError) -> (reported: DecodeError)
    ensures
        reported@ == archive_decode_error(error@),
{
    if error.cancelled {
        DecodeError::cancelled()
    } else {
        let reported = DecodeError {
            code: error.code,
            message: error.message,
            store_codec_names: Vec::new(),
        };
        assert(reported@ =~= archive_decode_error(error@));
        reported
    }
}

/// What the header of one archive entry declares.
pub struct EntryHeader {
    pub name: Option<String>,
    pub filetype: u32,
    pub metadata_encrypted: bool,
    pub data_encrypted: bool,
    pub size: Option<i64>,
    pub modified_seconds: i64,
}

#[verifier::ext_equal]
pub struct HeaderModel {
    pub name: Option<Seq<char>>,
    pub filetype: u32,
    pub metadata_encrypted: bool,
    pub data_encrypted: bool,
    pub size: Option<i64>,
    pub modified_seconds: i64,
}

impl View for EntryHeader {
    type V = HeaderModel;

    open spec fn view(&self) -> HeaderModel {
        HeaderModel {
            name: crate::image::optional_text(self.name),
            filetype: self.filetype,
            metadata_encrypted: self.metadata_encrypted,
            data_encrypted: self.data_encrypted,
            size: self.size,
            modified_seconds: self.modified_seconds,
        }
    }
}

/// A declared size, never negative.
pub open spec fn declared_bytes(size: Option<i64>) -> u64 {
    match size {
        Some(bytes) => if bytes < 0 {
            0
        } else {
            bytes as u64
        },
        None => 0,
    }
}

/// Seconds after the UNIX epoch in 100 ns intervals from 1601; the end of the range where they run
/// past it, and the epoch for a time before it.
pub open spec fn member_time(seconds: i64) -> u64 {
    let elapsed: int = if seconds < 0 {
        0
    } else {
        seconds as int
    };
    if FILETIME_UNIX_EPOCH + elapsed * 10_000_000 <= u64::MAX {
        (FILETIME_UNIX_EPOCH + elapsed * 10_000_000) as u64
    } else {
        u64::MAX
    }
}

fn member_time_of(seconds: i64) -> (time: u64)
    ensures
        time == member_time(seconds),
{
    if seconds <= 0 {
        return FILETIME_UNIX_EPOCH;
    }
    let intervals: u128 = FILETIME_UNIX_EPOCH as u128 + seconds as u128 * 10_000_000;
    if intervals <= u64::MAX as u128 {
        intervals as u64
    } else {
        u64::MAX
    }
}

/// The member a header lists: a regular file that is not encrypted and has a name.
pub open spec fn listed_member(header: HeaderModel) -> Option<MemberModel> {
    if header.filetype & FILETYPE_MASK != FILETYPE_REGULAR || header.data_encrypted {
        None
    } else {
        match header.name {
            Some(name) => Some(
                MemberModel {
                    name,
                    size: declared_bytes(header.size),
                    modified: member_time(header.modified_seconds),
                },
            ),
            None => None,
        }
    }
}

/// The members these headers list, in archive order.
pub open spec fn listed_members(headers: Seq<HeaderModel>) -> Seq<MemberModel>
    decreases headers.len(),
{
    if headers.len() == 0 {
        Seq::empty()
    } else {
        match listed_member(headers.last()) {
            Some(member) => listed_members(headers.drop_last()).push(member),
            None => listed_members(headers.drop_last()),
        }
    }
}

pub open spec fn header_models(headers: Seq<EntryHeader>) -> Seq<HeaderModel> {
    headers.map_values(|header: EntryHeader| header@)
}

pub open spec fn member_models(members: Seq<MemberInfo>) -> Seq<MemberModel> {
    members.map_values(|member: MemberInfo| member@)
}

/// Some header hides its metadata.
pub open spec fn hides_metadata(headers: Seq<HeaderModel>) -> bool {
    exists|index: int| 0 <= index < headers.len() && (#[trigger] headers[index]).metadata_encrypted
}

/// Lists regular-file members; skips encrypted ones, fails on encrypted metadata. `failure` is what
/// ended the headers before the end of the archive, if anything did.
pub fn enumerate(headers: &Vec<EntryHeader>, failure: Option<ArchiveError>) -> (members: Result<
    Vec<MemberInfo>,
    ArchiveError,
>)
    ensures
        match members {
            Ok(list) => !hides_metadata(header_models(headers@)) && failure is None
                && member_models(list@) == listed_members(header_models(headers@)),
            Err(error) => if hides_metadata(header_models(headers@)) {
                error@ == plain_error("archive metadata is encrypted"@)
            } else {
                failure == Some(error)
            },
        },
{
    let ghost models = header_models(headers@);
    let mut members: Vec<MemberInfo> = Vec::new();
    let mut index: usize = 0;
    while index < headers.len()
        invariant
            models == header_models(headers@),
            index <= headers.len(),
            forall|earlier: int|
                0 <= earlier < index ==> !(#[trigger] models[earlier]).metadata_encrypted,
            member_models(members@) == listed_members(models.take(index as int)),
        decreases headers.len() - index,
    {
        let header = &headers[index];
        assert(models[index as int] == header@);
        if header.metadata_encrypted {
            assert(hides_metadata(models));
            return Err(ArchiveError::new("archive metadata is encrypted"));
        }
        let ghost before = members@;
        assert(models.take(index + 1).drop_last() =~= models.take(index as int));
        if header.filetype & FILETYPE_MASK == FILETYPE_REGULAR && !header.data_encrypted {
            if let Some(name) = &header.name {
                let size: u64 = match header.size {
                    Some(bytes) => if bytes < 0 {
                        0
                    } else {
                        bytes as u64
                    },
                    None => 0,
                };
                let member = MemberInfo {
                    name: name.clone(),
                    size,
                    modified: member_time_of(header.modified_seconds),
                };
                members.push(member);
                assert(member_models(members@) =~= member_models(before).push(member@));
            }
        }
        index += 1;
    }
    assert(models.take(index as int) =~= models);
    match failure {
        Some(error) => Err(error),
        None => Ok(members),
    }
}

/// What to do with an entry while looking for one member.
pub enum MemberVerdict {
    /// Another member; its data is skipped.
    Skip,
    Refuse(ArchiveError),
    /// The member: its data is read, of this declared size.
    Read(Option<u64>),
}

/// The declared size of a member, none where the header declares none.
pub open spec fn declared_size(size: Option<i64>) -> Option<u64> {
    match size {
        Some(_) => Some(declared_bytes(size)),
        None => None,
    }
}

/// Whether this entry is the member asked for, and whether it may be extracted.
pub fn member_verdict(header: &EntryHeader, member_name: &str) -> (verdict: MemberVerdict)
    ensures
        match verdict {
            MemberVerdict::Skip => header@.name != Some(member_name@),
            MemberVerdict::Refuse(error) => header@.name == Some(member_name@) && (
            if header.data_encrypted {
                error@ == plain_error("archive member is encrypted"@)
            } else {
                declared_bytes(header.size) > MAXIMUM_MEMBER_BYTES && error@ == plain_error(
                    "archive member exceeds the 1 GiB limit"@,
                )
            }),
            MemberVerdict::Read(size) => header@.name == Some(member_name@)
                && !header.data_encrypted && declared_bytes(header.size) <= MAXIMUM_MEMBER_BYTES
                && size == declared_size(header.size),
        },
{
    let named: bool = match &header.name {
        Some(name) => same_text(name, member_name),
        None => false,
    };
    if !named {
        return MemberVerdict::Skip;
    }
    if header.data_encrypted {
        return MemberVerdict::Refuse(ArchiveError::new("archive member is encrypted"));
    }
    let size: Option<u64> = match header.size {
        Some(bytes) => Some(
            if bytes < 0 {
                0
            } else {
                bytes as u64
            },
        ),
        None => None,
    };
    if let Some(bytes) = size {
        if bytes > MAXIMUM_MEMBER_BYTES {
            return MemberVerdict::Refuse(
                ArchiveError::new("archive member exceeds the 1 GiB limit"),
            );
        }
    }
    MemberVerdict::Read(size)
}

/// No entry of the archive was the member asked for.
pub fn missing_member() -> (error: ArchiveError)
    ensures
        error@ == plain_error("member no longer exists in the archive"@),
{
    ArchiveError::new("member no longer exists in the archive")
}

/// What the next block read of a member's data leads to.
pub enum BlockStep {
    /// The data goes on.
    Continue,
    /// The data is complete.
    Complete,
    Stop(ArchiveError),
}

/// Takes one block read: `read` is how many bytes the reader says it put into the block, negative
/// for a failure that `failure` then describes.
pub fn take_block(
    data: &mut Vec<u8>,
    cancelled: bool,
    read: i64,
    block: &[u8],
    failure: ArchiveError,
) -> (step: BlockStep)
    requires
        read <= block.len(),
    ensures
        match step {
            BlockStep::Stop(error) => final(data)@ == old(data)@ && (if cancelled {
                error@ == (ArchiveErrorModel { message: "cancelled"@, code: 0, cancelled: true })
            } else if read < 0 {
                error == failure
            } else {
                read > 0 && old(data)@.len() + read > MAXIMUM_MEMBER_BYTES && error@
                    == plain_error("archive member exceeds the 1 GiB limit"@)
            }),
            BlockStep::Complete => !cancelled && read == 0 && final(data)@ == old(data)@,
            BlockStep::Continue => !cancelled && read > 0 && old(data)@.len() + read
                <= MAXIMUM_MEMBER_BYTES && final(data)@ == old(data)@ + block@.take(read as int),
        },
        old(data)@.len() <= MAXIMUM_MEMBER_BYTES ==> final(data)@.len() <= MAXIMUM_MEMBER_BYTES,
{
    if cancelled {
        return BlockStep::Stop(ArchiveError::cancelled());
    }
    if read == 0 {
        return BlockStep::Complete;
    }
    if read < 0 {
        return BlockStep::Stop(failure);
    }
    if data.len() as u128 + read as u128 > MAXIMUM_MEMBER_BYTES as u128 {
        return BlockStep::Stop(ArchiveError::new("archive member exceeds the 1 GiB limit"));
    }
    let part = vstd::slice::slice_subrange(block, 0, read as usize);
    data.extend_from_slice(part);
    assert(data@ =~= old(data)@ + block@.take(read as int));
    BlockStep::Continue
}

} // verus!
