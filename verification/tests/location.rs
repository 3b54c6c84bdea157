use riv::archive::MemberInfo;
use riv::listing::ListingEntry;
use riv::location::ItemLocation;
use riv::path::FilePath;
use riv::scan::member_entry;
use std::collections::HashMap;

fn file(path: &str) -> ItemLocation {
    ItemLocation::File(FilePath::from_text(path))
}

fn member(archive: &str, member: &str) -> ItemLocation {
    ItemLocation::ArchiveMember {
        archive: FilePath::from_text(archive),
        member: member.to_string(),
    }
}

fn url(text: &str) -> ItemLocation {
    ItemLocation::Url(text.to_string())
}

fn listed_member(name: &str, size: u64) -> Option<ListingEntry> {
    member_entry(
        &FilePath::from_text("C:\\a.cbz"),
        &MemberInfo {
            name: name.to_string(),
            size,
            modified: 0,
        },
        0,
    )
}

#[test]
fn member_display_name_takes_the_basename() {
    assert_eq!(member("C:\\a.cbz", "art/01.png").display_name(), "01.png");
    assert_eq!(member("C:\\a.cbz", "art\\02.png").display_name(), "02.png");
    assert_eq!(member("C:\\a.cbz", "03.png").display_name(), "03.png");
}

#[test]
fn a_member_is_named_as_a_path_is() {
    assert!(listed_member("pic.png/", 1).is_some());
    assert!(listed_member("art/pic.png/.", 1).is_some());
    assert!(listed_member("art.png/pic", 1).is_none());
    assert_eq!(
        member("C:\\a.cbz", "pic.PNG\\").extension_lowercase().as_deref(),
        Some("png")
    );
}

#[test]
fn member_display_text_joins_archive_and_member() {
    assert_eq!(
        member("C:\\a.cbz", "art/01.png").display_text(),
        "C:\\a.cbz › art/01.png"
    );
}

#[test]
fn folder_name_takes_the_parent_folder_leaf() {
    let folder = file("C:\\photos\\vacation\\img.png").folder_name();
    assert_eq!(folder.as_deref(), Some("vacation"));
    // A file at the drive root has no folder to show; URLs never do.
    assert_eq!(file("C:\\img.png").folder_name(), None);
    let url = ItemLocation::Url("https://example.com/img.png".to_string());
    assert_eq!(url.folder_name(), None);
}

#[test]
fn member_folder_name_is_the_parent_inside_the_archive() {
    let folder = |member_path: &str| member("C:\\a.cbz", member_path).folder_name();
    assert_eq!(folder("albums/2024/img.png").as_deref(), Some("2024"));
    assert_eq!(folder("albums\\img.png").as_deref(), Some("albums"));
    // A root member falls back to the archive's own name.
    assert_eq!(folder("img.png").as_deref(), Some("a.cbz"));
}

#[test]
fn locations_compare_with_windows_path_semantics() {
    assert!(file("C:\\A.PNG") == file("c:\\a.png"));
    assert!(member("C:\\A.CBZ", "01.png") == member("c:\\a.cbz", "01.png"));
    // Member names stay exact: archives distinguish case.
    assert!(member("C:\\a.cbz", "01.PNG") != member("C:\\a.cbz", "01.png"));
    assert!(file("C:\\a.cbz") != member("C:\\a.cbz", "01.png"));
}

#[test]
fn locations_hash_consistently_with_equality() {
    let mut cache = HashMap::new();
    cache.insert(file("c:\\photos\\A.PNG"), "decoded");
    // A listing entry carries the on-disk casing; the cache must still hit.
    assert_eq!(cache.get(&file("C:\\Photos\\a.png")), Some(&"decoded"));
    cache.insert(file("C:\\Photos\\a.png"), "again");
    assert_eq!(cache.len(), 1); // one file, one key

    let mut members = HashMap::new();
    members.insert(member("C:\\A.CBZ", "art/01.png"), "decoded");
    assert_eq!(
        members.get(&member("c:\\a.cbz", "art/01.png")),
        Some(&"decoded")
    );
    assert_eq!(members.get(&member("C:\\A.CBZ", "art/01.PNG")), None);
}

/// Names Windows allows but Unicode does not; the file system tells them apart, so riv does too.
#[test]
fn names_with_a_lone_surrogate_stay_apart() {
    let name = |code_unit: u16| {
        ItemLocation::File(FilePath {
            units: vec![0x0061, code_unit, 0x002E, 0x0070, 0x006E, 0x0067],
        })
    };
    assert!(name(0xD800) != name(0xD801));
    let mut cache = HashMap::new();
    cache.insert(name(0xD800), "decoded");
    assert_eq!(cache.get(&name(0xD801)), None);
    assert_eq!(cache.get(&name(0xD800)), Some(&"decoded"));
}

#[test]
fn member_extension_resolves_format_names() {
    assert_eq!(
        listed_member("art/01.png", 0).map(|entry| entry.format_name),
        Some("PNG")
    );
    assert!(listed_member("readme.txt", 0).is_none());
}

#[test]
fn url_locations_stand_alone() {
    let location = url("https://a.com/b/c.png?width=1");
    assert_eq!(location.display_name(), "c.png");
    assert_eq!(location.display_text(), "https://a.com/b/c.png?width=1");
    assert!(location.containing_file().is_none());
    assert!(location.as_file().is_none());
    assert_eq!(location.extension_lowercase().as_deref(), Some("png"));
    // URLs compare exactly; remote paths are case-sensitive.
    assert!(location == url("https://a.com/b/c.png?width=1"));
    assert!(location != url("https://a.com/b/C.png?width=1"));
    assert!(location != file("https://a.com/b/c.png?width=1"));
    let mut cache = HashMap::new();
    cache.insert(location, "decoded");
    assert_eq!(
        cache.get(&url("https://a.com/b/c.png?width=1")),
        Some(&"decoded")
    );
}

#[test]
fn member_entries_keep_images_only() {
    assert!(listed_member("art/01.png", 10).is_some());
    assert!(listed_member("info.txt", 10).is_none());
    assert!(listed_member("no_extension", 10).is_none());
    let entry = listed_member("art/01.png", 10).expect("image member");
    assert_eq!(entry.created, entry.modified); // archives have no creation time
    assert_eq!(entry.file_size, 10);
}

#[test]
fn an_unpaired_surrogate_shows_as_the_replacement_character() {
    let path = FilePath {
        units: vec![0x0061, 0xD800, 0x0062],
    };
    assert_eq!(path.display(), "a\u{FFFD}b");
    assert_eq!(FilePath::from_text("a\u{1F600}b").units.len(), 4);
    assert_eq!(FilePath::from_text("a\u{1F600}b").display(), "a\u{1F600}b");
}

#[test]
fn paths_give_their_parts() {
    let path = FilePath::from_text("C:\\Photos\\Trip\\One.JPG");
    assert_eq!(path.file_name().as_deref(), Some("One.JPG"));
    assert_eq!(path.parent_name().as_deref(), Some("Trip"));
    assert_eq!(path.extension_lowercase().as_deref(), Some("jpg"));
    let folder = path.parent().expect("parent");
    assert_eq!(folder.display(), "C:\\Photos\\Trip");
    assert!(folder.same_path(&FilePath::from_text("c:\\photos\\TRIP")));
    assert!(!folder.same_path(&FilePath::from_text("C:\\Photos")));
    assert!(FilePath::from_text(".hidden").extension_lowercase().is_none());
}

#[test]
fn the_identity_key_is_the_item() {
    assert_eq!(
        file("C:\\A.PNG").identity_key(),
        file("c:\\a.png").identity_key()
    );
    assert_ne!(file("a").identity_key(), url("a").identity_key());
    assert_ne!(
        member("C:\\a.cbz", "b").identity_key(),
        member("C:\\a.cb", "zb").identity_key()
    );
}

/// The name, the folder's name and the folder of a path.
fn pieces(path: &str) -> (Option<String>, Option<String>, Option<String>) {
    let path = FilePath::from_text(path);
    (
        path.file_name(),
        path.parent_name(),
        path.parent().map(|folder| folder.display()),
    )
}

fn some(
    name: &str,
    folder: Option<&str>,
    parent: &str,
) -> (Option<String>, Option<String>, Option<String>) {
    (
        Some(name.to_string()),
        folder.map(str::to_string),
        Some(parent.to_string()),
    )
}

#[test]
fn a_verbatim_path_is_separated_by_backslashes_alone() {
    assert_eq!(pieces(r"\\?\C:\a/b"), some("a/b", None, r"\\?\C:\"));
    assert_eq!(pieces(r"\\?\C:\a\b"), some("b", Some("a"), r"\\?\C:\a"));
    assert_eq!(
        pieces(r"\\?\C:\a\."),
        (None, Some("a".to_string()), Some(r"\\?\C:\a".to_string()))
    );
    assert_eq!(
        pieces(r"\\?\UNC\server\share\a\b"),
        some("b", Some("a"), r"\\?\UNC\server\share\a")
    );
    // Written with slashes, the question mark is a server like any other.
    assert_eq!(pieces("//?/UNC/a/b"), some("b", Some("a"), "//?/UNC/a"));
}

#[test]
fn a_share_is_a_prefix() {
    assert_eq!(pieces(r"\\server\share\a"), some("a", None, r"\\server\share\"));
    assert_eq!(pieces(r"\\server\share"), (None, None, None));
    assert_eq!(pieces(r"\\.\COM1\a"), some("a", None, r"\\.\COM1\"));
    assert_eq!(pieces(r"\\server"), some("server", None, r"\"));
}

#[test]
fn a_dot_names_nothing() {
    assert_eq!(pieces("a/./b"), some("b", Some("a"), "a"));
    assert_eq!(pieces("a/b/."), some("b", Some("a"), "a"));
    assert_eq!(pieces("./a"), some("a", None, "."));
    assert_eq!(pieces("."), (None, None, Some(String::new())));
    assert_eq!(pieces("C:."), (None, None, None));
    assert_eq!(pieces("a//b"), some("b", Some("a"), "a"));
}
