use riv::archive::{ArchiveError, MemberInfo};
use riv::image::{
    uncoded_error, url_decode_error, DecodeError, DecodedImage, Frame, PixelStorage,
    COMPONENT_NOT_FOUND_CODE,
};
use riv::listing::{CoreOptions, DecodedWeight, ItemMetadata, ListingEntry, SortMode};
use riv::location::ItemLocation;
use riv::navigation::NavigationCommand;
use riv::path::FilePath;
use riv::scan::{member_entry, FolderItem, ListingScope, ScanFound, ScannedListing};
use riv::session::ImageCore;
use riv::session_model::{DecodeStage, JobKind, ListingInstall, LoadOutcome};
use riv::session_parts::{
    CoreEffect, DecodeCompletion, FileStat, ProbeCompletion, ViewRequest,
};
use std::sync::Arc;

fn listing_options() -> CoreOptions {
    CoreOptions {
        sort_mode: SortMode::Name,
        sort_descending: false,
        preloading_mode: 1,
        loop_within_folder: true,
        skip_hidden: true,
        detect_format_by_content: false,
    }
}

/// The listing options every session starts from.
fn new_core() -> ImageCore {
    ImageCore::new(listing_options())
}

fn path(text: &str) -> FilePath {
    FilePath::from_text(text)
}

fn file(text: &str) -> ItemLocation {
    ItemLocation::File(path(text))
}

fn listed(text: &str) -> ListingEntry {
    ListingEntry {
        location: file(text),
        name_rank: 0,
        file_size: 0,
        modified: 0,
        created: 0,
        format_name: "PNG",
        weight: DecodedWeight::Unknown,
    }
}

fn numbered(index: usize) -> ItemLocation {
    file(&format!("C:\\pictures\\{index:03}.png"))
}

/// A folder of numbered files, optionally anchored on one of them.
fn core_with_files(count: usize, anchor: Option<usize>) -> ImageCore {
    let mut core = new_core();
    core.entries = (0..count)
        .map(|index| listed(&format!("C:\\pictures\\{index:03}.png")))
        .collect();
    core.request = match anchor {
        Some(index) => ViewRequest::Pending(core.entries[index].location.clone()),
        None => ViewRequest::Idle,
    };
    core
}

fn folder_state(core: &mut ImageCore, text: &str) {
    let file_path = path(text);
    core.listing_scope = Some(ListingScope::Directory(file_path.parent().expect("parent")));
    core.entries = vec![listed(text)];
}

fn decode_error(message: &str) -> DecodeError {
    DecodeError {
        code: 0,
        message: message.to_string(),
        store_codec_names: vec![],
    }
}

fn facts() -> ItemMetadata {
    ItemMetadata {
        file_size: 27,
        modified: Some(1),
    }
}

fn found() -> FileStat {
    FileStat::Found(facts())
}

fn missing() -> FileStat {
    FileStat::Failed {
        code: 2,
        message: "The system cannot find the file specified.".to_string(),
    }
}

fn item_of(directory: &str, name: &str, rank: u64, size: u64) -> FolderItem {
    FolderItem {
        path: path(&format!("{directory}\\{name}")),
        name: path(name),
        name_rank: rank,
        is_file: true,
        hidden: false,
        file_size: size,
        modified: Some(1),
        created: Some(1),
        header: None,
    }
}

/// A folder holding `names`, given in the order the names sort.
fn folder_items(directory: &str, names: &[&str]) -> Vec<FolderItem> {
    names
        .iter()
        .enumerate()
        .map(|(rank, name)| item_of(directory, name, rank as u64, 27))
        .collect()
}

fn folder_scan(core: &ImageCore, directory: &str, items: Vec<FolderItem>) -> ScannedListing {
    ScannedListing::of(
        ListingScope::Directory(path(directory)),
        &core.options,
        ScanFound::Folder(items),
    )
}

fn archive_member(archive: &str, name: &str) -> ListingEntry {
    member_entry(
        &path(archive),
        &MemberInfo {
            name: name.to_string(),
            size: 8,
            modified: 0,
        },
        0,
    )
    .expect("supported member")
}

fn picture(width: u32, height: u32) -> Arc<DecodedImage> {
    let bytes = (width as usize) * (height as usize) * 4;
    Arc::new(DecodedImage {
        width,
        height,
        pixel_width: width,
        pixel_height: height,
        format_name: "PNG",
        icc_profile: None,
        exif: None,
        storage: PixelStorage::Bgra8,
        source_bits_per_channel: 8,
        peak_luminance_nits: None,
        source_primaries: None,
        frames: vec![Frame {
            pixels: vec![0; bytes],
            delay_milliseconds: 0,
        }],
        frames_truncated: false,
        gain_map: None,
        gain_map_plane: None,
    })
}

fn arrival(location: ItemLocation, stage: DecodeStage) -> DecodeCompletion {
    DecodeCompletion {
        location,
        metadata: facts(),
        stage,
        result: Ok(picture(4, 4)),
        texture: None,
    }
}

#[test]
fn navigation_targets_need_more_than_the_anchor_itself() {
    let mut core = new_core();
    assert!(!core.has_navigation_targets());

    // A single entry that is the anchor itself leaves nowhere to go.
    folder_state(&mut core, "C:\\pictures\\a.png");
    core.request = ViewRequest::Failed(file("C:\\pictures\\a.png"), decode_error("broken"));
    assert!(!core.has_navigation_targets());

    // An unlisted anchor can still reach the one listed entry.
    core.request = ViewRequest::Failed(
        file("C:\\pictures\\note.txt"),
        decode_error("no decoder"),
    );
    assert!(core.has_navigation_targets());

    core.entries.push(listed("C:\\pictures\\b.png"));
    core.request = ViewRequest::Failed(file("C:\\pictures\\a.png"), decode_error("broken"));
    assert!(core.has_navigation_targets());
}

#[test]
fn a_rejected_url_still_clears_the_listing() {
    let mut core = new_core();
    folder_state(&mut core, "C:\\pictures\\a.png");
    assert_eq!(core.load_url("ftp://a.com/b.png"), LoadOutcome::Failed);
    assert!(core.entries.is_empty());
    assert!(core.listing_scope.is_none());
    let (location, error) = core.load_failure().expect("error recorded");
    assert!(matches!(location, ItemLocation::Url(_)));
    assert!(error.message.contains("protocol"));
}

#[test]
fn an_empty_paste_reports_no_url() {
    let mut core = new_core();
    folder_state(&mut core, "C:\\pictures\\a.png");
    assert_eq!(core.load_url(""), LoadOutcome::Failed);
    assert!(core.entries.is_empty());
    assert!(core.listing_scope.is_none());
    let (_, error) = core.load_failure().expect("error recorded");
    assert!(error.message.contains("clipboard"));
}

#[test]
fn prose_around_a_url_is_rejected_not_parsed() {
    for text in ["see https://a/b.png look", "seehttps://a/b.pnglook"] {
        let mut core = new_core();
        assert_eq!(core.load_url(text), LoadOutcome::Failed);
        let (_, error) = core.load_failure().expect("error recorded");
        assert!(error.message.contains("protocol"));
    }
}

#[test]
fn reload_retries_the_errored_url_not_the_previous_file() {
    let mut core = new_core();
    folder_state(&mut core, "C:\\pictures\\a.png");
    core.request = ViewRequest::Failed(
        ItemLocation::Url("ftp://a.com/b.png".to_string()),
        DecodeError {
            code: 0,
            message: "Download failed".to_string(),
            store_codec_names: vec![],
        },
    );
    assert_eq!(core.reload_current(&missing()), Some(LoadOutcome::Failed));
    // Routed back through load_url: single-item state, validation re-ran.
    assert!(core.entries.is_empty());
    assert!(core.listing_scope.is_none());
    let (_, error) = core.load_failure().expect("error recorded");
    assert!(error.message.contains("protocol"));
}

#[test]
fn unrecognized_url_bytes_read_as_no_image() {
    let error = |store_codec_names| DecodeError {
        code: COMPONENT_NOT_FOUND_CODE,
        message: "component not found".to_string(),
        store_codec_names,
    };
    assert_eq!(
        url_decode_error(error(vec![])).message,
        "No image at this URL"
    );
    // A failure that names a Store codec keeps its install hint.
    let store_hinted = url_decode_error(error(vec!["avif"]));
    assert_eq!(store_hinted.message, "component not found");
    assert_eq!(store_hinted.store_codec_names, ["avif"]);
}

#[test]
fn a_new_load_clears_the_previous_error() {
    let mut core = new_core();
    assert_eq!(core.load_url("ftp://a.com/b.png"), LoadOutcome::Failed);
    assert!(core.load_failure().is_some());
    core.load_path(&path("C:\\temp\\riv-error-supersede\\a.png"), false, &found());
    assert!(core.load_failure().is_none()); // the pending load owns the view now
}

#[test]
fn a_local_open_after_a_url_restores_the_listing() {
    let directory = "C:\\temp\\riv-url-session-state";
    let mut core = new_core();
    assert_eq!(core.load_url("ftp://a.com/b.png"), LoadOutcome::Failed);
    core.load_path(&path("C:\\temp\\riv-url-session-state\\a.png"), false, &found());
    // The scan is asynchronous: no listing until its arrival installs one.
    assert!(core.listing_scan_pending());
    assert!(core.entries.is_empty());
    let scan = folder_scan(&core, directory, folder_items(directory, &["a.png"]));
    core.install_listing_scan(scan, &found());
    assert!(!core.listing_scan_pending());
    assert!(matches!(
        core.listing_scope,
        Some(ListingScope::Directory(_))
    ));
    assert_eq!(core.entries.len(), 1);
}

#[test]
fn a_url_open_drops_the_pending_scan() {
    let directory = "C:\\temp\\riv-url-drops-scan";
    let mut core = new_core();
    core.load_path(&path("C:\\temp\\riv-url-drops-scan\\a.png"), false, &found());
    assert!(core.listing_scan_pending());
    let _ = core.load_url("ftp://a.com/b.png");
    assert!(!core.listing_scan_pending());
    let scan = folder_scan(&core, directory, folder_items(directory, &["a.png"]));
    let outcome = core.install_listing_scan(scan, &found()); // nothing waits for it any more
    assert!(matches!(outcome, ListingInstall::Discarded));
    assert!(core.entries.is_empty());
}

#[test]
fn a_stale_scan_arrival_is_discarded() {
    let mut core = new_core();
    core.load_path(&path("C:\\temp\\riv-stale-scan\\a.png"), false, &found());
    assert!(core.listing_scan_pending());
    let stale = folder_scan(&core, "C:\\temp\\riv-stale-scan-elsewhere", vec![]);
    assert!(matches!(
        core.install_listing_scan(stale, &found()),
        ListingInstall::Discarded
    ));
    assert!(core.listing_scan_pending()); // the requested scan is still due
    assert!(core.listing_scope.is_none());
}

#[test]
fn the_listing_position_follows_the_pending_anchor() {
    let directory = "C:\\temp\\riv-anchor-position";
    let mut core = new_core();
    core.rescan_folder(&path(directory), &folder_items(directory, &["a.png", "b.png"]));
    core.load_path(&path("C:\\temp\\riv-anchor-position\\b.png"), false, &found());
    assert!(core.has_pending_display()); // the decode has not landed yet
    assert_eq!(core.listing_position(), Some((2, 2)));
}

#[test]
fn a_refresh_keeps_the_weights_it_already_probed() {
    let directory = "C:\\temp\\riv-refresh-weights";
    let mut core = new_core();
    core.rescan_folder(&path(directory), &folder_items(directory, &["a.png", "b.png"]));
    for entry in &mut core.entries {
        entry.weight = DecodedWeight::Known(4096);
    }
    let mut changed = folder_items(directory, &["a.png"]);
    changed.push(item_of(directory, "b.png", 1, 24));
    core.submit_refresh_scan();
    let scan = folder_scan(&core, directory, changed);
    core.install_listing_scan(scan, &found());
    let weight_of = |name: &str| {
        core.entries
            .iter()
            .find(|entry| entry.location.display_name().eq_ignore_ascii_case(name))
            .map(|entry| entry.weight)
    };
    assert_eq!(weight_of("a.png"), Some(DecodedWeight::Known(4096)));
    // The file changed under the listing, so its old weight no longer describes it.
    assert_eq!(weight_of("b.png"), Some(DecodedWeight::Unknown));
}

#[test]
fn an_archive_open_loads_its_first_member_on_arrival() {
    let archive = "C:\\temp\\riv-archive-open.zip";
    let mut core = new_core();
    assert_eq!(
        core.load_path(&path(archive), false, &found()),
        LoadOutcome::Pending
    );
    assert!(core.listing_scan_pending());
    let scan = ScannedListing {
        scope: ListingScope::Archive(path(archive)),
        sort_mode: core.options.sort_mode,
        sort_descending: core.options.sort_descending,
        result: Ok(vec![archive_member(archive, "one.png")]),
    };
    assert!(matches!(
        core.install_listing_scan(scan, &found()),
        ListingInstall::Opened { .. }
    ));
    assert_eq!(core.entries.len(), 1);
    assert!(core.has_pending_display()); // the first member's decode is under way
}

#[test]
fn a_failed_archive_enumerate_surfaces_as_the_error() {
    let archive = "C:\\temp\\riv-archive-error.zip";
    let mut core = new_core();
    assert_eq!(
        core.load_path(&path(archive), false, &found()),
        LoadOutcome::Pending
    );
    let scan = ScannedListing {
        scope: ListingScope::Archive(path(archive)),
        sort_mode: core.options.sort_mode,
        sort_descending: core.options.sort_descending,
        result: Err(uncoded_error("enumerate failed")),
    };
    assert!(matches!(
        core.install_listing_scan(scan, &found()),
        ListingInstall::Opened {
            outcome: LoadOutcome::Failed
        }
    ));
    assert!(core.load_failure().is_some());
    assert!(!core.listing_scan_pending());
}

/// A request that fails on the spot still takes the view from whatever was loading.
#[test]
fn a_failed_load_drops_the_previous_wait() {
    let directory = "C:\\temp\\riv-failed-load-wait";
    let mut core = new_core();
    core.rescan_folder(&path(directory), &folder_items(directory, &["a.png"]));
    core.load_path(&path("C:\\temp\\riv-failed-load-wait\\a.png"), false, &found());
    assert!(core.has_pending_display());
    let gone = path("C:\\temp\\riv-failed-load-wait\\missing.png");
    assert_eq!(core.load_path(&gone, false, &missing()), LoadOutcome::Failed);
    assert!(!core.has_pending_display());
    assert!(core.open_failed_missing(&gone));
    // The errored item is the position baseline, so the next move starts from it.
    assert!(core.navigation_anchor() == Some(&ItemLocation::File(gone)));
}

#[test]
fn a_reload_re_collects_the_listing_it_sits_in() {
    let directory = "C:\\temp\\riv-reload-refresh";
    let mut core = new_core();
    core.rescan_folder(&path(directory), &folder_items(directory, &["a.png"]));
    core.load_path(&path("C:\\temp\\riv-reload-refresh\\a.png"), false, &found());
    core.reload_current(&found());
    assert!(core.listing_scan_pending());
    let scan = folder_scan(&core, directory, folder_items(directory, &["a.png", "b.png"]));
    core.install_listing_scan(scan, &found());
    assert_eq!(core.entries.len(), 2); // the file added since the open is listed
    assert_eq!(core.listing_position(), Some((1, 2))); // the anchor kept its place
}

#[test]
fn a_vanished_item_leaves_a_slot_adjacent_entries_still_answer() {
    let directory = "C:\\temp\\riv-reload-vanished";
    let mut core = new_core();
    core.rescan_folder(
        &path(directory),
        &folder_items(directory, &["a.png", "b.png", "c.png"]),
    );
    core.request = ViewRequest::Pending(file("C:\\temp\\riv-reload-vanished\\b.png"));
    assert_eq!(core.reload_current(&missing()), Some(LoadOutcome::Failed)); // nothing left to decode
    let scan = folder_scan(&core, directory, folder_items(directory, &["a.png", "c.png"]));
    core.install_listing_scan(scan, &found());
    assert_eq!(core.entries.len(), 2); // the listing dropped it
    assert!(core.load_failure().is_some()); // and the error stays on screen
    fn target(core: &ImageCore, command: NavigationCommand) -> Option<String> {
        core.navigation_target(command)
            .and_then(|location| location.as_file().map(|found| found.display()))
    }
    let adjacent_entries = |core: &ImageCore| {
        (
            target(core, NavigationCommand::Next),
            target(core, NavigationCommand::Previous),
        )
    };
    let expected = (
        Some("C:\\temp\\riv-reload-vanished\\c.png".to_string()),
        Some("C:\\temp\\riv-reload-vanished\\a.png".to_string()),
    );
    assert_eq!(adjacent_entries(&core), expected);
    // A second reload of the same missing item keeps the place it left.
    assert_eq!(core.reload_current(&missing()), Some(LoadOutcome::Failed));
    let scan = folder_scan(&core, directory, folder_items(directory, &["a.png", "c.png"]));
    core.install_listing_scan(scan, &found());
    assert_eq!(adjacent_entries(&core), expected);
    // A digit-led name sorts first, shifting every index; the place follows the entry beside it.
    assert_eq!(core.reload_current(&missing()), Some(LoadOutcome::Failed));
    let scan = folder_scan(
        &core,
        directory,
        folder_items(directory, &["0.png", "a.png", "c.png"]),
    );
    core.install_listing_scan(scan, &found());
    assert_eq!(core.entries.len(), 3);
    assert_eq!(adjacent_entries(&core), expected);
}

#[test]
fn a_directory_open_loads_its_first_entry_on_arrival() {
    let directory = "C:\\temp\\riv-directory-open";
    let mut core = new_core();
    assert_eq!(
        core.load_path(&path(directory), true, &found()),
        LoadOutcome::Pending
    );
    assert!(core.listing_scan_pending());
    let scan = folder_scan(&core, directory, folder_items(directory, &["a.png"]));
    assert!(matches!(
        core.install_listing_scan(scan, &found()),
        ListingInstall::Opened { .. }
    ));
    assert_eq!(core.entries.len(), 1);
    assert!(core.has_pending_display()); // the first entry's decode is under way
}

#[test]
fn a_single_back_step_keeps_the_forward_polarity() {
    let mut core = new_core();
    core.record_navigation(NavigationCommand::Previous);
    assert!(!core.navigating_backward);
    assert_eq!(core.preload_plan(), (1, 3, 1 << 30));
}

#[test]
fn two_consecutive_back_steps_flip_the_polarity() {
    let mut core = new_core();
    core.record_navigation(NavigationCommand::Previous);
    core.record_navigation(NavigationCommand::Previous);
    assert!(core.navigating_backward);
    assert_eq!(core.preload_plan(), (3, 1, 1 << 30));
    // The way back flips with the same grace.
    core.record_navigation(NavigationCommand::Next);
    assert!(core.navigating_backward);
    core.record_navigation(NavigationCommand::Next);
    assert!(!core.navigating_backward);
}

#[test]
fn an_interrupted_run_starts_over() {
    let mut core = new_core();
    core.record_navigation(NavigationCommand::Previous);
    core.record_navigation(NavigationCommand::Next);
    core.record_navigation(NavigationCommand::Previous);
    assert!(!core.navigating_backward); // never two in a row
}

#[test]
fn jumps_declare_their_direction() {
    let mut core = new_core();
    core.record_navigation(NavigationCommand::Last);
    assert!(core.navigating_backward);
    core.record_navigation(NavigationCommand::First);
    assert!(!core.navigating_backward);
}

#[test]
fn a_declared_direction_aims_at_once() {
    let mut core = new_core();
    core.set_navigation_direction(true);
    assert_eq!(core.preload_plan(), (3, 1, 1 << 30));
    core.reset_navigation_direction();
    assert_eq!(core.preload_plan(), (1, 3, 1 << 30));
}

#[test]
fn a_deleted_item_hands_the_place_to_its_successor() {
    let shown = |found: Option<FilePath>| found.map(|found| found.display());
    let named = |index: usize| Some(format!("C:\\pictures\\{index:03}.png"));
    let mut core = core_with_files(3, Some(1));
    // The successor is resolved while the deleted entry is still listed.
    let successor = core.remove_deleted_item(&numbered(1), NavigationCommand::Next);
    assert_eq!(shown(successor), named(2));
    assert_eq!(core.entries.len(), 2);

    // Looping wraps at the end of the folder, as a step would.
    let mut core = core_with_files(3, Some(2));
    let successor = core.remove_deleted_item(&numbered(2), NavigationCommand::Next);
    assert_eq!(shown(successor), named(0));

    // Without looping the end falls back to the other direction.
    let mut core = core_with_files(3, Some(2));
    core.options.loop_within_folder = false;
    let successor = core.remove_deleted_item(&numbered(2), NavigationCommand::Next);
    assert_eq!(shown(successor), named(1));

    // Nothing left to show clears the current item instead.
    let mut core = core_with_files(1, Some(0));
    assert!(core
        .remove_deleted_item(&numbered(0), NavigationCommand::Next)
        .is_none());
    assert!(core.entries.is_empty());
    assert!(core.current.is_none() && !core.has_pending_display());
}

#[test]
fn a_short_listing_shows_whole() {
    let window = core_with_files(5, Some(2)).playlist_window(25);
    assert_eq!(window.locations.len(), 5);
    assert_eq!(window.first_index, 0);
    assert_eq!(window.current_slot, Some(2));
    assert_eq!(window.hidden_after, 0);
    assert_eq!(window.locations[0].display_name(), "000.png");
}

#[test]
fn the_current_item_sits_at_the_window_center() {
    let window = core_with_files(100, Some(50)).playlist_window(25);
    assert_eq!(window.first_index, 38);
    assert_eq!(window.current_slot, Some(12));
    assert_eq!(window.locations.len(), 25);
    assert_eq!(window.hidden_after, 37);
}

#[test]
fn the_window_clamps_at_both_ends() {
    let near_start = core_with_files(100, Some(3)).playlist_window(25);
    assert_eq!(near_start.first_index, 0);
    assert_eq!(near_start.current_slot, Some(3));
    assert_eq!(near_start.hidden_after, 75);
    let near_end = core_with_files(100, Some(97)).playlist_window(25);
    assert_eq!(near_end.first_index, 75);
    assert_eq!(near_end.current_slot, Some(22));
    assert_eq!(near_end.hidden_after, 0);
}

#[test]
fn no_anchor_starts_at_the_top() {
    let window = core_with_files(100, None).playlist_window(25);
    assert_eq!(window.first_index, 0);
    assert_eq!(window.current_slot, None);
    assert_eq!(window.hidden_after, 75);
}

#[test]
fn an_arrival_shows_what_the_view_waits_for() {
    let directory = "C:\\temp\\shown";
    let mut core = new_core();
    core.rescan_folder(&path(directory), &folder_items(directory, &["a.png", "b.png"]));
    let first = file("C:\\temp\\shown\\a.png");
    assert_eq!(
        core.load_path(&path("C:\\temp\\shown\\a.png"), false, &found()),
        LoadOutcome::Pending
    );
    let job = core.take_job().expect("a job");
    assert!(job.location == first);
    assert_eq!(job.kind, JobKind::Preview);
    assert!(!job.speculative);
    let outcome = core.on_decode_complete(arrival(first.clone(), DecodeStage::Final), &found());
    assert_eq!(outcome, Some(LoadOutcome::Shown));
    assert!(core.current.is_some());
    assert!(!core.has_pending_display());
    assert_eq!(core.current_file().map(|found| found.display()), first.as_file().map(|found| found.display()));
    assert_eq!(core.cache.len(), 1);
    assert_eq!(core.entries[0].weight, DecodedWeight::Known(64));
    assert_eq!(core.occupied_bytes(), 64);
    // A second load finds the pixels cached.
    assert_eq!(core.load_item(&first, &found()), LoadOutcome::Shown);
}

#[test]
fn an_arrival_nobody_waits_for_leaves_the_view() {
    let mut core = core_with_files(3, Some(1));
    let outcome = core.on_decode_complete(arrival(numbered(2), DecodeStage::Final), &found());
    assert_eq!(outcome, None);
    assert!(core.current.is_none());
    assert!(core.has_pending_display());
}

#[test]
fn a_failed_arrival_is_what_the_view_reports() {
    let mut core = new_core();
    core.load_path(&path("C:\\temp\\fail\\a.png"), false, &found());
    let completion = DecodeCompletion {
        location: file("C:\\temp\\fail\\a.png"),
        metadata: facts(),
        stage: DecodeStage::Final,
        result: Err(decode_error("broken")),
        texture: None,
    };
    assert_eq!(
        core.on_decode_complete(completion, &found()),
        Some(LoadOutcome::Failed)
    );
    let (_, error) = core.load_failure().expect("error recorded");
    assert_eq!(error.message, "broken");
}

#[test]
fn a_preview_shows_while_the_full_decode_is_due() {
    let location = file("C:\\temp\\raw\\a.dng");
    let mut core = new_core();
    core.load_item(&location, &found());
    let job = core.take_job().expect("a job");
    assert_eq!(job.kind, JobKind::Preview);
    let outcome =
        core.on_decode_complete(arrival(location.clone(), DecodeStage::PreviewFinal), &found());
    assert_eq!(outcome, Some(LoadOutcome::Shown));
    assert!(core.full_decode_pending());
    core.start_pending_full_decode();
    assert!(!core.full_decode_pending());
    let job = core.take_job().expect("the full decode");
    assert_eq!(job.kind, JobKind::Full);
    let outcome = core.on_decode_complete(arrival(location, DecodeStage::Final), &found());
    assert_eq!(outcome, Some(LoadOutcome::Shown));
    assert!(!core.has_pending_display());
}

#[test]
fn preloading_probes_before_it_decodes() {
    let mut core = core_with_files(5, Some(1));
    core.load_item(&numbered(1), &found());
    core.on_decode_complete(arrival(numbered(1), DecodeStage::Final), &found());
    core.refresh_preload();
    let mut probed = 0;
    while let Some(job) = core.take_job() {
        if job.kind == JobKind::Probe {
            probed += 1;
        }
    }
    assert!(probed >= 4); // three ahead, one behind
    for index in [2, 3, 4, 0] {
        core.on_probe_complete(ProbeCompletion {
            location: numbered(index),
            cancelled: false,
            weight: Some(100),
        });
    }
    let next = core.take_job().expect("a preload");
    assert!(next.location == numbered(2));
    assert!(next.speculative);
}

#[test]
fn a_load_elsewhere_calls_off_the_preload() {
    let mut core = core_with_files(9, Some(1));
    for entry in &mut core.entries {
        entry.weight = DecodedWeight::Known(64);
    }
    core.on_decode_complete(arrival(numbered(1), DecodeStage::Final), &found());
    core.refresh_preload();
    let taken = core.take_job().expect("a preload");
    assert_eq!(taken.kind, JobKind::Full);
    assert!(taken.speculative);
    core.take_effects();
    core.load_item(&ItemLocation::Url("https://a.com/b.png".to_string()), &found());
    let cancelled = core.take_effects().into_iter().any(|effect| {
        matches!(effect, CoreEffect::Cancel { ticket, cancelled: true } if ticket == taken.ticket)
    });
    assert!(cancelled);
}

#[test]
fn eviction_keeps_the_anchor_and_fits_the_rest() {
    let mut core = core_with_files(9, Some(4));
    core.options.preloading_mode = 0;
    core.load_item(&numbered(4), &found());
    core.on_decode_complete(arrival(numbered(4), DecodeStage::Final), &found());
    core.on_decode_complete(arrival(numbered(5), DecodeStage::Final), &found());
    core.evict_cache();
    // No budget at all, and the anchor is in use.
    assert!(core.cache.iter().all(|entry| entry.location == numbered(4)));
    assert!(!core.take_retired().is_empty());
}

#[test]
fn a_scan_request_names_its_scope_and_options() {
    let mut core = new_core();
    core.load_path(&path("C:\\temp"), true, &found());
    let effects = core.take_effects();
    assert!(matches!(
        effects.last(),
        Some(CoreEffect::Scan { scope: ListingScope::Directory(_), options }) if *options == listing_options()
    ));
    assert!(core.take_effects().is_empty());
}

#[test]
fn a_step_goes_to_the_next_entry_and_not_to_itself() {
    let mut core = core_with_files(3, Some(2));
    assert_eq!(
        core.navigate(NavigationCommand::Next, &found()),
        Some(LoadOutcome::Pending)
    );
    assert!(core.navigation_anchor() == Some(&numbered(0)));
    let mut alone = core_with_files(1, Some(0));
    assert_eq!(alone.navigate(NavigationCommand::Next, &found()), None);
}

#[test]
fn a_changed_order_sorts_the_listing_again() {
    let directory = "C:\\temp\\order";
    let items = folder_items(directory, &["a.png", "b.png", "c.png"]);
    let mut core = new_core();
    core.rescan_folder(&path(directory), &items);
    let mut options = listing_options();
    options.sort_descending = true;
    core.update_options(options, &items);
    let names: Vec<String> = core.entries.iter().map(|entry| entry.location.display_name()).collect();
    assert_eq!(names, ["c.png", "b.png", "a.png"]);
}

#[test]
fn a_scan_lists_images_that_are_not_hidden() {
    let directory = "C:\\temp\\kinds";
    let mut items = folder_items(directory, &["a.png", "b.txt", "c.jpg", "d.png"]);
    items[2].hidden = true;
    items[3].is_file = false;
    let scan = folder_scan(&new_core(), directory, items);
    let entries = scan.result.ok().expect("a folder always lists");
    let names: Vec<String> = entries.iter().map(|entry| entry.location.display_name()).collect();
    assert_eq!(names, ["a.png"]);
}

#[test]
fn an_archive_without_images_is_an_error() {
    let scan = ScannedListing::of(
        ListingScope::Archive(path("C:\\a.zip")),
        &listing_options(),
        ScanFound::Archive(
            Ok(vec![MemberInfo { name: "readme.txt".to_string(), size: 3, modified: 0 }]),
            vec![0],
        ),
    );
    let error = scan.result.err().expect("no image inside");
    assert_eq!(error.message, "Archive contains no supported images");
    let refused = ScannedListing::of(
        ListingScope::Archive(path("C:\\a.zip")),
        &listing_options(),
        ScanFound::Archive(Err(ArchiveError::new("damaged")), vec![]),
    );
    assert_eq!(refused.result.err().expect("failed").message, "damaged");
}

#[test]
fn a_lost_device_keeps_the_shown_image_without_its_texture() {
    let mut core = new_core();
    let location = file("C:\\temp\\device\\a.png");
    core.load_item(&location, &found());
    core.on_decode_complete(arrival(location, DecodeStage::Final), &found());
    core.set_upload_device(None);
    assert!(core.current.is_some());
    assert!(core.readable_texture().is_none());
    assert!(core.recover_current_pixels(Some(vec![1, 2, 3])).is_none());
}

#[test]
fn a_cleared_session_holds_nothing() {
    let mut core = core_with_files(1, Some(0));
    assert!(!core.holds_no_item());
    core.clear_current_item();
    assert!(core.holds_no_item());
    assert!(core.navigation_anchor().is_none());
    assert_eq!(core.reload_current(&found()), None);
}

#[test]
fn a_jump_goes_to_any_item_but_the_one_in_view() {
    let mut core = core_with_files(3, Some(1));
    assert_eq!(core.navigate_to_location(&numbered(1), &found()), None);
    assert_eq!(
        core.navigate_to_location(&numbered(2), &found()),
        Some(LoadOutcome::Pending)
    );
    assert!(core.is_pending(&numbered(2)));
}

#[test]
fn a_download_is_told_from_a_read() {
    let mut core = new_core();
    assert!(!core.url_download_pending());
    core.load_url("https://example.com/picture.png");
    assert!(core.url_download_pending());
    core.load_path(&path("C:\\temp\\file\\a.png"), false, &found());
    assert!(!core.url_download_pending());
}

#[test]
fn the_shown_item_keeps_what_its_load_read() {
    let location = file("C:\\temp\\facts\\a.png");
    let mut core = new_core();
    assert!(core.current_item_metadata().is_none());
    assert!(core.current_containing_file().is_none());
    core.load_item(&location, &found());
    core.on_decode_complete(arrival(location, DecodeStage::Final), &found());
    assert_eq!(core.current_item_metadata().map(|read| read.file_size), Some(27));
    assert_eq!(
        core.current_containing_file().map(|carrier| carrier.display()),
        Some(path("C:\\temp\\facts\\a.png").display())
    );
}

#[test]
fn a_changed_monitor_forgets_the_weights_of_drawings() {
    let mut core = new_core();
    core.entries = vec![listed("C:\\pictures\\a.svg"), listed("C:\\pictures\\b.png")];
    for entry in &mut core.entries {
        entry.weight = DecodedWeight::Known(64);
    }
    core.invalidate_svg_weights();
    assert_eq!(core.entries[0].weight, DecodedWeight::Unknown);
    assert_eq!(core.entries[1].weight, DecodedWeight::Known(64));
}

#[test]
fn an_unknown_sort_setting_is_by_name() {
    assert_eq!(SortMode::from_setting(0), SortMode::IN_SETTING_ORDER[0]);
    assert_eq!(SortMode::from_setting(4), SortMode::IN_SETTING_ORDER[4]);
    assert_eq!(SortMode::from_setting(5), SortMode::Name);
}
