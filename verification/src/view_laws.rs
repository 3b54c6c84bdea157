//! Where a session goes, and what it shows once it is there.

use vstd::prelude::*;

use crate::image::{ErrorModel, ImageModel, UploadDevice};
use crate::listing;
use crate::listing::{CoreOptions, DecodedWeight, EntryModel, ItemMetadata};
use crate::listing_laws;
use crate::location::Place;
use crate::navigation::{AnchorIndex, NavigationCommand};
use crate::scan::{ScanModel, ScopeModel};
use crate::session_laws;
use crate::session_model;
use crate::session_model::{
    CacheModel, CompletionModel, CoreModel, CurrentModel, DecodeStage, EffectModel, JobKind,
    ListingInstall, LoadOutcome, MissingModel, PendingModel, RequestModel, ScanPurpose, StatModel,
    SubmissionModel,
};

verus! {

/// No item is listed twice.
pub open spec fn listed_once(entries: Seq<EntryModel>) -> bool {
    forall|first: int, second: int|
        0 <= first < second < entries.len() ==> (#[trigger] entries[first]).location.identity() != (
        #[trigger] entries[second]).location.identity()
}

proof fn lemma_listed_item_is_found(entries: Seq<EntryModel>, item: Place, index: int)
    requires
        entries.len() <= usize::MAX,
        listed_once(entries),
        0 <= index < entries.len(),
        entries[index].location.identity() == item.identity(),
    ensures
        listing::entry_position(entries, item) == Some(index as usize),
{
    listing::lemma_entry_position(entries, item, 0);
    let found = listing::entry_position(entries, item)->0 as int;
    if found < index {
        assert(entries[found].location.identity() != entries[index].location.identity());
    }
}

/// The position is that of the load under way, else that of the item that failed, else that of what
/// is shown.
pub proof fn lemma_anchor_is_what_the_view_is_about(core: CoreModel, item: Place)
    ensures
        core.request == RequestModel::Pending(item) ==> core.anchor() == Some(item),
        (core.request matches RequestModel::Failed(failed, _) && failed == item) ==> core.anchor()
            == Some(item),
        core.request == RequestModel::Idle && core.current is None ==> core.anchor() is None,
        core.request == RequestModel::Idle ==> (core.current matches Some(current) ==> core.anchor()
            == Some(current.location)),
{
}

/// The first and the last command lead to the two ends of the listing, whatever is shown; nothing
/// leads anywhere in an empty one.
pub proof fn lemma_ends_of_the_listing(core: CoreModel)
    requires
        core.entries.len() <= usize::MAX,
    ensures
        core.entries.len() > 0 ==> core.target(NavigationCommand::First) == Some(
            core.entries[0].location,
        ),
        core.entries.len() > 0 ==> core.target(NavigationCommand::Last) == Some(
            core.entries[core.entries.len() - 1].location,
        ),
        core.entries.len() == 0 ==> core.target(NavigationCommand::First) is None && core.target(
            NavigationCommand::Last,
        ) is None && core.target(NavigationCommand::Next) is None && core.target(
            NavigationCommand::Previous,
        ) is None,
{
}

/// From a listed item the next command leads to the entry behind it and the previous one to the entry
/// before it. Behind the last and before the first there is nothing, unless the listing loops: there
/// the two ends are neighbours.
pub proof fn lemma_steps_lead_to_the_neighbours(core: CoreModel, index: int)
    requires
        core.entries.len() <= usize::MAX,
        listed_once(core.entries),
        0 <= index < core.entries.len(),
        core.anchored_on(core.entries[index].location),
    ensures
        ({
            let count = core.entries.len() as int;
            let looped = core.options.loop_within_folder;
            let next = core.target(NavigationCommand::Next);
            let previous = core.target(NavigationCommand::Previous);
            &&& index + 1 < count ==> next == Some(core.entries[index + 1].location)
            &&& index + 1 == count && looped ==> next == Some(core.entries[0].location)
            &&& index + 1 == count && !looped ==> next is None
            &&& index > 0 ==> previous == Some(core.entries[index - 1].location)
            &&& index == 0 && looped ==> previous == Some(core.entries[count - 1].location)
            &&& index == 0 && !looped ==> previous is None
        }),
{
    let anchor = core.anchor()->0;
    lemma_listed_item_is_found(core.entries, anchor, index);
    listing_laws::lemma_step_leads_to_the_neighbour(
        index as usize,
        core.entries.len() as int,
        core.options.loop_within_folder,
    );
}

/// An item that was never listed is entered from the end a step comes from: the next command leads to
/// the first entry, the previous one to the last.
pub proof fn lemma_steps_enter_from_the_ends(core: CoreModel)
    requires
        0 < core.entries.len() <= usize::MAX,
        core.missing_anchor is None,
        forall|index: int|
            0 <= index < core.entries.len() ==> !core.anchored_on(
                (#[trigger] core.entries[index]).location,
            ),
    ensures
        core.target(NavigationCommand::Next) == Some(core.entries[0].location),
        core.target(NavigationCommand::Previous) == Some(
            core.entries[core.entries.len() - 1].location,
        ),
{
    if let Some(anchor) = core.anchor() {
        listing::lemma_entry_position(core.entries, anchor, 0);
        if let Some(index) = listing::entry_position(core.entries, anchor) {
            assert(core.anchored_on(core.entries[index as int].location));
        }
    }
    listing_laws::lemma_step_leads_to_the_neighbour(
        0,
        core.entries.len() as int,
        core.options.loop_within_folder,
    );
}

/// An item that left the listing leaves its place behind: the next command leads to what stood behind
/// it and the previous one to what stood before it.
pub proof fn lemma_steps_from_a_place_that_was_left(core: CoreModel, index: int)
    requires
        core.entries.len() <= usize::MAX,
        listed_once(core.entries),
        0 <= index < core.entries.len(),
        core.missing_anchor == Some(MissingModel::After(core.entries[index].location)),
        forall|other: int|
            0 <= other < core.entries.len() ==> !core.anchored_on(
                (#[trigger] core.entries[other]).location,
            ),
    ensures
        core.target(NavigationCommand::Previous) == Some(core.entries[index].location),
        index + 1 < core.entries.len() ==> core.target(NavigationCommand::Next) == Some(
            core.entries[index + 1].location,
        ),
        index + 1 == core.entries.len() && !core.options.loop_within_folder ==> core.target(
            NavigationCommand::Next,
        ) is None,
{
    if let Some(anchor) = core.anchor() {
        listing::lemma_entry_position(core.entries, anchor, 0);
        if let Some(found) = listing::entry_position(core.entries, anchor) {
            assert(core.anchored_on(core.entries[found as int].location));
        }
    }
    lemma_listed_item_is_found(core.entries, core.entries[index].location, index);
    assert(core.anchor_index() == AnchorIndex::Missing((index + 1) as usize));
    listing_laws::lemma_step_leads_to_the_neighbour(
        (index + 1) as usize,
        core.entries.len() as int,
        core.options.loop_within_folder,
    );
}

/// A command that leads somewhere else makes that item the one the view is about; one that leads
/// nowhere, or to where the view is, changes nothing.
pub proof fn lemma_navigation_goes_where_it_leads(
    core: CoreModel,
    command: NavigationCommand,
    stat: StatModel,
)
    ensures
        core.target(command) is None ==> core.moved(command, stat) == (core, None::<LoadOutcome>),
        core.target(command) matches Some(target) ==> {
            &&& core.anchored_on(target) ==> core.moved(command, stat) == (
                core,
                None::<LoadOutcome>,
            )
            &&& !core.anchored_on(target) ==> core.moved(command, stat).0.anchored_on(target)
                && core.moved(command, stat).1 is Some
            &&& core.moved(command, stat).0.entries == core.entries
            &&& core.moved(command, stat).0.options == core.options
        },
{
    if let Some(target) = core.target(command) {
        session_laws::lemma_load_anchors_the_item(core.navigated(command), target, stat);
    }
}

/// Going to the last entry leaves nothing ahead, and going to the first nothing behind, where the
/// listing does not loop; where it does, the step past one end comes out at the other.
pub proof fn lemma_past_the_ends(core: CoreModel, stat: StatModel)
    requires
        0 < core.entries.len() <= usize::MAX,
        listed_once(core.entries),
    ensures
        !core.options.loop_within_folder ==> core.moved(NavigationCommand::Last, stat).0.target(
            NavigationCommand::Next,
        ) is None,
        !core.options.loop_within_folder ==> core.moved(NavigationCommand::First, stat).0.target(
            NavigationCommand::Previous,
        ) is None,
        core.options.loop_within_folder ==> core.moved(NavigationCommand::Last, stat).0.target(
            NavigationCommand::Next,
        ) == Some(core.entries[0].location),
        core.options.loop_within_folder ==> core.moved(NavigationCommand::First, stat).0.target(
            NavigationCommand::Previous,
        ) == Some(core.entries[core.entries.len() - 1].location),
{
    lemma_ends_of_the_listing(core);
    lemma_navigation_goes_where_it_leads(core, NavigationCommand::Last, stat);
    lemma_navigation_goes_where_it_leads(core, NavigationCommand::First, stat);
    lemma_steps_lead_to_the_neighbours(
        core.moved(NavigationCommand::Last, stat).0,
        core.entries.len() - 1,
    );
    lemma_steps_lead_to_the_neighbours(core.moved(NavigationCommand::First, stat).0, 0);
}

/// A jump to the first entry aims the preload forward and a jump to the last one backward; a jump to
/// an item of the menu leaves it aimed as it was.
pub proof fn lemma_jumps_aim_the_preload(core: CoreModel, target: Place, stat: StatModel)
    ensures
        (core.target(NavigationCommand::First) matches Some(first) && !core.anchored_on(first))
            ==> !core.moved(NavigationCommand::First, stat).0.navigating_backward,
        (core.target(NavigationCommand::Last) matches Some(last) && !core.anchored_on(last))
            ==> core.moved(NavigationCommand::Last, stat).0.navigating_backward,
        core.jumped(target, stat).0.navigating_backward == core.navigating_backward,
        core.jumped(target, stat).0.anchored_on(target),
        core.anchored_on(target) ==> core.jumped(target, stat) == (core, None::<LoadOutcome>),
{
    if let Some(first) = core.target(NavigationCommand::First) {
        session_laws::lemma_load_anchors_the_item(
            core.navigated(NavigationCommand::First),
            first,
            stat,
        );
    }
    if let Some(last) = core.target(NavigationCommand::Last) {
        session_laws::lemma_load_anchors_the_item(
            core.navigated(NavigationCommand::Last),
            last,
            stat,
        );
    }
    session_laws::lemma_load_anchors_the_item(
        (CoreModel { opposite_steps: 0, ..core }),
        target,
        stat,
    );
}

/// The preload reaches further the way the view moves: nothing at the first setting, one entry behind
/// and three ahead within a gibibyte at the second, two behind and six ahead within two at every
/// other.
pub proof fn lemma_preload_aims_along_the_way(core: CoreModel)
    ensures
        ({
            let (backward, forward, budget) = core.preload_plan();
            let (behind, ahead) = if core.navigating_backward {
                (forward, backward)
            } else {
                (backward, forward)
            };
            &&& core.options.preloading_mode == 0 ==> behind == 0 && ahead == 0 && budget == 0
            &&& core.options.preloading_mode == 1 ==> behind == 1 && ahead == 3 && budget == 1024
                * 1024 * 1024
            &&& core.options.preloading_mode >= 2 ==> behind == 2 && ahead == 6 && budget == 2
                * 1024 * 1024 * 1024
        }),
{
}

/// A file that cannot be read fails with what the system said; what was shown stays.
pub proof fn lemma_unreadable_file_fails(
    core: CoreModel,
    path: Seq<u16>,
    code: i32,
    message: Seq<char>,
)
    ensures
        ({
            let (after, outcome) = core.loaded(
                Place::File(path),
                StatModel::Failed(code, message),
            );
            &&& outcome == LoadOutcome::Failed
            &&& after.current == core.current
            &&& after.request matches RequestModel::Failed(item, error) && item == Place::File(
                path,
            ) && error.code == code && error.message == message && error.store_codec_names.len()
                == 0
        }),
{
    reveal(CoreModel::loaded);
    let owned = core.requesting(Place::File(path));
    let error = ErrorModel { code, message, store_codec_names: Seq::empty() };
    session_laws::lemma_sweep_keeps_the_view(
        (CoreModel { request: RequestModel::Failed(Place::File(path), error), ..owned }),
    );
}

/// A file shows at once where the cache holds it as it is on disk: nothing is waited on where that is
/// the full decode, the full decode where it is a preview. Otherwise it is waited on, and what was
/// shown stays.
pub proof fn lemma_file_shows_from_the_cache(
    core: CoreModel,
    path: Seq<u16>,
    metadata: ItemMetadata,
)
    ensures
        ({
            let item = Place::File(path);
            let (after, outcome) = core.loaded(item, StatModel::Found(metadata));
            let held = session_model::cached(core.cache, item);
            &&& (held matches Some(entry) && entry.metadata == metadata) ==> {
                let entry = held->0;
                &&& outcome == LoadOutcome::Shown
                &&& after.current == Some(
                    CurrentModel {
                        location: item,
                        image: entry.image,
                        texture: entry.texture,
                        metadata,
                    },
                )
                &&& !entry.preview ==> after.request == RequestModel::Idle
                &&& entry.preview ==> after.request == RequestModel::Pending(item)
            }
            &&& !(held matches Some(entry) && entry.metadata == metadata) ==> {
                &&& outcome == LoadOutcome::Pending
                &&& after.current == core.current
                &&& after.request == RequestModel::Pending(item)
            }
        }),
{
    reveal(CoreModel::loaded);
    let item = Place::File(path);
    let owned = core.requesting(item);
    session_laws::lemma_sweep_keeps_the_view(owned.awaiting(item, metadata, false));
    if let Some(entry) = session_model::cached(core.cache, item) {
        let shown = owned.showing(
            CurrentModel {
                location: item,
                image: entry.image,
                texture: entry.texture,
                metadata,
            },
        );
        session_laws::lemma_sweep_keeps_the_view(shown.awaiting(item, metadata, true));
    }
}

/// A member of an archive that is not listed fails; one that is goes by what its listing says.
pub proof fn lemma_member_goes_by_its_listing(
    core: CoreModel,
    archive: Seq<u16>,
    member: Seq<char>,
    stat: StatModel,
)
    requires
        core.entries.len() <= usize::MAX,
    ensures
        ({
            let item = Place::ArchiveMember { archive, member };
            let (after, outcome) = core.loaded(item, stat);
            &&& (forall|index: int|
                0 <= index < core.entries.len() ==> (
                #[trigger] core.entries[index]).location.identity() != item.identity())
                ==> outcome == LoadOutcome::Failed && after.current == core.current
            &&& (exists|index: int|
                0 <= index < core.entries.len() && (
                #[trigger] core.entries[index]).location.identity() == item.identity()) ==> outcome
                != LoadOutcome::Failed
        }),
{
    reveal(CoreModel::loaded);
    let item = Place::ArchiveMember { archive, member };
    listing::lemma_entry_position(core.entries, item, 0);
    let owned = core.requesting(item);
    let error = crate::image::uncoded("Member no longer exists in the archive"@);
    session_laws::lemma_sweep_keeps_the_view(
        (CoreModel { request: RequestModel::Failed(item, error), ..owned }),
    );
}

/// What was asked for decodes under a ticket of its own, ahead of everything queued.
pub proof fn lemma_awaited_decode_is_queued_first(
    core: CoreModel,
    item: Place,
    metadata: ItemMetadata,
)
    requires
        session_model::submission(core.submitted_decodes, item) is None,
    ensures
        ({
            let after = core.awaiting(item, metadata, false);
            &&& after.queue.len() == core.queue.len() + 1
            &&& after.queue[0].location == item
            &&& after.queue[0].metadata == metadata
            &&& after.queue[0].kind == JobKind::Preview
            &&& !after.queue[0].speculative
            &&& after.queue[0].ticket == core.next_ticket
            &&& after.next_ticket != core.next_ticket
            &&& after.submitted_decodes.last().location == item
            &&& after.submitted_decodes.last().ticket == core.next_ticket
            &&& after.request == RequestModel::Pending(item)
            &&& after.current == core.current
        }),
{
}

/// A full decode that the view waited on is shown, and nothing is waited on any more; one that nobody
/// waited on changes neither what is shown nor what is waited on.
pub proof fn lemma_arrival_shows_where_it_is_awaited(
    core: CoreModel,
    completion: CompletionModel,
    image: ImageModel,
    stat: StatModel,
)
    requires
        completion.stage == DecodeStage::Final,
        completion.result == Ok::<ImageModel, ErrorModel>(image),
        !(completion.texture matches Some(uploaded) && Some(uploaded.generation)
            != core.upload_device_generation),
    ensures
        ({
            let (after, outcome) = core.arrived(completion, stat);
            &&& core.waits_on(completion.location) ==> {
                &&& outcome == Some(LoadOutcome::Shown)
                &&& after.request == RequestModel::Idle
                &&& after.current == Some(
                    CurrentModel {
                        location: completion.location,
                        image,
                        texture: completion.texture,
                        metadata: completion.metadata,
                    },
                )
            }
            &&& !core.waits_on(completion.location) ==> {
                &&& outcome is None
                &&& after.request == core.request
                &&& after.current == core.current
            }
        }),
{
    reveal(CoreModel::arrived);
    reveal(CoreModel::evicted);
}

/// A decode that failed while the view waited on it fails the view with its error; what was shown
/// stays. One that nobody waited on is forgotten.
pub proof fn lemma_failed_arrival_fails_the_view(
    core: CoreModel,
    completion: CompletionModel,
    error: ErrorModel,
    stat: StatModel,
)
    requires
        completion.stage == DecodeStage::Final,
        completion.result == Err::<ImageModel, ErrorModel>(error),
        completion.texture is None,
    ensures
        ({
            let (after, outcome) = core.arrived(completion, stat);
            &&& after.current == core.current
            &&& core.waits_on(completion.location) && error.code
                != crate::image::CANCELLED_CODE ==> {
                &&& outcome == Some(LoadOutcome::Failed)
                &&& after.request == RequestModel::Failed(completion.location, error)
            }
            &&& core.waits_on(completion.location) && error.code
                == crate::image::CANCELLED_CODE ==> {
                &&& outcome is None
                &&& after.request == core.request
            }
            &&& !core.waits_on(completion.location) ==> {
                &&& outcome is None
                &&& after.request == core.request
                &&& after.cache == core.cache
            }
        }),
{
    reveal(CoreModel::arrived);
    let done = CoreModel {
        submitted_decodes: session_model::withdrawn(core.submitted_decodes, completion.location),
        ..core
    };
    session_laws::lemma_sweep_keeps_the_view(
        (CoreModel { request: RequestModel::Failed(completion.location, error), ..done }),
    );
}

/// A preview is shown where its item is waited on, and goes on being waited on; elsewhere it changes
/// nothing.
pub proof fn lemma_preview_shows_while_it_is_awaited(
    core: CoreModel,
    completion: CompletionModel,
    image: ImageModel,
    stat: StatModel,
)
    requires
        completion.stage == DecodeStage::Preview,
        completion.result == Ok::<ImageModel, ErrorModel>(image),
    ensures
        ({
            let (after, outcome) = core.arrived(completion, stat);
            &&& after.request == core.request
            &&& after.submitted_decodes == core.submitted_decodes
            &&& core.waits_on(completion.location) ==> outcome == Some(LoadOutcome::Shown)
                && after.current == Some(
                CurrentModel {
                    location: completion.location,
                    image,
                    texture: completion.texture,
                    metadata: completion.metadata,
                },
            )
            &&& !core.waits_on(completion.location) ==> after == core && outcome is None
        }),
{
    reveal(CoreModel::arrived);
}

/// A texture of a device that is gone is never shown: the view keeps what it shows, and what it waits
/// on.
pub proof fn lemma_retired_texture_is_never_shown(
    core: CoreModel,
    completion: CompletionModel,
    stat: StatModel,
)
    requires
        completion.stage != DecodeStage::Preview,
        completion.texture matches Some(uploaded) && Some(uploaded.generation)
            != core.upload_device_generation,
    ensures
        core.arrived(completion, stat).0.current == core.current,
        core.arrived(completion, stat).0.request == core.request,
        core.arrived(completion, stat).0.cache == core.cache,
        core.arrived(completion, stat).1 is None,
{
    reveal(CoreModel::arrived);
}

/// A folder opens through a scan that shows its first entry, and so does an archive; the old listing
/// is gone at once.
pub proof fn lemma_folder_opens_through_a_scan(core: CoreModel, path: Seq<u16>, stat: StatModel)
    ensures
        ({
            let (after, outcome) = core.loaded_path(path, true, stat);
            &&& outcome == LoadOutcome::Pending
            &&& after.entries.len() == 0
            &&& after.listing_scope is None
            &&& after.pending_scan == Some(
                PendingModel {
                    scope: ScopeModel::Directory(path),
                    purpose: ScanPurpose::OpenFirstEntry,
                },
            )
            &&& after.effects.last() == EffectModel::Scan(
                ScopeModel::Directory(path),
                core.options,
            )
            &&& after.current == core.current
            &&& !after.navigating_backward
        }),
        crate::archive::is_archive_path(path) ==> ({
            let (after, outcome) = core.loaded_path(path, false, stat);
            &&& outcome == LoadOutcome::Pending
            &&& after.entries.len() == 0
            &&& after.pending_scan == Some(
                PendingModel {
                    scope: ScopeModel::Archive(path),
                    purpose: ScanPurpose::OpenFirstEntry,
                },
            )
            &&& after.effects.last() == EffectModel::Scan(ScopeModel::Archive(path), core.options)
            &&& after.current == core.current
        }),
{
    lemma_scan_clears_the_listing(
        core,
        PendingModel {
            scope: ScopeModel::Directory(path),
            purpose: ScanPurpose::OpenFirstEntry,
        },
    );
    lemma_scan_clears_the_listing(
        core,
        PendingModel { scope: ScopeModel::Archive(path), purpose: ScanPurpose::OpenFirstEntry },
    );
}

proof fn lemma_scan_clears_the_listing(core: CoreModel, pending: PendingModel)
    ensures
        ({
            let after = core.scanning(pending);
            &&& after.entries.len() == 0
            &&& after.listing_scope is None
            &&& after.pending_scan == Some(pending)
            &&& after.effects.last() == EffectModel::Scan(pending.scope, core.options)
            &&& after.current == core.current
            &&& after.request == core.request
            &&& !after.navigating_backward
            &&& after.missing_anchor is None
            &&& after.options == core.options
        }),
{
    reveal(CoreModel::scanning);
    session_laws::lemma_sweep_keeps_the_view(
        (CoreModel {
            navigating_backward: false,
            opposite_steps: 0,
            entries: Seq::empty(),
            listing_scope: None,
            missing_anchor: None,
            pending_scan: Some(pending),
            ..core
        }),
    );
}

/// A file opens at once. Where its folder is neither listed nor being listed, the folder is scanned
/// behind it; where it is, the listing stays.
pub proof fn lemma_file_opens_at_once(
    core: CoreModel,
    path: Seq<u16>,
    directory: Seq<u16>,
    stat: StatModel,
)
    requires
        !crate::archive::is_archive_path(path),
        crate::path::parent(path) == Some(directory),
    ensures
        ({
            let (after, outcome) = core.loaded_path(path, false, stat);
            &&& after.anchored_on(Place::File(path))
            &&& core.covers_directory(directory) ==> after.entries == core.entries
                && after.pending_scan == core.pending_scan && after.listing_scope
                == core.listing_scope
            &&& !core.covers_directory(directory) ==> after.entries.len() == 0
                && after.pending_scan == Some(
                PendingModel {
                    scope: ScopeModel::Directory(directory),
                    purpose: ScanPurpose::CoverAnchor,
                },
            )
        }),
        core.covers_directory(directory) <==> {
            ||| core.listing_scope matches Some(ScopeModel::Directory(listed))
                && crate::text::folded(listed) == crate::text::folded(directory)
            ||| core.pending_scan matches Some(pending)
                && (pending.scope matches ScopeModel::Directory(listed) && crate::text::folded(
                listed,
            ) == crate::text::folded(directory))
        },
{
    let pending = PendingModel {
        scope: ScopeModel::Directory(directory),
        purpose: ScanPurpose::CoverAnchor,
    };
    lemma_scan_clears_the_listing(core, pending);
    session_laws::lemma_load_anchors_the_item(core, Place::File(path), stat);
    session_laws::lemma_load_anchors_the_item(core.scanning(pending), Place::File(path), stat);
}

/// A scan that was awaited brings its listing: in the order asked for now, with the weights that are
/// known. One that was to open its first entry does.
pub proof fn lemma_scan_brings_its_listing(
    core: CoreModel,
    scope: ScopeModel,
    found: Seq<EntryModel>,
    stat: StatModel,
)
    requires
        core.pending_scan matches Some(pending) && pending.scope.covers(scope),
    ensures
        ({
            let purpose = core.pending_scan->0.purpose;
            let (after, install) = core.installed(
                scope,
                core.options.sort_mode,
                core.options.sort_descending,
                ScanModel::Listed(found),
                stat,
            );
            &&& after.pending_scan is None
            &&& after.listing_scope == Some(scope)
            &&& after.entries.len() == found.len()
            &&& forall|index: int|
                0 <= index < found.len() ==> (#[trigger] after.entries[index]).location
                    == found[index].location && after.entries[index].file_size
                    == found[index].file_size && after.entries[index].modified
                    == found[index].modified
            &&& purpose != ScanPurpose::OpenFirstEntry ==> install == ListingInstall::Installed
                && after.current == core.current && after.request == core.request
            &&& purpose == ScanPurpose::OpenFirstEntry && found.len() > 0 ==> install
                is Opened && after.anchored_on(found[0].location)
            &&& purpose == ScanPurpose::OpenFirstEntry && found.len() == 0 ==> install
                == ListingInstall::Installed
        }),
{
    reveal(CoreModel::installed);
    let entries = session_model::carried(core.entries, found);
    assert(forall|index: int|
        0 <= index < found.len() ==> #[trigger] entries[index] == session_model::weighed(
            core.entries,
            found[index],
        ));
    let taken = CoreModel { pending_scan: None, ..core };
    let listed = CoreModel {
        missing_anchor: taken.place_left(entries),
        entries,
        listing_scope: Some(scope),
        ..taken
    };
    session_laws::lemma_sweep_keeps_the_view(listed);
    if found.len() > 0 {
        session_laws::lemma_load_anchors_the_item(listed, entries[0].location, stat);
    }
}

/// A scan that failed fails the view where it was to open something, and only then.
pub proof fn lemma_failed_scan_fails_what_it_was_to_open(
    core: CoreModel,
    scope: ScopeModel,
    error: ErrorModel,
    stat: StatModel,
)
    requires
        core.pending_scan matches Some(pending) && pending.scope.covers(scope),
    ensures
        ({
            let purpose = core.pending_scan->0.purpose;
            let (after, install) = core.installed(
                scope,
                core.options.sort_mode,
                core.options.sort_descending,
                ScanModel::Failed(error),
                stat,
            );
            &&& after.pending_scan is None
            &&& after.entries == core.entries
            &&& after.current == core.current
            &&& purpose == ScanPurpose::Refresh ==> after.request == core.request
            &&& purpose != ScanPurpose::Refresh ==> after.request == RequestModel::Failed(
                Place::File(scope.path()),
                error,
            )
        }),
{
    reveal(CoreModel::installed);
}

/// Reloading shows nothing stale: the item's cached decode is gone before it loads again, and a file's
/// listing is collected anew.
pub proof fn lemma_reload_starts_over(core: CoreModel, path: Seq<u16>, metadata: ItemMetadata)
    requires
        core.anchor() == Some(Place::File(path)),
        !crate::archive::is_archive_path(path),
        session_model::cache_is_keyed(core.cache),
        core.cache.len() <= usize::MAX,
    ensures
        ({
            let (after, outcome) = core.reloaded(StatModel::Found(metadata));
            &&& outcome == Some(LoadOutcome::Pending)
            &&& after.request == RequestModel::Pending(Place::File(path))
            &&& after.current == core.current
            &&& after.entries == core.entries
            &&& (core.pending_scan is None && core.listing_scope is Some) ==> after.pending_scan
                == Some(
                PendingModel { scope: core.listing_scope->0, purpose: ScanPurpose::Refresh },
            )
            &&& (core.pending_scan is Some || core.listing_scope is None) ==> after.pending_scan
                == core.pending_scan
        }),
        core.anchor() is None ==> core.reloaded(StatModel::Found(metadata)) == (
            core,
            None::<LoadOutcome>,
        ),
{
    let item = Place::File(path);
    let fresh = core.forgetting(item);
    lemma_forgotten_item_is_gone(core, item);
    lemma_file_shows_from_the_cache(fresh, path, metadata);
    session_laws::lemma_load_anchors_the_item(fresh, item, StatModel::Found(metadata));
}

proof fn lemma_cache_position(cache: Seq<CacheModel>, item: Place, from: int)
    requires
        0 <= from,
        cache.len() <= usize::MAX,
    ensures
        match session_model::cache_position_from(cache, item.identity(), from) {
            Some(index) => from <= index < cache.len() && cache[index as int].location.identity()
                == item.identity(),
            None => forall|index: int|
                from <= index < cache.len() ==> (#[trigger] cache[index]).location.identity()
                    != item.identity(),
        },
    decreases cache.len() - from,
{
    if from < cache.len() {
        lemma_cache_position(cache, item, from + 1);
    }
}

/// The cache no longer holds an item that was forgotten, and holds every other one it did.
pub proof fn lemma_forgotten_item_is_gone(core: CoreModel, item: Place)
    requires
        session_model::cache_is_keyed(core.cache),
        core.cache.len() <= usize::MAX,
    ensures
        session_model::cached(core.forgetting(item).cache, item) is None,
        forall|index: int|
            0 <= index < core.cache.len() && core.cache[index].location.identity()
                != item.identity() ==> core.forgetting(item).cache.contains(
                #[trigger] core.cache[index],
            ),
{
    lemma_cache_position(core.cache, item, 0);
    let after = core.forgetting(item).cache;
    lemma_cache_position(after, item, 0);
    if let Some(found) = session_model::cache_position(core.cache, item) {
        if let Some(again) = session_model::cache_position(after, item) {
            let other = if again < found {
                again as int
            } else {
                again + 1
            };
            assert(after[again as int] == core.cache[other]);
            assert(false);
        }
        assert forall|index: int|
            0 <= index < core.cache.len() && core.cache[index].location.identity()
                != item.identity() implies after.contains(#[trigger] core.cache[index]) by {
            if index < found {
                assert(after[index] == core.cache[index]);
            } else {
                assert(after[index - 1] == core.cache[index]);
            }
        }
    } else {
        assert forall|index: int| 0 <= index < core.cache.len() implies after.contains(
            #[trigger] core.cache[index],
        ) by {
            assert(after[index] == core.cache[index]);
        }
    }
}

/// Deleting an item takes it, and nothing else, out of the listing. The view empties where nothing
/// takes its place.
pub proof fn lemma_deletion_unlists_the_item(
    core: CoreModel,
    item: Place,
    preferred: NavigationCommand,
    index: int,
)
    requires
        core.entries.len() <= usize::MAX,
        listed_once(core.entries),
        0 <= index < core.entries.len(),
        core.entries[index].location.identity() == item.identity(),
    ensures
        core.deleting(item, preferred).entries == core.entries.subrange(0, index)
            + core.entries.subrange(index + 1, core.entries.len() as int),
        core.successor(item, preferred) is None ==> core.deleting(item, preferred).current is None
            && core.deleting(item, preferred).request == RequestModel::Idle,
        core.successor(item, preferred) is Some ==> core.deleting(item, preferred).current
            == core.current && core.deleting(item, preferred).request == core.request,
{
    lemma_listed_item_is_found(core.entries, item, index);
    assert(core.entries.remove(index) =~= core.entries.subrange(0, index)
        + core.entries.subrange(index + 1, core.entries.len() as int));
}

/// What takes the place of a deleted item is its neighbour the preferred way, and the other neighbour
/// where there is none that way.
pub proof fn lemma_neighbour_takes_the_place(
    core: CoreModel,
    index: int,
    backward: bool,
    path: Seq<u16>,
)
    requires
        core.entries.len() <= usize::MAX,
        listed_once(core.entries),
        0 <= index < core.entries.len(),
        core.anchored_on(core.entries[index].location),
        !core.options.loop_within_folder,
    ensures
        ({
            let item = core.entries[index].location;
            let count = core.entries.len();
            let preferred = if backward {
                NavigationCommand::Previous
            } else {
                NavigationCommand::Next
            };
            let successor = core.successor(item, preferred);
            &&& !backward && index + 1 < count && core.entries[index + 1].location == Place::File(
                path,
            ) ==> successor == Some(path)
            &&& !backward && index + 1 == count && index > 0 && core.entries[index - 1].location
                == Place::File(path) ==> successor == Some(path)
            &&& backward && index > 0 && core.entries[index - 1].location == Place::File(path)
                ==> successor == Some(path)
            &&& backward && index == 0 && count > 1 && core.entries[1].location == Place::File(path)
                ==> successor == Some(path)
            &&& count == 1 ==> successor is None
        }),
{
    lemma_steps_lead_to_the_neighbours(core, index);
    let item = core.entries[index].location;
    if index + 1 < core.entries.len() {
        assert(core.entries[index + 1].location.identity() != item.identity());
    }
    if index > 0 {
        assert(core.entries[index - 1].location.identity() != item.identity());
    }
}

/// A probe records what it found, of its own item alone: the weight, or that there is none. A
/// cancelled probe records nothing.
pub proof fn lemma_probe_records_its_weight(
    core: CoreModel,
    item: Place,
    cancelled: bool,
    weight: Option<u64>,
    index: int,
)
    requires
        core.entries.len() <= usize::MAX,
        listed_once(core.entries),
        0 <= index < core.entries.len(),
    ensures
        ({
            let after = core.probed(item, cancelled, weight);
            let own = core.entries[index].location.identity() == item.identity();
            &&& after.entries.len() == core.entries.len()
            &&& own && !cancelled && weight is Some ==> after.entries[index].weight
                == DecodedWeight::Known(weight->0)
            &&& own && !cancelled && weight is None ==> after.entries[index].weight
                == DecodedWeight::Unavailable
            &&& !own || cancelled ==> after.entries[index] == core.entries[index]
            &&& after.entries[index].location == core.entries[index].location
            &&& after.current == core.current
            &&& after.request == core.request
        }),
{
    listing::lemma_entry_position(core.entries, item, 0);
    if core.entries[index].location.identity() == item.identity() {
        lemma_listed_item_is_found(core.entries, item, index);
    }
    let answered = CoreModel {
        submitted_probes: session_model::withdrawn(core.submitted_probes, item),
        ..core
    };
    let recorded = match listing::entry_position(core.entries, item) {
        Some(found) => if cancelled {
            answered
        } else {
            CoreModel {
                entries: core.entries.update(
                    found as int,
                    EntryModel {
                        weight: match weight {
                            Some(bytes) => DecodedWeight::Known(bytes),
                            None => DecodedWeight::Unavailable,
                        },
                        ..core.entries[found as int]
                    },
                ),
                ..answered
            }
        },
        None => answered,
    };
    session_laws::lemma_sweep_keeps_the_view(recorded);
}

/// Other options list the folder again where they decide what is listed or in what order; options
/// that do not leave the listing as it is, and the same options leave everything.
pub proof fn lemma_options_relist_where_they_must(
    core: CoreModel,
    options: CoreOptions,
    items: Seq<crate::scan::FolderItemModel>,
)
    ensures
        core.with_options(options, items).options == options,
        core.with_options(options, items).current == core.current,
        core.with_options(options, items).request == core.request,
        options == core.options ==> core.with_options(options, items) == core,
        options.sort_mode == core.options.sort_mode && options.sort_descending
            == core.options.sort_descending && options.skip_hidden == core.options.skip_hidden
            && options.detect_format_by_content == core.options.detect_format_by_content
            ==> core.with_options(options, items).entries == core.entries,
        (options.sort_mode != core.options.sort_mode || options.sort_descending
            != core.options.sort_descending) && core.listing_scope is Some
            && core.listing_scope->0 is Archive ==> core.with_options(options, items).entries
            == listing::arranged(core.entries, options),
        (options.sort_mode != core.options.sort_mode || options.sort_descending
            != core.options.sort_descending || options.skip_hidden != core.options.skip_hidden
            || options.detect_format_by_content != core.options.detect_format_by_content)
            && core.listing_scope is Some && core.listing_scope->0 is Directory
            ==> core.with_options(options, items).entries == session_model::carried(
            core.entries,
            listing::arranged(crate::scan::folder_entries(items, options), options),
        ),
{
    let changed = CoreModel { options, ..core };
    session_laws::lemma_sweep_keeps_the_view(changed);
    session_laws::lemma_sweep_keeps_the_view(changed.listing_rescanned(items));
}

proof fn lemma_generation_filter(cache: Seq<CacheModel>, generation: Option<u64>)
    ensures
        forall|index: int|
            0 <= index < session_model::cache_of_generation(cache, generation).len() ==> ({
                let kept = #[trigger] session_model::cache_of_generation(cache, generation)[index];
                cache.contains(kept) && (kept.texture matches Some(uploaded) ==> Some(
                    uploaded.generation,
                ) == generation)
            }),
        forall|index: int|
            0 <= index < cache.len() && !((#[trigger] cache[index]).texture matches Some(uploaded)
                && Some(uploaded.generation) != generation) ==> session_model::cache_of_generation(
                cache,
                generation,
            ).contains(cache[index]),
    decreases cache.len(),
{
    if cache.len() > 0 {
        let rest = cache.drop_last();
        lemma_generation_filter(rest, generation);
        let kept = session_model::cache_of_generation(cache, generation);
        let before = session_model::cache_of_generation(rest, generation);
        assert forall|index: int| 0 <= index < kept.len() implies cache.contains(
            #[trigger] kept[index],
        ) && (kept[index].texture matches Some(uploaded) ==> Some(uploaded.generation)
            == generation) by {
            if index < before.len() {
                assert(kept[index] == before[index]);
                let place = choose|place: int|
                    0 <= place < rest.len() && rest[place] == before[index];
                assert(cache[place] == before[index]);
            } else {
                assert(kept[index] == cache[cache.len() - 1]);
            }
        }
        assert forall|index: int|
            0 <= index < cache.len() && !((#[trigger] cache[index]).texture matches Some(uploaded)
                && Some(uploaded.generation) != generation) implies kept.contains(cache[index]) by {
            if index < rest.len() {
                assert(rest[index] == cache[index]);
                let place = choose|place: int|
                    0 <= place < before.len() && before[place] == rest[index];
                assert(kept[place] == cache[index]);
            } else {
                assert(kept[kept.len() - 1] == cache[index]);
            }
        }
    }
}

/// Once another device is in use, no texture of an older one is held anywhere; everything else is.
pub proof fn lemma_device_change_drops_old_textures(core: CoreModel, device: Option<UploadDevice>)
    ensures
        ({
            let after = core.with_device(device);
            let generation = match device {
                Some(found) => Some(found.generation),
                None => None,
            };
            &&& after.upload_device == device
            &&& after.upload_device_generation == generation
            &&& forall|index: int|
                0 <= index < after.cache.len() ==> ((
                #[trigger] after.cache[index]).texture matches Some(uploaded) ==> Some(
                    uploaded.generation,
                ) == generation)
            &&& after.current matches Some(current) ==> (current.texture matches Some(uploaded)
                ==> Some(uploaded.generation) == generation)
            &&& core.current matches Some(current) ==> (after.current matches Some(kept)
                && kept.image == current.image && kept.location == current.location)
            &&& forall|index: int|
                0 <= index < core.cache.len() && (#[trigger] core.cache[index]).texture is None
                    ==> after.cache.contains(core.cache[index])
            &&& after.entries == core.entries
            &&& after.request == core.request
        }),
{
    let generation = match device {
        Some(found) => Some(found.generation),
        None => None,
    };
    lemma_generation_filter(core.cache, generation);
}

/// Caching an item is finding it: what was cached last of it is what the cache holds of it.
pub proof fn lemma_cached_item_is_found(core: CoreModel, entry: CacheModel)
    requires
        core.cache.len() < usize::MAX,
        session_model::cache_is_keyed(core.cache),
    ensures
        session_model::cached(core.caching(entry).cache, entry.location) matches Some(held)
            && held.image == entry.image && held.metadata == entry.metadata && held.preview
            == entry.preview && held.texture == entry.texture,
        core.caching(entry).current == core.current,
        core.caching(entry).request == core.request,
{
    lemma_cache_position(core.cache, entry.location, 0);
    let after = core.caching(entry).cache;
    lemma_cache_position(after, entry.location, 0);
    let again = session_model::cache_position(after, entry.location);
    if let Some(found) = session_model::cache_position(core.cache, entry.location) {
        assert(after[found as int].location.identity() == entry.location.identity());
        if let Some(other) = again {
            if other != found {
                assert(after[other as int] == core.cache[other as int]);
                if other < found {
                    assert(core.cache[other as int].location.identity()
                        != core.cache[found as int].location.identity());
                } else {
                    assert(core.cache[found as int].location.identity()
                        != core.cache[other as int].location.identity());
                }
            }
        }
    } else {
        assert(after[after.len() - 1] == entry);
        if let Some(other) = again {
            if other < core.cache.len() {
                assert(after[other as int] == core.cache[other as int]);
            }
        }
    }
}

/// A submission that is withdrawn is gone; all others stay.
pub proof fn lemma_withdrawn_submission_is_gone(
    submissions: Seq<SubmissionModel>,
    item: Place,
    index: int,
)
    requires
        submissions.len() <= usize::MAX,
        0 <= index < submissions.len(),
        submissions[index].location.identity() != item.identity(),
    ensures
        session_model::withdrawn(submissions, item).contains(submissions[index]),
        session_model::withdrawn(submissions, item).len() <= submissions.len(),
{
    lemma_submission_place(submissions, item, 0);
    let after = session_model::withdrawn(submissions, item);
    if let Some(found) = session_model::submission(submissions, item) {
        if index < found {
            assert(after[index] == submissions[index]);
        } else {
            assert(after[index - 1] == submissions[index]);
        }
    } else {
        assert(after[index] == submissions[index]);
    }
}

proof fn lemma_submission_place(submissions: Seq<SubmissionModel>, item: Place, from: int)
    requires
        0 <= from,
        submissions.len() <= usize::MAX,
    ensures
        match session_model::submission_from(submissions, item.identity(), from) {
            Some(index) => from <= index < submissions.len()
                && submissions[index as int].location.identity() == item.identity(),
            None => forall|index: int|
                from <= index < submissions.len() ==> (
                #[trigger] submissions[index]).location.identity() != item.identity(),
        },
    decreases submissions.len() - from,
{
    if from < submissions.len() {
        lemma_submission_place(submissions, item, from + 1);
    }
}

/// Files and archives are the same whatever the case of their path; members and URLs are the same
/// only letter for letter, and none of the three is ever another.
pub proof fn lemma_items_are_told_apart(
    first: Seq<u16>,
    second: Seq<u16>,
    name: Seq<char>,
    other: Seq<char>,
)
    ensures
        Place::File(first).identity() == Place::File(second).identity() <==> crate::text::folded(
            first,
        ) == crate::text::folded(second),
        Place::Url(name).identity() == Place::Url(other).identity() <==> name == other,
        (Place::ArchiveMember { archive: first, member: name }).identity()
            == (Place::ArchiveMember { archive: second, member: other }).identity() <==> (
        crate::text::folded(first) == crate::text::folded(second) && name == other),
        Place::File(first).identity() != Place::Url(name).identity(),
        Place::File(first).identity() != (Place::ArchiveMember {
            archive: second,
            member: name,
        }).identity(),
        Place::Url(name).identity() != (Place::ArchiveMember {
            archive: first,
            member: other,
        }).identity(),
{
    let one = Place::ArchiveMember { archive: first, member: name };
    let two = Place::ArchiveMember { archive: second, member: other };
    assert(one.identity()->archive == crate::text::folded(first));
    assert(two.identity()->archive == crate::text::folded(second));
}

} // verus!
