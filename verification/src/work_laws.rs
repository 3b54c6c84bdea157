//! What a session works on ahead of time, what it keeps, and what it lets go of.

use vstd::prelude::*;

use crate::image;
use crate::image::{ImageModel, UploadedTexture};
use crate::listing;
use crate::listing::{DecodedWeight, EntryModel, ItemMetadata};
use crate::location::Place;
use crate::navigation;
use crate::navigation::AnchorIndex;
use crate::registry;
use crate::session_laws;
use crate::session_model;
use crate::session_model::{
    CacheModel, CoreModel, JobKind, JobModel, LoadOutcome, MissingModel, RequestModel, StatModel,
    SubmissionModel,
};

verus! {

/// A session that just started is about nothing and works on nothing.
pub proof fn lemma_new_session_is_about_nothing(options: crate::listing::CoreOptions)
    ensures
        ({
            let core = session_model::idle(options);
            &&& core.options == options
            &&& core.anchor() is None
            &&& core.entries.len() == 0
            &&& core.cache.len() == 0
            &&& core.queue.len() == 0
            &&& core.submitted_decodes.len() == 0 && core.submitted_probes.len() == 0
            &&& core.effects.len() == 0
            &&& core.sound()
        }),
{
}

/// The preload reaches an entry exactly where one of its offsets leads there.
pub proof fn lemma_preload_reaches_its_offsets(
    anchor: AnchorIndex,
    offsets: Seq<int>,
    length: int,
    looped: bool,
    index: usize,
)
    ensures
        session_model::reached(anchor, offsets, length, looped).contains(index) <==> exists|
            place: int,
        |
            0 <= place < offsets.len() && navigation::offset_index(
                anchor,
                #[trigger] offsets[place],
                length,
                looped,
            ) == Some(index),
    decreases offsets.len(),
{
    if offsets.len() > 0 {
        let rest = offsets.drop_last();
        lemma_preload_reaches_its_offsets(anchor, rest, length, looped, index);
        let before = session_model::reached(anchor, rest, length, looped);
        let after = session_model::reached(anchor, offsets, length, looped);
        let last = navigation::offset_index(anchor, offsets.last(), length, looped);
        assert(forall|place: int|
            0 <= place < rest.len() ==> #[trigger] rest[place] == offsets[place]);
        if before.contains(index) {
            let place = choose|place: int| 0 <= place < before.len() && before[place] == index;
            assert(after[place] == index);
            let offset = choose|offset: int|
                0 <= offset < rest.len() && navigation::offset_index(
                    anchor,
                    #[trigger] rest[offset],
                    length,
                    looped,
                ) == Some(index);
            assert(offsets[offset] == rest[offset]);
        } else if last == Some(index) {
            assert(after[after.len() - 1] == index);
            assert(offsets[offsets.len() - 1] == offsets.last());
        } else {
            if after.contains(index) {
                let place = choose|place: int| 0 <= place < after.len() && after[place] == index;
                assert(before[place] == index);
            }
            assert forall|place: int|
                0 <= place < offsets.len() implies navigation::offset_index(
                anchor,
                #[trigger] offsets[place],
                length,
                looped,
            ) != Some(index) by {
                if place < rest.len() {
                    assert(rest[place] == offsets[place]);
                }
            }
        }
    }
}

/// A candidate is worth a decode where its weight is known, no decode of it is under way, and the cache
/// holds nothing of it as it is on disk.
pub proof fn lemma_worthwhile_candidates(core: CoreModel, candidate: usize)
    requires
        core.submitted_decodes.len() <= usize::MAX,
        core.cache.len() <= usize::MAX,
    ensures
        ({
            let entry = core.entries[candidate as int];
            let under_way = exists|index: int|
                0 <= index < core.submitted_decodes.len() && (
                #[trigger] core.submitted_decodes[index]).location.identity()
                    == entry.location.identity();
            let held = session_model::cached(core.cache, entry.location);
            let current = held is Some && held->0.metadata.file_size == entry.file_size
                && held->0.metadata.modified == Some(entry.modified);
            core.is_submittable(candidate) <==> entry.weight is Known && !under_way && !current
        }),
{
    lemma_submission_is_found(
        core.submitted_decodes,
        core.entries[candidate as int].location,
        0,
    );
}

proof fn lemma_submission_is_found(submissions: Seq<SubmissionModel>, item: Place, from: int)
    requires
        0 <= from,
        submissions.len() <= usize::MAX,
    ensures
        match session_model::submission_from(submissions, item.identity(), from) {
            Some(index) => from <= index < submissions.len() && (
            submissions[index as int]).location.identity() == item.identity(),
            None => forall|index: int|
                from <= index < submissions.len() ==> (
                #[trigger] submissions[index]).location.identity() != item.identity(),
        },
    decreases submissions.len() - from,
{
    if from < submissions.len() {
        lemma_submission_is_found(submissions, item, from + 1);
    }
}

/// A guess is queued last, under a ticket of its own: an item that decodes in two stages by its preview
/// alone, any other in full.
pub proof fn lemma_guess_is_queued_last(
    core: CoreModel,
    candidates: Seq<usize>,
    selected: Seq<bool>,
)
    requires
        candidates.len() > 0,
        selected[candidates.len() - 1],
    ensures
        ({
            let before = core.with_selected(candidates.drop_last(), selected);
            let after = core.with_selected(candidates, selected);
            let entry = core.entries[candidates.last() as int];
            let job = after.queue.last();
            &&& after.queue.len() == before.queue.len() + 1
            &&& job.location == entry.location
            &&& job.metadata.file_size == entry.file_size && job.metadata.modified == Some(
                entry.modified,
            )
            &&& job.speculative
            &&& job.ticket == before.next_ticket
            &&& job.kind == (if session_model::is_deferred(entry.location) {
                JobKind::Preview
            } else {
                JobKind::Full
            })
        }),
{
}

/// Only a raw image or a JPEG XR in a file of its own decodes in two stages.
pub proof fn lemma_two_stage_items(item: Place)
    ensures
        session_model::is_deferred(item) <==> (item matches Place::File(path)
            && (registry::format_of_path_extension(path) == Some(registry::ImageFormat::Raw)
            || registry::format_of_path_extension(path) == Some(registry::ImageFormat::JpegXr))),
{
}

/// A pending item without a preview is decoded by its preview first; one whose preview is there is decoded
/// in full, or waits for the lull where it decodes in two stages.
pub proof fn lemma_pending_item_gets_what_it_needs(
    core: CoreModel,
    item: Place,
    metadata: ItemMetadata,
)
    ensures
        core.with_pending_decode(item, metadata, false).queue[0].kind == JobKind::Preview,
        core.with_pending_decode(item, metadata, false).queue[0].location == item,
        !session_model::is_deferred(item) ==> core.with_pending_decode(
            item,
            metadata,
            true,
        ).queue[0].kind == JobKind::Full && core.with_pending_decode(
            item,
            metadata,
            true,
        ).queue[0].location == item,
        session_model::is_deferred(item) ==> core.with_pending_decode(item, metadata, true) == core,
{
}

/// An item that is probed takes a probe's job at the end of the queue, and counts as probed until it
/// answers.
pub proof fn lemma_probe_is_queued(core: CoreModel, item: Place)
    requires
        core.submitted_probes.len() < usize::MAX,
    ensures
        ({
            let after = core.with_probe(item);
            &&& after.queue.len() == core.queue.len() + 1
            &&& after.queue.last().kind == JobKind::Probe
            &&& after.queue.last().location == item
            &&& after.queue.last().ticket == core.next_ticket
            &&& session_model::submission(after.submitted_probes, item) is Some
            &&& after.submitted_decodes == core.submitted_decodes
        }),
{
    lemma_resubmitted_is_found(core.submitted_probes, item, core.next_ticket);
}

/// An item that is submitted is found among the submissions under its newest ticket, and every other
/// submission stays.
pub proof fn lemma_resubmitted_is_found(
    submissions: Seq<SubmissionModel>,
    item: Place,
    ticket: u64,
)
    requires
        submissions.len() <= usize::MAX,
    ensures
        ({
            let after = session_model::resubmitted(submissions, item, ticket);
            &&& submissions.len() <= after.len() <= submissions.len() + 1
            &&& exists|index: int|
                0 <= index < after.len() && (#[trigger] after[index]).location.identity()
                    == item.identity() && after[index].ticket == ticket
            &&& forall|index: int|
                0 <= index < submissions.len() && submissions[index].location.identity()
                    != item.identity() ==> #[trigger] after[index] == submissions[index]
        }),
        submissions.len() < usize::MAX ==> session_model::submission(
            session_model::resubmitted(submissions, item, ticket),
            item,
        ) is Some,
        session_model::submission(submissions, item) is Some ==> session_model::submission(
            session_model::resubmitted(submissions, item, ticket),
            item,
        ) is Some,
{
    lemma_submission_is_found(submissions, item, 0);
    let after = session_model::resubmitted(submissions, item, ticket);
    match session_model::submission(submissions, item) {
        Some(index) => {
            assert(after[index as int].location.identity() == item.identity());
            lemma_submission_is_found(after, item, 0);
        },
        None => {
            assert(after[submissions.len() as int].ticket == ticket);
            if submissions.len() < usize::MAX {
                lemma_submission_is_found(after, item, 0);
            }
        },
    }
}

/// A cached item weighs the bytes it holds, or those of its texture; a preview weighs what the full decode
/// is known to weigh.
pub proof fn lemma_cached_items_weigh_what_they_hold(core: CoreModel, entry: CacheModel)
    ensures
        !entry.preview && entry.image.pixel_bytes() > 0 ==> core.cached_weight(entry)
            == entry.image.pixel_bytes(),
        !entry.preview && entry.image.pixel_bytes() == 0 && entry.texture is Some
            ==> core.cached_weight(entry) == entry.image.pixel_width
            * entry.image.storage.pixel_size() * entry.image.pixel_height,
        !entry.preview && entry.image.pixel_bytes() == 0 && entry.texture is None
            ==> core.cached_weight(entry) == 0,
        entry.preview ==> (core.listed_weight(entry.location) matches Some(weight)
            ==> core.cached_weight(entry) == weight),
{
}

/// The listing knows an item's weight where its entry does.
pub proof fn lemma_listed_weight_is_the_entrys(core: CoreModel, item: Place, weight: u64)
    requires
        core.entries.len() <= usize::MAX,
    ensures
        core.listed_weight(item) == Some(weight) ==> exists|index: int|
            0 <= index < core.entries.len() && (#[trigger] core.entries[index]).location.identity()
                == item.identity() && core.entries[index].weight == DecodedWeight::Known(weight),
{
    listing::lemma_entry_position(core.entries, item, 0);
}

/// An image whose pixels a texture holds is cached without them; any other is cached as it is.
pub proof fn lemma_textured_image_is_cached_without_pixels(
    location: Place,
    metadata: ItemMetadata,
    preview: bool,
    held: ImageModel,
    texture: Option<UploadedTexture>,
)
    ensures
        ({
            let entry = session_model::cache_entry(location, metadata, preview, held, texture);
            &&& entry.location == location && entry.metadata == metadata
            &&& entry.preview == preview && entry.texture == texture
            &&& texture is None ==> entry.image == held
            &&& texture is Some ==> entry.image.pixel_bytes() == 0
            &&& entry.image.width == held.width && entry.image.height == held.height
            &&& entry.image.frames.len() == held.frames.len()
        }),
{
    image::lemma_released_pixels_are_gone(held);
}

/// No image is lost on the way out of the cache: what left it was let go of, one for one.
pub proof fn lemma_what_leaves_the_cache_is_let_go(core: CoreModel)
    ensures
        core.evicted().cache.len() + core.evicted().retired.len() == core.cache.len()
            + core.retired.len(),
        core.drained().cache.len() == 0 && core.drained().retired.len() == core.cache.len()
            + core.retired.len(),
        core.evicted().current == core.current && core.evicted().request == core.request
            && core.evicted().entries == core.entries && core.evicted().queue == core.queue,
{
    reveal(CoreModel::evicted);
    lemma_evictions_are_counted(core, core.cache);
}

proof fn lemma_evictions_are_counted(core: CoreModel, cache: Seq<CacheModel>)
    ensures
        core.cache_within_budget(cache).len() + core.images_over_budget(cache).len() == cache.len(),
    decreases cache.len(),
{
    let (backward, forward, budget) = core.preload_plan();
    let leaving = core.first_to_leave(cache, cache.len() as int);
    if !(cache.len() == 0 || core.cache_weight(cache) <= budget || !(0 <= leaving < cache.len())) {
        lemma_evictions_are_counted(core, cache.remove(leaving));
    }
}

/// What the preload does not aim at leaves the cache, what it aims at stays, and what left was let go of,
/// one for one.
pub proof fn lemma_sweep_keeps_what_is_aimed_at(core: CoreModel, targets: Seq<Place>, index: int)
    requires
        0 <= index < core.cache.len(),
    ensures
        session_model::names_item(targets, core.cache[index].location) ==> core.dropped_outside(
            targets,
        ).cache.contains(core.cache[index]),
        core.dropped_outside(targets).cache.len() + core.dropped_outside(targets).retired.len()
            == core.cache.len() + core.retired.len(),
{
    if session_model::names_item(targets, core.cache[index].location) {
        lemma_inside_and_outside(core.cache, targets, index);
    }
    lemma_inside_and_outside_count(core.cache, targets);
}

proof fn lemma_inside_and_outside(cache: Seq<CacheModel>, targets: Seq<Place>, index: int)
    requires
        0 <= index < cache.len(),
        session_model::names_item(targets, cache[index].location),
    ensures
        session_model::cache_inside(cache, targets).contains(cache[index]),
    decreases cache.len(),
{
    let rest = cache.drop_last();
    let after = session_model::cache_inside(cache, targets);
    if index < rest.len() {
        lemma_inside_and_outside(rest, targets, index);
        let before = session_model::cache_inside(rest, targets);
        let place = choose|place: int| 0 <= place < before.len() && before[place] == rest[index];
        assert(after[place] == cache[index]);
    } else {
        assert(after[after.len() - 1] == cache[index]);
    }
}

proof fn lemma_inside_and_outside_count(cache: Seq<CacheModel>, targets: Seq<Place>)
    ensures
        session_model::cache_inside(cache, targets).len() + session_model::images_outside(
            cache,
            targets,
        ).len() == cache.len(),
    decreases cache.len(),
{
    if cache.len() > 0 {
        lemma_inside_and_outside_count(cache.drop_last(), targets);
    }
}

/// The outgoing image is let go of when another is shown.
pub proof fn lemma_outgoing_image_is_let_go(
    core: CoreModel,
    current: session_model::CurrentModel,
)
    ensures
        core.showing(current).current == Some(current),
        core.current matches Some(previous) ==> core.showing(current).retired == core.retired.push(
            previous.image,
        ),
        core.current is None ==> core.showing(current).retired == core.retired,
        core.cleared().current is None && core.cleared().request == RequestModel::Idle,
        core.current matches Some(previous) ==> core.cleared().retired == core.retired.push(
            previous.image,
        ),
{
}

/// A texture can be read back where it is the only copy of what is shown; what is read back takes its
/// place, and nothing changes where there is nothing to read or it could not be read.
pub proof fn lemma_only_copy_is_read_back(core: CoreModel, bytes: Seq<u8>)
    ensures
        core.only_texture() is Some <==> (core.current matches Some(current)
            && current.image.pixel_bytes() == 0 && current.texture is Some),
        core.recovered(None) == core,
        core.only_texture() is None ==> core.recovered(Some(bytes)) == core,
        core.only_texture() is Some && core.current->0.image.frames.len() > 0 ==> (core.recovered(
            Some(bytes),
        ).current matches Some(after) && after.texture is None && after.image.frames[0].pixels
            == bytes && after.location == core.current->0.location && after.metadata
            == core.current->0.metadata),
{
}

/// A full decode starts where the view waits on an item of which it shows a preview and no decode runs; it
/// goes ahead of everything queued.
pub proof fn lemma_waiting_full_decode_starts(core: CoreModel, item: Place)
    requires
        core.request == RequestModel::Pending(item),
    ensures
        core.awaits_full_decode() is Some <==> (session_model::cached(
            core.cache,
            item,
        ) matches Some(entry) && entry.preview && session_model::submission(
            core.submitted_decodes,
            item,
        ) is None),
        core.awaits_full_decode() is Some ==> ({
            let after = core.with_full_decode();
            &&& after.queue[0].location == item
            &&& after.queue[0].kind == JobKind::Full
            &&& !after.queue[0].speculative
            &&& after.queue[0].metadata == core.awaits_full_decode()->0.metadata
            &&& after.request == core.request
        }),
        core.awaits_full_decode() is None ==> core.with_full_decode() == core,
{
}

/// A load that is waited on shows something else until it arrives.
pub proof fn lemma_first_view_is_awaited(core: CoreModel)
    ensures
        core.awaits_first_view() <==> core.request is Pending && !(core.current is Some
            && core.current->0.location.identity() == core.request->Pending_0.identity()),
{
}

/// An arrival records its own weight: the bytes it holds, or those of the texture it was uploaded to.
pub proof fn lemma_arrival_records_its_weight(
    core: CoreModel,
    item: Place,
    held: ImageModel,
    index: int,
)
    requires
        core.entries.len() <= usize::MAX,
        listing::entry_position(core.entries, item) == Some(index as usize),
        0 <= index < core.entries.len(),
    ensures
        held.pixel_bytes() > 0 ==> core.with_arrived_weight(item, held).entries[index].weight
            == DecodedWeight::Known(held.pixel_bytes() as u64),
        held.pixel_bytes() == 0 ==> core.with_arrived_weight(item, held).entries[index].weight
            == DecodedWeight::Known(held.frame_byte_length() as u64),
        forall|other: int|
            0 <= other < core.entries.len() && other != index
                ==> #[trigger] core.with_arrived_weight(item, held).entries[other]
                == core.entries[other],
{
}

/// The weights of drawings follow the display and are forgotten with it; all others stay.
pub proof fn lemma_drawings_are_weighed_again(entries: Seq<EntryModel>, index: int)
    requires
        0 <= index < entries.len(),
    ensures
        ({
            let after = session_model::without_display_weights(entries);
            let drawing = entries[index].location.extension() is Some
                && registry::format_of_extension(entries[index].location.extension()->0) == Some(
                registry::ImageFormat::Svg,
            );
            &&& after.len() == entries.len()
            &&& drawing ==> after[index].weight == DecodedWeight::Unknown
            &&& !drawing ==> after[index] == entries[index]
            &&& after[index].location == entries[index].location
        }),
{
}

/// The menu's window is centered on the item, or on the place it left.
pub proof fn lemma_window_centers_on_the_anchor(core: CoreModel)
    ensures
        core.anchor_index() matches AnchorIndex::Listed(index) ==> core.window_center() == Some(
            index,
        ),
        core.anchor_index() matches AnchorIndex::Missing(index) ==> core.window_center() == Some(
            index,
        ),
        core.anchor_index() is Unlisted ==> core.window_center() is None,
{
}

/// An item is where the listing holds it; one that left is behind what it was left behind, or in front.
pub proof fn lemma_anchor_index_is_its_place(core: CoreModel, item: Place)
    requires
        core.entries.len() < usize::MAX,
        core.anchor() == Some(item),
    ensures
        core.anchor_index() matches AnchorIndex::Listed(index) ==> index < core.entries.len()
            && core.entries[index as int].location.identity() == item.identity(),
        (forall|index: int|
            0 <= index < core.entries.len() ==> (#[trigger] core.entries[index]).location.identity()
                != item.identity()) ==> match core.missing_anchor {
            None => core.anchor_index() is Unlisted,
            Some(MissingModel::Front) => core.anchor_index() == AnchorIndex::Missing(0),
            Some(MissingModel::After(before)) => match core.anchor_index() {
                AnchorIndex::Missing(index) => 1 <= index <= core.entries.len()
                    && core.entries[index - 1].location.identity() == before.identity(),
                AnchorIndex::Unlisted => true,
                AnchorIndex::Listed(_) => false,
            },
        },
{
    listing::lemma_entry_position(core.entries, item, 0);
    if let Some(MissingModel::After(before)) = core.missing_anchor {
        listing::lemma_entry_position(core.entries, before, 0);
    }
}

/// An item that left the listing is remembered behind its nearest predecessor that stayed, and in front
/// where none did.
pub proof fn lemma_nearest_survivor_is_remembered(
    entries: Seq<EntryModel>,
    incoming: Seq<EntryModel>,
    end: int,
)
    requires
        0 <= end <= entries.len() <= usize::MAX,
    ensures
        match session_model::survivor_below(entries, incoming, end) {
            Some(index) => index < end && listing::entry_position(
                incoming,
                entries[index as int].location,
            ) is Some && forall|between: int|
                index < between < end ==> listing::entry_position(
                    incoming,
                    (#[trigger] entries[between]).location,
                ) is None,
            None => forall|index: int|
                0 <= index < end ==> listing::entry_position(
                    incoming,
                    (#[trigger] entries[index]).location,
                ) is None,
        },
    decreases end,
{
    if end > 0 {
        lemma_nearest_survivor_is_remembered(entries, incoming, end - 1);
    }
}

/// A URL that is empty, that comes over another protocol, or that names an archive is refused; every other
/// one is tried.
pub proof fn lemma_refused_urls(url: Seq<char>)
    ensures
        CoreModel::url_refusal(url) is None <==> url.len() > 0 && crate::url::supported_protocol(url)
            && !crate::archive::is_archive_url(url),
        url.len() == 0 ==> CoreModel::url_refusal(url) == Some("No URL in the clipboard"@),
        url.len() > 0 && !crate::url::supported_protocol(url) ==> CoreModel::url_refusal(url)
            == Some("Unsupported URL protocol"@),
        url.len() > 0 && crate::url::supported_protocol(url) && crate::archive::is_archive_url(url)
            ==> CoreModel::url_refusal(url) == Some("Archives are not supported from a URL"@),
{
}

/// A remote item that the cache holds is shown from it; one that it does not is downloaded.
pub proof fn lemma_remote_item_shows_from_the_cache(core: CoreModel, url: Seq<char>, stat: StatModel)
    ensures
        ({
            let item = Place::Url(url);
            let (after, outcome) = core.loaded(item, stat);
            let held = session_model::cached(core.cache, item);
            &&& (held matches Some(entry) && entry.metadata.modified is None) ==> outcome
                == LoadOutcome::Shown && (after.current matches Some(current) && current.location
                == item && current.image == held->0.image)
            &&& held is None ==> outcome == LoadOutcome::Pending && after.request
                == RequestModel::Pending(item) && after.current == core.current
        }),
{
    reveal(CoreModel::loaded);
    let item = Place::Url(url);
    let owned = core.requesting(item);
    let metadata = ItemMetadata {
        file_size: match session_model::cached(core.cache, item) {
            Some(entry) => entry.metadata.file_size,
            None => 0,
        },
        modified: None,
    };
    session_laws::lemma_sweep_keeps_the_view(owned.awaiting(item, metadata, false));
    if let Some(entry) = session_model::cached(core.cache, item) {
        let shown = owned.showing(
            session_model::CurrentModel {
                location: item,
                image: entry.image,
                texture: entry.texture,
                metadata,
            },
        );
        session_laws::lemma_sweep_keeps_the_view(shown.awaiting(item, metadata, true));
    }
}

/// A decode under way that is waited on again is revived, and goes to the head of the queue where no
/// worker has taken it.
pub proof fn lemma_running_decode_is_revived(
    core: CoreModel,
    item: Place,
    metadata: ItemMetadata,
    index: usize,
)
    requires
        session_model::submission(core.submitted_decodes, item) == Some(index),
    ensures
        ({
            let after = core.awaiting(item, metadata, false);
            &&& after.request == RequestModel::Pending(item)
            &&& after.submitted_decodes == core.submitted_decodes
            &&& after.effects.last() == (session_model::EffectModel::Cancel {
                ticket: core.submitted_decodes[index as int].ticket,
                cancelled: false,
            })
            &&& after.effects.len() == core.effects.len() + 1
            &&& after.queue == session_model::promoted(core.queue, item)
        }),
{
}

/// The queue loses no job but those outside what is aimed at, and keeps the order of the rest.
pub proof fn lemma_queue_keeps_what_is_aimed_at(
    queue: Seq<JobModel>,
    targets: Seq<Place>,
    job: JobModel,
)
    ensures
        session_model::jobs_inside(queue.push(job), targets) == (if session_model::names_item(
            targets,
            job.location,
        ) {
            session_model::jobs_inside(queue, targets).push(job)
        } else {
            session_model::jobs_inside(queue, targets)
        }),
        session_model::names_item(targets, job.location) <==> exists|index: int|
            0 <= index < targets.len() && (#[trigger] targets[index]).identity()
                == job.location.identity(),
{
    assert(queue.push(job).drop_last() =~= queue);
}

/// A rescan of the folder in hand waits for one that is under way, and changes nothing until it lands.
pub proof fn lemma_rescan_leaves_the_listing(core: CoreModel)
    ensures
        core.rescanning().entries == core.entries,
        core.rescanning().listing_scope == core.listing_scope,
        core.rescanning().current == core.current && core.rescanning().request == core.request,
        core.pending_scan is Some || core.listing_scope is None ==> core.rescanning() == core,
        core.pending_scan is None ==> (core.listing_scope matches Some(scope)
            ==> core.rescanning().pending_scan == Some(
            session_model::PendingModel { scope, purpose: session_model::ScanPurpose::Refresh },
        ) && core.rescanning().effects.last() == session_model::EffectModel::Scan(
            scope,
            core.options,
        )),
{
}

/// Another item becoming the one the view is about forgets the place the last one left; the same item
/// keeps it.
pub proof fn lemma_place_left_is_forgotten(core: CoreModel, item: Place)
    ensures
        core.requesting(item).request == RequestModel::Idle,
        core.anchored_on(item) ==> core.requesting(item).missing_anchor == core.missing_anchor,
        !core.anchored_on(item) ==> core.requesting(item).missing_anchor is None,
        core.requesting(item).current == core.current,
{
}

/// The directions a step turns: one step against the way the view went is forgiven, a step the way it
/// went starts the count over.
pub proof fn lemma_one_step_back_is_forgiven(core: CoreModel)
    ensures
        core.navigated(navigation::NavigationCommand::Next).navigating_backward
            ==> core.navigating_backward,
        core.navigated(navigation::NavigationCommand::Previous).navigating_backward
            <== core.navigating_backward,
        !core.navigating_backward ==> !core.navigated(
            navigation::NavigationCommand::Next,
        ).navigating_backward,
        !core.navigating_backward && core.opposite_steps == 0 ==> !core.navigated(
            navigation::NavigationCommand::Previous,
        ).navigating_backward && core.navigated(
            navigation::NavigationCommand::Previous,
        ).opposite_steps == 1,
        !core.navigating_backward && core.opposite_steps == 1 ==> core.navigated(
            navigation::NavigationCommand::Previous,
        ).navigating_backward,
        core.navigating_backward && core.opposite_steps == 1 ==> !core.navigated(
            navigation::NavigationCommand::Next,
        ).navigating_backward,
{
}

/// One more submission adds its listed weight to what is under way, and nothing where the cache holds its
/// item already or its weight is not known.
pub proof fn lemma_submission_adds_its_weight(
    core: CoreModel,
    submissions: Seq<SubmissionModel>,
    another: SubmissionModel,
)
    ensures
        ({
            let before = core.submitted_weight(submissions);
            let after = core.submitted_weight(submissions.push(another));
            let held = session_model::cache_position(core.cache, another.location) is Some;
            &&& held ==> after == before
            &&& !held ==> (match core.listed_weight(another.location) {
                Some(weight) => after == before + weight,
                None => after == before,
            })
        }),
        core.submitted_weight(Seq::empty()) == 0,
{
    assert(submissions.push(another).drop_last() =~= submissions);
}

/// A candidate of unknown weight holds the preloads up; where every weight is known or cannot be known,
/// none is waited for.
pub proof fn lemma_unknown_weights_are_probed_first(
    core: CoreModel,
    candidates: Seq<usize>,
    budget: u64,
    index: int,
)
    requires
        0 <= index < candidates.len(),
    ensures
        core.entries[candidates[index] as int].weight is Unknown ==> core.with_preloads(
            candidates,
            budget,
        ) == core.with_probes(candidates),
        core.awaits_probes(candidates) ==> exists|other: int|
            0 <= other < candidates.len() && core.entries[(
            #[trigger] candidates[other]) as int].weight is Unknown,
{
    reveal(CoreModel::with_preloads);
    if core.entries[candidates[index] as int].weight is Unknown {
        assert(core.awaits_probes(candidates));
    }
}

} // verus!
