//! What holds of every session, whatever happens to it.

use vstd::prelude::*;

use crate::listing;
use crate::listing::{DecodedWeight, EntryModel};
use crate::location::Place;
use crate::navigation;
use crate::navigation::AnchorIndex;
use crate::session_model;
use crate::session_model::{
    CacheModel, CoreModel, EffectModel, JobKind, JobModel, LoadOutcome, RequestModel, ScanPurpose,
    StatModel, SubmissionModel,
};

verus! {

/// What a sweep never touches: the options, the listing, the view, the direction.
pub open spec fn same_view(first: CoreModel, second: CoreModel) -> bool {
    &&& first.options == second.options
    &&& first.listing_scope == second.listing_scope
    &&& first.entries == second.entries
    &&& first.request == second.request
    &&& first.current == second.current
    &&& first.navigating_backward == second.navigating_backward
    &&& first.opposite_steps == second.opposite_steps
    &&& first.pending_scan == second.pending_scan
    &&& first.missing_anchor == second.missing_anchor
    &&& first.upload_device == second.upload_device
    &&& first.upload_device_generation == second.upload_device_generation
}

proof fn lemma_probes_keep_the_view(core: CoreModel, candidates: Seq<usize>)
    ensures
        same_view(core, core.with_probes(candidates)),
        core.with_probes(candidates).cache == core.cache,
        core.with_probes(candidates).submitted_decodes == core.submitted_decodes,
    decreases candidates.len(),
{
    if candidates.len() > 0 {
        lemma_probes_keep_the_view(core, candidates.drop_last());
    }
}

proof fn lemma_selection_keeps_the_view(
    core: CoreModel,
    candidates: Seq<usize>,
    selected: Seq<bool>,
)
    ensures
        same_view(core, core.with_selected(candidates, selected)),
        core.with_selected(candidates, selected).cache == core.cache,
    decreases candidates.len(),
{
    if candidates.len() > 0 {
        lemma_selection_keeps_the_view(core, candidates.drop_last(), selected);
    }
}

/// A preload sweep moves work and cached images around and leaves everything the user sees alone.
pub proof fn lemma_sweep_keeps_the_view(core: CoreModel)
    ensures
        same_view(core, core.refreshed()),
{
    reveal(CoreModel::refreshed);
    reveal(CoreModel::evicted);
    reveal(CoreModel::with_preloads);
    reveal(CoreModel::cancelled_outside);
    let targets = core.targets();
    let dropped = core.dropped_outside(targets);
    let candidates = core.candidates();
    let worthwhile = dropped.submittable(candidates);
    let (backward, forward, budget) = core.preload_plan();
    lemma_probes_keep_the_view(dropped, candidates);
    lemma_selection_keeps_the_view(
        dropped,
        worthwhile,
        navigation::fitting(dropped.occupied(), budget as int, dropped.weights(worthwhile)),
    );
}

/// Whatever a load ends in, the item it was asked for is the position baseline afterward, and the
/// listing, the options and the direction stay.
pub proof fn lemma_load_anchors_the_item(core: CoreModel, item: Place, stat: StatModel)
    ensures
        core.loaded(item, stat).0.anchored_on(item),
        core.loaded(item, stat).0.entries == core.entries,
        core.loaded(item, stat).0.options == core.options,
        core.loaded(item, stat).0.listing_scope == core.listing_scope,
        core.loaded(item, stat).0.pending_scan == core.pending_scan,
        core.loaded(item, stat).0.navigating_backward == core.navigating_backward,
        core.loaded(item, stat).0.opposite_steps == core.opposite_steps,
        core.loaded(item, stat).1 == LoadOutcome::Failed <==> core.loaded(item, stat).0.request
            is Failed,
        core.loaded(item, stat).1 == LoadOutcome::Shown ==> (core.loaded(
            item,
            stat,
        ).0.current matches Some(current) && current.location == item),
{
    reveal(CoreModel::loaded);
    let owned = core.requesting(item);
    match owned.load_facts(item, stat) {
        Err(error) => {
            let failed = CoreModel { request: RequestModel::Failed(item, error), ..owned };
            lemma_sweep_keeps_the_view(failed);
        },
        Ok(metadata) => {
            match owned.held(item, metadata) {
                Some(entry) => {
                    let shown = owned.showing(
                        session_model::CurrentModel {
                            location: item,
                            image: entry.image,
                            texture: entry.texture,
                            metadata,
                        },
                    );
                    lemma_sweep_keeps_the_view(shown.awaiting(item, metadata, true));
                },
                None => {
                    lemma_sweep_keeps_the_view(owned.awaiting(item, metadata, false));
                },
            }
        },
    }
}

/// A URL stands alone: opening one, refused or not, leaves no listing and no scan behind.
pub proof fn lemma_url_leaves_no_listing(core: CoreModel, url: Seq<char>)
    ensures
        core.loaded_url(url).0.entries.len() == 0,
        core.loaded_url(url).0.listing_scope is None,
        core.loaded_url(url).0.pending_scan is None,
        core.loaded_url(url).0.anchored_on(Place::Url(url)),
        CoreModel::url_refusal(url) is Some ==> core.loaded_url(url).1 == LoadOutcome::Failed,
        CoreModel::url_refusal(url) is None ==> core.loaded_url(url).1 != LoadOutcome::Failed,
{
    let alone = CoreModel {
        entries: Seq::empty(),
        listing_scope: None,
        pending_scan: None,
        ..core
    };
    let stat = StatModel::Found(crate::listing::ItemMetadata { file_size: 0, modified: None });
    lemma_load_anchors_the_item(alone, Place::Url(url), stat);
    match CoreModel::url_refusal(url) {
        Some(message) => {
            let failed = CoreModel {
                request: RequestModel::Failed(Place::Url(url), crate::image::uncoded(message)),
                ..alone
            };
            lemma_sweep_keeps_the_view(failed);
        },
        None => {
            reveal(CoreModel::loaded);
            let owned = alone.requesting(Place::Url(url));
            let metadata = owned.load_facts(Place::Url(url), stat)->Ok_0;
            lemma_sweep_keeps_the_view(owned.awaiting(Place::Url(url), metadata, false));
            match owned.held(Place::Url(url), metadata) {
                Some(entry) => {
                    let shown = owned.showing(
                        session_model::CurrentModel {
                            location: Place::Url(url),
                            image: entry.image,
                            texture: entry.texture,
                            metadata,
                        },
                    );
                    lemma_sweep_keeps_the_view(shown.awaiting(Place::Url(url), metadata, true));
                },
                None => {},
            }
        },
    }
}

/// Two steps in a row one way aim the preload that way, wherever it aimed before; a step along the
/// polarity forgets an earlier one against it; a single one against it is only remembered.
pub proof fn lemma_second_opposite_step_turns(core: CoreModel, backward: bool)
    ensures
        core.stepped(backward).stepped(backward).navigating_backward == backward,
        core.stepped(core.navigating_backward) == (CoreModel { opposite_steps: 0, ..core }),
        core.opposite_steps == 0 && backward != core.navigating_backward ==> core.stepped(
            backward,
        ).navigating_backward == core.navigating_backward && core.stepped(backward).stepped(
            !backward,
        ) == core,
{
    assert(core.opposite_steps == 0 && backward != core.navigating_backward ==> core.stepped(
        backward,
    ).stepped(!backward) =~= core);
}

proof fn lemma_first_to_leave_is_greatest(core: CoreModel, cache: Seq<CacheModel>, end: int)
    requires
        1 <= end <= cache.len(),
    ensures
        0 <= core.first_to_leave(cache, end) < end,
        forall|index: int|
            0 <= index < end ==> core.eviction_key((#[trigger] cache[index]).location)
                <= core.eviction_key(cache[core.first_to_leave(cache, end)].location),
    decreases end,
{
    if end > 1 {
        lemma_first_to_leave_is_greatest(core, cache, end - 1);
    }
}

/// What an eviction keeps fits the budget, unless nothing is kept at all; the order of what is kept
/// stays.
pub proof fn lemma_eviction_fits_the_budget(core: CoreModel, cache: Seq<CacheModel>)
    ensures
        core.cache_within_budget(cache).len() == 0 || core.cache_weight(
            core.cache_within_budget(cache),
        ) <= core.preload_plan().2,
        core.cache_within_budget(cache).len() <= cache.len(),
        forall|index: int|
            0 <= index < core.cache_within_budget(cache).len() ==> cache.contains(
                #[trigger] core.cache_within_budget(cache)[index],
            ),
        core.cache_weight(cache) <= core.preload_plan().2 ==> core.cache_within_budget(cache)
            == cache,
    decreases cache.len(),
{
    let leaving = core.first_to_leave(cache, cache.len() as int);
    if cache.len() > 0 {
        lemma_first_to_leave_is_greatest(core, cache, cache.len() as int);
        if core.cache_weight(cache) > core.preload_plan().2 {
            let rest = cache.remove(leaving);
            lemma_eviction_fits_the_budget(core, rest);
            assert forall|index: int|
                0 <= index < core.cache_within_budget(cache).len() implies cache.contains(
                #[trigger] core.cache_within_budget(cache)[index],
            ) by {
                let kept = core.cache_within_budget(rest)[index];
                assert(rest.contains(kept));
                let place = choose|place: int| 0 <= place < rest.len() && rest[place] == kept;
                if place < leaving {
                    assert(cache[place] == kept);
                } else {
                    assert(cache[place + 1] == kept);
                }
            }
        }
    }
}

/// Nothing leaves the cache before something it outranks: what an eviction drops has at least the
/// key of everything it keeps.
pub proof fn lemma_eviction_drops_the_least_wanted(core: CoreModel, cache: Seq<CacheModel>)
    ensures
        forall|gone: CacheModel, kept: CacheModel|
            cache.contains(gone) && !core.cache_within_budget(cache).contains(gone)
                && #[trigger] core.cache_within_budget(cache).contains(kept)
                ==> #[trigger] core.eviction_key(gone.location) >= core.eviction_key(kept.location),
    decreases cache.len(),
{
    if cache.len() > 0 && core.cache_weight(cache) > core.preload_plan().2 {
        let leaving = core.first_to_leave(cache, cache.len() as int);
        lemma_first_to_leave_is_greatest(core, cache, cache.len() as int);
        let rest = cache.remove(leaving);
        lemma_eviction_drops_the_least_wanted(core, rest);
        lemma_eviction_fits_the_budget(core, cache);
        assert forall|gone: CacheModel, kept: CacheModel|
            cache.contains(gone) && !core.cache_within_budget(cache).contains(gone)
                && #[trigger] core.cache_within_budget(cache).contains(
                kept,
            ) implies #[trigger] core.eviction_key(gone.location) >= core.eviction_key(
            kept.location,
        ) by {
            let place = choose|place: int| 0 <= place < cache.len() && cache[place] == gone;
            let spot = choose|spot: int|
                0 <= spot < core.cache_within_budget(cache).len() && core.cache_within_budget(
                    cache,
                )[spot] == kept;
            assert(cache.contains(core.cache_within_budget(cache)[spot]));
            let held = choose|held: int| 0 <= held < cache.len() && cache[held] == kept;
            assert(core.eviction_key(cache[held].location) <= core.eviction_key(
                cache[leaving].location,
            ));
            assert(core.cache_within_budget(cache) == core.cache_within_budget(rest));
            assert(core.cache_within_budget(rest).contains(kept));
            if place < leaving {
                assert(rest[place] == gone);
                assert(rest.contains(gone));
            } else if place > leaving {
                assert(rest[place - 1] == gone);
                assert(rest.contains(gone));
            }
        }
    }
}

/// The anchor is the last to leave: a cache that still holds anything else still holds it.
pub proof fn lemma_anchor_leaves_last(
    core: CoreModel,
    cache: Seq<CacheModel>,
    anchored: CacheModel,
    other: CacheModel,
)
    requires
        core.entries.len() <= usize::MAX,
        cache.contains(anchored),
        core.anchored_on(anchored.location),
        core.cache_within_budget(cache).contains(other),
        !core.anchored_on(other.location),
    ensures
        core.cache_within_budget(cache).contains(anchored),
{
    lemma_eviction_drops_the_least_wanted(core, cache);
    let (backward, forward, budget) = core.preload_plan();
    if !core.cache_within_budget(cache).contains(anchored) {
        assert(core.eviction_key(anchored.location) >= core.eviction_key(other.location));
        assert(core.eviction_key(other.location) == 0);
        listing::lemma_entry_position(core.entries, other.location, 0);
        navigation::lemma_only_the_anchor_ranks_first(
            core.anchor_index(),
            backward as int,
            forward as int,
            core.entries.len() as int,
            core.options.loop_within_folder,
            forward + backward,
        );
        let index = listing::entry_position(core.entries, other.location)->0;
        assert(core.anchor_index() == AnchorIndex::Listed(index));
        let anchor = core.anchor()->0;
        listing::lemma_entry_position(core.entries, anchor, 0);
        assert(false);
    }
}

proof fn lemma_kept_jobs_are_wanted(queue: Seq<JobModel>, targets: Seq<Place>)
    ensures
        forall|index: int|
            0 <= index < session_model::jobs_inside(queue, targets).len()
                ==> session_model::names_item(
                targets,
                (#[trigger] session_model::jobs_inside(queue, targets)[index]).location,
            ),
    decreases queue.len(),
{
    if queue.len() > 0 {
        lemma_kept_jobs_are_wanted(queue.drop_last(), targets);
    }
}

proof fn lemma_unwanted_work_is_cancelled(
    submissions: Seq<SubmissionModel>,
    targets: Seq<Place>,
    index: int,
)
    requires
        0 <= index < submissions.len(),
        !session_model::names_item(targets, submissions[index].location),
    ensures
        session_model::cancellations(submissions, targets).contains(
            EffectModel::Cancel { ticket: submissions[index].ticket, cancelled: true },
        ),
    decreases submissions.len(),
{
    let wanted = EffectModel::Cancel { ticket: submissions[index].ticket, cancelled: true };
    let earlier = session_model::cancellations(submissions.drop_last(), targets);
    let all = session_model::cancellations(submissions, targets);
    if index == submissions.len() - 1 {
        assert(all.last() == wanted);
    } else {
        lemma_unwanted_work_is_cancelled(submissions.drop_last(), targets, index);
        let place = choose|place: int| 0 <= place < earlier.len() && earlier[place] == wanted;
        assert(all[place] == wanted);
    }
}

/// After a sweep no queued job is outside the targets, and every decode and probe still running
/// outside them has been told to stop.
pub proof fn lemma_sweep_calls_off_unwanted_work(core: CoreModel, targets: Seq<Place>)
    ensures
        forall|index: int|
            0 <= index < core.cancelled_outside(targets).queue.len() ==> session_model::names_item(
                targets,
                (#[trigger] core.cancelled_outside(targets).queue[index]).location,
            ),
        forall|index: int|
            0 <= index < core.cancelled_outside(targets).submitted_decodes.len()
                && !session_model::names_item(
                targets,
                core.cancelled_outside(targets).submitted_decodes[index].location,
            ) ==> core.cancelled_outside(targets).effects.contains(
                EffectModel::Cancel {
                    ticket: (#[trigger] core.cancelled_outside(
                        targets,
                    ).submitted_decodes[index]).ticket,
                    cancelled: true,
                },
            ),
        forall|index: int|
            0 <= index < core.cancelled_outside(targets).submitted_probes.len()
                && !session_model::names_item(
                targets,
                core.cancelled_outside(targets).submitted_probes[index].location,
            ) ==> core.cancelled_outside(targets).effects.contains(
                EffectModel::Cancel {
                    ticket: (#[trigger] core.cancelled_outside(
                        targets,
                    ).submitted_probes[index]).ticket,
                    cancelled: true,
                },
            ),
{
    reveal(CoreModel::cancelled_outside);
    let after = core.cancelled_outside(targets);
    lemma_kept_jobs_are_wanted(core.queue, targets);
    let decodes = session_model::cancellations(after.submitted_decodes, targets);
    let probes = session_model::cancellations(after.submitted_probes, targets);
    assert(after.effects == core.effects + decodes + probes);
    assert forall|index: int|
        0 <= index < after.submitted_decodes.len() && !session_model::names_item(
            targets,
            after.submitted_decodes[index].location,
        ) implies after.effects.contains(
        EffectModel::Cancel {
            ticket: (#[trigger] after.submitted_decodes[index]).ticket,
            cancelled: true,
        },
    ) by {
        lemma_unwanted_work_is_cancelled(after.submitted_decodes, targets, index);
        let wanted = EffectModel::Cancel {
            ticket: after.submitted_decodes[index].ticket,
            cancelled: true,
        };
        let place = choose|place: int| 0 <= place < decodes.len() && decodes[place] == wanted;
        assert(after.effects[core.effects.len() + place] == wanted);
    }
    assert forall|index: int|
        0 <= index < after.submitted_probes.len() && !session_model::names_item(
            targets,
            after.submitted_probes[index].location,
        ) implies after.effects.contains(
        EffectModel::Cancel {
            ticket: (#[trigger] after.submitted_probes[index]).ticket,
            cancelled: true,
        },
    ) by {
        lemma_unwanted_work_is_cancelled(after.submitted_probes, targets, index);
        let wanted = EffectModel::Cancel {
            ticket: after.submitted_probes[index].ticket,
            cancelled: true,
        };
        let place = choose|place: int| 0 <= place < probes.len() && probes[place] == wanted;
        assert(after.effects[core.effects.len() + decodes.len() + place] == wanted);
    }
}

proof fn lemma_kept_entries_are_wanted(cache: Seq<CacheModel>, targets: Seq<Place>)
    ensures
        forall|index: int|
            0 <= index < session_model::cache_inside(cache, targets).len()
                ==> session_model::names_item(
                targets,
                (#[trigger] session_model::cache_inside(cache, targets)[index]).location,
            ),
    decreases cache.len(),
{
    if cache.len() > 0 {
        lemma_kept_entries_are_wanted(cache.drop_last(), targets);
    }
}

/// After a sweep the cache holds preload targets and the anchor alone, within the budget or not at
/// all; with preloading off it holds nothing.
pub proof fn lemma_sweep_trims_the_cache(core: CoreModel)
    ensures
        forall|index: int|
            0 <= index < core.refreshed().cache.len() ==> session_model::names_item(
                core.targets(),
                (#[trigger] core.refreshed().cache[index]).location,
            ),
        core.refreshed().cache.len() == 0 || core.refreshed().cache_weight(core.refreshed().cache)
            <= core.preload_plan().2,
        core.options.preloading_mode == 0 ==> core.refreshed().cache.len() == 0,
{
    reveal(CoreModel::refreshed);
    reveal(CoreModel::evicted);
    reveal(CoreModel::with_preloads);
    reveal(CoreModel::cancelled_outside);
    lemma_sweep_keeps_the_view(core);
    let targets = core.targets();
    let dropped = core.dropped_outside(targets);
    let candidates = core.candidates();
    let worthwhile = dropped.submittable(candidates);
    let (backward, forward, budget) = core.preload_plan();
    let selected = navigation::fitting(
        dropped.occupied(),
        budget as int,
        dropped.weights(worthwhile),
    );
    lemma_probes_keep_the_view(dropped, candidates);
    lemma_selection_keeps_the_view(dropped, worthwhile, selected);
    let swept = if backward == 0 && forward == 0 {
        core.drained()
    } else if core.awaits_first_view() {
        dropped
    } else {
        dropped.with_preloads(candidates, budget)
    };
    let called_off = swept.cancelled_outside(targets);
    assert(core.refreshed() == called_off.evicted());
    lemma_eviction_fits_the_budget(called_off, called_off.cache);
    lemma_kept_entries_are_wanted(core.cache, targets);
    assert forall|index: int| 0 <= index < core.refreshed().cache.len() implies #[trigger]
        session_model::names_item(targets, core.refreshed().cache[index].location) by {
        let kept = called_off.cache_within_budget(called_off.cache)[index];
        assert(called_off.cache.contains(kept));
    }
    lemma_weights_agree(called_off, core.refreshed(), core.refreshed().cache);
}

proof fn lemma_weights_agree(first: CoreModel, second: CoreModel, cache: Seq<CacheModel>)
    requires
        first.entries == second.entries,
    ensures
        first.cache_weight(cache) == second.cache_weight(cache),
    decreases cache.len(),
{
    if cache.len() > 0 {
        lemma_weights_agree(first, second, cache.drop_last());
    }
}

/// An awaited job goes to the head of the queue and a guess to its end; nothing else moves.
pub proof fn lemma_awaited_work_goes_first(
    core: CoreModel,
    item: Place,
    metadata: crate::listing::ItemMetadata,
    kind: JobKind,
)
    ensures
        core.with_job(item, metadata, kind, true).queue[0].location == item,
        core.with_job(item, metadata, kind, true).queue.skip(1) == core.queue,
        core.with_job(item, metadata, kind, false).queue.last().location == item,
        core.with_job(item, metadata, kind, false).queue.drop_last() == core.queue,
{
    assert(core.with_job(item, metadata, kind, true).queue.skip(1) =~= core.queue);
    assert(core.with_job(item, metadata, kind, false).queue.drop_last() =~= core.queue);
}

proof fn lemma_queued_decode(queue: Seq<JobModel>, identity: Place, from: int)
    requires
        0 <= from,
        queue.len() <= usize::MAX,
    ensures
        match session_model::decode_job_from(queue, identity, from) {
            Some(index) => from <= index < queue.len() && queue[index as int].kind != JobKind::Probe
                && queue[index as int].location.identity() == identity,
            None => forall|index: int|
                from <= index < queue.len() ==> (#[trigger] queue[index]).kind == JobKind::Probe
                    || queue[index].location.identity() != identity,
        },
    decreases queue.len() - from,
{
    if from < queue.len() && !(queue[from].kind != JobKind::Probe
        && queue[from].location.identity() == identity) {
        lemma_queued_decode(queue, identity, from + 1);
    }
}

/// Promoting an item's decode twice is promoting it once, loses no job, and leaves the decode at the
/// head, waited on.
pub proof fn lemma_promotion_settles(queue: Seq<JobModel>, item: Place)
    requires
        queue.len() <= usize::MAX,
    ensures
        session_model::promoted(queue, item).to_multiset().len() == queue.len(),
        session_model::promoted(session_model::promoted(queue, item), item)
            == session_model::promoted(queue, item),
        session_model::decode_job_from(queue, item.identity(), 0) is Some ==> ({
            let head = session_model::promoted(queue, item)[0];
            head.location.identity() == item.identity() && head.kind != JobKind::Probe
                && !head.speculative
        }),
{
    broadcast use vstd::seq_lib::group_to_multiset_ensures;

    lemma_queued_decode(queue, item.identity(), 0);
    let once = session_model::promoted(queue, item);
    match session_model::decode_job_from(queue, item.identity(), 0) {
        Some(index) => {
            assert(once.len() == queue.len());
            assert(session_model::decode_job_from(once, item.identity(), 0) == Some(0usize));
            assert(session_model::promoted(once, item) =~= once);
        },
        None => {},
    }
}

/// A scan put in the current order first installs as the scan itself would.
pub proof fn lemma_settling_changes_no_install(
    core: CoreModel,
    scope: crate::scan::ScopeModel,
    sort_mode: crate::listing::SortMode,
    sort_descending: bool,
    found: Seq<EntryModel>,
    stat: StatModel,
)
    ensures
        core.installed(
            scope,
            core.options.sort_mode,
            core.options.sort_descending,
            crate::scan::ScanModel::Listed(
                core.in_current_order(found, sort_mode, sort_descending),
            ),
            stat,
        ) == core.installed(
            scope,
            sort_mode,
            sort_descending,
            crate::scan::ScanModel::Listed(found),
            stat,
        ),
{
    reveal(CoreModel::installed);
}

/// A scan that is not the one awaited, and a refresh that failed, change nothing but that the
/// refresh is no longer awaited.
pub proof fn lemma_stale_scan_changes_nothing(
    core: CoreModel,
    scope: crate::scan::ScopeModel,
    sort_mode: crate::listing::SortMode,
    sort_descending: bool,
    scan: crate::scan::ScanModel,
    stat: StatModel,
)
    ensures
        !(core.pending_scan matches Some(pending) && pending.scope.covers(scope))
            ==> core.installed(scope, sort_mode, sort_descending, scan, stat).0 == core,
        (core.pending_scan matches Some(pending) && pending.purpose == ScanPurpose::Refresh)
            && scan is Failed ==> core.installed(scope, sort_mode, sort_descending, scan, stat).0
            == (CoreModel {
            pending_scan: core.installed(
                scope,
                sort_mode,
                sort_descending,
                scan,
                stat,
            ).0.pending_scan,
            ..core
        }),
{
    reveal(CoreModel::installed);
}

/// A deleted item is out of the listing, where the listing named it once.
pub proof fn lemma_deleted_item_is_unlisted(core: CoreModel, item: Place)
    requires
        core.entries.len() <= usize::MAX,
        forall|first: int, second: int|
            0 <= first < second < core.entries.len() ==> (
            #[trigger] core.entries[first]).location.identity() != (
            #[trigger] core.entries[second]).location.identity(),
    ensures
        listing::entry_position(core.unlisting(item).entries, item) is None,
        listing::entry_position(core.entries, item) is Some ==> core.unlisting(item).entries.len()
            == core.entries.len() - 1,
{
    listing::lemma_entry_position(core.entries, item, 0);
    let rest = core.unlisting(item).entries;
    listing::lemma_entry_position(rest, item, 0);
    match listing::entry_position(rest, item) {
        Some(place) => {
            let index = listing::entry_position(core.entries, item);
            if index is Some {
                let gone = index->0;
                if place < gone {
                    assert(rest[place as int] == core.entries[place as int]);
                } else {
                    assert(rest[place as int] == core.entries[place + 1]);
                }
            }
            assert(false);
        },
        None => {},
    }
}

/// What takes a deleted item's place is never the item itself.
pub proof fn lemma_successor_is_another_item(
    core: CoreModel,
    item: Place,
    preferred: crate::navigation::NavigationCommand,
)
    ensures
        core.successor(item, preferred) matches Some(path) ==> Place::File(path).identity()
            != item.identity(),
        core.successor(item, preferred) is None ==> core.deleting(item, preferred).current is None,
{
}

/// A weight is carried only from an entry that names the same item with the same size and time, and
/// nothing but the weight is.
pub proof fn lemma_weights_follow_unchanged_files(previous: Seq<EntryModel>, entry: EntryModel)
    requires
        previous.len() <= usize::MAX,
    ensures
        session_model::weighed(previous, entry) == (EntryModel {
            weight: session_model::weighed(previous, entry).weight,
            ..entry
        }),
        session_model::weighed(previous, entry).weight != entry.weight ==> exists|index: int|
            0 <= index < previous.len() && (#[trigger] previous[index]).location.identity()
                == entry.location.identity() && previous[index].metadata() == entry.metadata()
                && previous[index].weight == session_model::weighed(previous, entry).weight,
{
    lemma_probed_entry(previous, entry.location.identity(), previous.len() as int);
}

proof fn lemma_probed_entry(entries: Seq<EntryModel>, identity: Place, end: int)
    requires
        0 <= end <= entries.len(),
        entries.len() <= usize::MAX,
    ensures
        session_model::probed_below(entries, identity, end) matches Some(index) ==> index < end
            && entries[index as int].location.identity() == identity
            && entries[index as int].weight != DecodedWeight::Unknown,
    decreases end,
{
    if end > 0 {
        lemma_probed_entry(entries, identity, end - 1);
    }
}

/// The place a dropped anchor left lies beside an entry the incoming listing holds, or at its front.
pub proof fn lemma_place_left_is_listed(core: CoreModel, incoming: Seq<EntryModel>)
    requires
        core.entries.len() <= usize::MAX,
    ensures
        core.place_left(incoming) matches Some(session_model::MissingModel::After(item))
            ==> listing::entry_position(incoming, item) is Some,
        core.place_left(incoming) is Some ==> (core.anchor() matches Some(anchor)
            && listing::entry_position(incoming, anchor) is None),
{
    match core.anchor_index() {
        AnchorIndex::Listed(index) => lemma_survivor(core.entries, incoming, index as int),
        AnchorIndex::Missing(index) => lemma_survivor(core.entries, incoming, index as int),
        AnchorIndex::Unlisted => {},
    }
}

proof fn lemma_survivor(entries: Seq<EntryModel>, incoming: Seq<EntryModel>, end: int)
    requires
        0 <= end,
        entries.len() <= usize::MAX,
    ensures
        session_model::survivor_below(entries, incoming, end) matches Some(index) ==> index < end
            && listing::entry_position(incoming, entries[index as int].location) is Some,
    decreases end,
{
    if 0 < end <= entries.len() {
        lemma_survivor(entries, incoming, end - 1);
    }
}

} // verus!
