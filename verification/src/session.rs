//! The viewing session: load state, item listing, preload cache and the work handed to workers.

use std::collections::HashMap;
use std::sync::Arc;

use vstd::prelude::*;

use crate::archive::{path_is_archive, url_is_archive};
use crate::image::{uncoded_error, DecodeError, DecodedImage, ImageModel, UploadDevice};
use crate::listing;
use crate::listing::{
    position_in, sort_entries, CoreOptions, DecodedWeight, EntryModel, ItemMetadata, ListingEntry,
};
use crate::location::{ItemLocation, Place};
use crate::navigation;
use crate::navigation::{
    fits_in_budget, index_at_offset, playlist_window_start, preload_offsets, preload_priorities,
    step_index, AnchorIndex, NavigationCommand, PRELOAD_SPECIFICATIONS,
};
use crate::path::FilePath;
use crate::registry::{is_two_stage_preview, weight_depends_on_display};
use crate::scan;
use crate::scan::{scan_folder, FolderItem, ListingScope, ScannedListing};
use crate::session_model;
use crate::session_model::{
    CacheModel, CoreModel, DecodeStage, JobKind, ListingInstall, LoadOutcome, MissingModel,
    RequestModel, ScanPurpose, SubmissionModel,
};
use crate::session_parts;
use crate::session_parts::{
    cache_slot, cancel_outside, drain_cache, forget_cached, is_retired, keep_cached_generation,
    keep_cached_inside, promote, register, remove_queued_except, store_cached, submission_slot,
    withdraw, withdraw_all, CacheEntry, CoreEffect, CurrentImage, DecodeCompletion, DecodeJob,
    FileStat, MissingAnchor, PendingScan, PlaylistWindow, ProbeCompletion, Submission, ViewRequest,
};

verus! {

/// The viewing session.
pub struct ImageCore {
    pub options: CoreOptions,
    pub listing_scope: Option<ListingScope>,
    pub entries: Vec<ListingEntry>,
    /// The view's own slot: replacing it invalidates whatever the last request left.
    pub request: ViewRequest,
    pub submitted_decodes: Vec<Submission>,
    /// Separate from the decodes so a probe never reads as a decode already running.
    pub submitted_probes: Vec<Submission>,
    /// What the workers upload through.
    pub upload_device: Option<UploadDevice>,
    /// The generation arrivals must carry.
    pub upload_device_generation: Option<u64>,
    pub cache: Vec<CacheEntry>,
    pub current: Option<CurrentImage>,
    /// Preload polarity: the deeper reach aims along the navigation direction.
    pub navigating_backward: bool,
    /// Consecutive steps against the polarity; the second one turns it.
    pub opposite_steps: u32,
    /// Listing scan submitted (folder or archive), awaiting its listing.
    pub pending_scan: Option<PendingScan>,
    /// Place a vanished anchor left behind; steps continue from there, not from the ends.
    pub missing_anchor: Option<MissingAnchor>,
    /// Jobs no worker has taken yet.
    pub queue: Vec<DecodeJob>,
    pub next_ticket: u64,
    /// What the session asks of the world, in order.
    pub effects: Vec<CoreEffect>,
    /// Images the session let go of; freeing them is left to whoever takes them.
    pub retired: Vec<Arc<DecodedImage>>,
}

impl View for ImageCore {
    type V = CoreModel;

    open spec fn view(&self) -> CoreModel {
        CoreModel {
            options: self.options,
            listing_scope: match self.listing_scope {
                Some(scope) => Some(scope@),
                None => None,
            },
            entries: listing::entry_models(self.entries@),
            request: self.request@,
            submitted_decodes: session_parts::submission_models(self.submitted_decodes@),
            submitted_probes: session_parts::submission_models(self.submitted_probes@),
            upload_device: self.upload_device,
            upload_device_generation: self.upload_device_generation,
            cache: session_parts::cache_models(self.cache@),
            current: match self.current {
                Some(current) => Some(current@),
                None => None,
            },
            navigating_backward: self.navigating_backward,
            opposite_steps: self.opposite_steps,
            pending_scan: match self.pending_scan {
                Some(pending) => Some(pending@),
                None => None,
            },
            missing_anchor: match self.missing_anchor {
                Some(missing) => Some(missing@),
                None => None,
            },
            queue: session_parts::job_models(self.queue@),
            next_ticket: self.next_ticket,
            effects: session_parts::effect_models(self.effects@),
            retired: session_parts::image_models(self.retired@),
        }
    }
}

/// A sum as far as 64 bits hold it.
pub open spec fn saturated(sum: int) -> int {
    if sum <= u64::MAX {
        sum
    } else {
        u64::MAX as int
    }
}

/// A session that differs in its cache and in the images it let go of alone.
pub open spec fn same_but_cache(first: CoreModel, second: CoreModel) -> bool {
    second == (CoreModel { cache: second.cache, retired: second.retired, ..first })
}

proof fn lemma_weights_look_past_the_cache(
    first: CoreModel,
    second: CoreModel,
    cache: Seq<CacheModel>,
)
    requires
        same_but_cache(first, second),
    ensures
        first.cache_weight(cache) == second.cache_weight(cache),
    decreases cache.len(),
{
    if cache.len() > 0 {
        lemma_weights_look_past_the_cache(first, second, cache.drop_last());
    }
}

proof fn lemma_eviction_looks_past_the_cache(
    first: CoreModel,
    second: CoreModel,
    cache: Seq<CacheModel>,
    end: int,
)
    requires
        same_but_cache(first, second),
    ensures
        first.first_to_leave(cache, end) == second.first_to_leave(cache, end),
    decreases end,
{
    if end > 1 {
        lemma_eviction_looks_past_the_cache(first, second, cache, end - 1);
    }
}

proof fn lemma_leaving_entry_exists(core: CoreModel, cache: Seq<CacheModel>, end: int)
    requires
        1 <= end,
    ensures
        0 <= core.first_to_leave(cache, end) < end,
    decreases end,
{
    if end > 1 {
        lemma_leaving_entry_exists(core, cache, end - 1);
    }
}

proof fn lemma_weight_without(core: CoreModel, cache: Seq<CacheModel>, index: int)
    requires
        0 <= index < cache.len(),
    ensures
        core.cache_weight(cache.remove(index)) == core.cache_weight(cache) - core.cached_weight(
            cache[index],
        ),
    decreases cache.len(),
{
    if index == cache.len() - 1 {
        assert(cache.remove(index) =~= cache.drop_last());
    } else {
        lemma_weight_without(core, cache.drop_last(), index);
        assert(cache.remove(index).drop_last() =~= cache.drop_last().remove(index));
        assert(cache.remove(index).last() == cache.last());
    }
}

proof fn lemma_weight_bounds(core: CoreModel, cache: Seq<CacheModel>)
    requires
        session_model::images_are_addressable(cache),
    ensures
        0 <= core.cache_weight(cache) <= cache.len() * u64::MAX,
    decreases cache.len(),
{
    if cache.len() > 0 {
        assert(session_model::images_are_addressable(cache.drop_last())) by {
            assert forall|index: int| 0 <= index < cache.drop_last().len() implies (
            #[trigger] cache.drop_last()[index]).image.addressable() by {
                assert(cache[index].image.addressable());
            }
        }
        lemma_weight_bounds(core, cache.drop_last());
        assert(cache.last() == cache[cache.len() - 1]);
        assert(cache.last().image.addressable());
        lemma_frame_bytes_not_negative(cache.last().image);
    }
}

proof fn lemma_frame_bytes_not_negative(image: ImageModel)
    ensures
        0 <= image.frame_byte_length(),
{
    assert(0 <= image.pixel_width * image.storage.pixel_size()) by (nonlinear_arith);
    let pitch = image.row_pitch();
    assert(0 <= pitch * image.pixel_height) by (nonlinear_arith)
        requires
            0 <= pitch,
    ;
}

impl ImageCore {
    pub fn new(options: CoreOptions) -> (core: Self)
        ensures
            core@ == session_model::idle(options),
            core@.sound(),
    {
        let core = ImageCore {
            options,
            listing_scope: None,
            entries: Vec::new(),
            request: ViewRequest::Idle,
            submitted_decodes: Vec::new(),
            submitted_probes: Vec::new(),
            upload_device: None,
            upload_device_generation: None,
            cache: Vec::new(),
            current: None,
            navigating_backward: false,
            opposite_steps: 0,
            pending_scan: None,
            missing_anchor: None,
            queue: Vec::new(),
            next_ticket: 0,
            effects: Vec::new(),
            retired: Vec::new(),
        };
        assert(core@ =~= session_model::idle(options));
        core
    }

    /// The position baseline: the running load, else the errored item, else the display.
    pub fn navigation_anchor(&self) -> (anchor: Option<&ItemLocation>)
        ensures
            session_parts::optional_place(anchor) == self@.anchor(),
    {
        match self.request.location() {
            Some(location) => Some(location),
            None => match &self.current {
                Some(current) => Some(&current.location),
                None => None,
            },
        }
    }

    /// Where the listing holds an item.
    pub fn position_of(&self, location: &ItemLocation) -> (position: Option<usize>)
        ensures
            position == listing::entry_position(self@.entries, location@),
            position matches Some(index) ==> index < self.entries@.len(),
    {
        position_in(&self.entries, location)
    }

    /// The anchor's index in the listing; a listing that dropped it answers with its place.
    pub fn anchor_index(&self) -> (anchor: AnchorIndex)
        ensures
            anchor == self@.anchor_index(),
    {
        if let Some(location) = self.navigation_anchor() {
            if let Some(index) = self.position_of(location) {
                return AnchorIndex::Listed(index);
            }
        }
        match &self.missing_anchor {
            Some(MissingAnchor::Front) => AnchorIndex::Missing(0),
            Some(MissingAnchor::After(location)) => match self.position_of(location) {
                Some(index) => {
                    assert(index < self.entries.len());
                    AnchorIndex::Missing(index + 1)
                },
                None => AnchorIndex::Unlisted,
            },
            None => AnchorIndex::Unlisted,
        }
    }

    /// Preload distances and budget, aimed along the current navigation direction.
    pub fn preload_plan(&self) -> (plan: (usize, usize, u64))
        ensures
            plan == self@.preload_plan(),
            plan.0 + plan.1 <= 8,
            plan.2 < u64::MAX,
    {
        let mode: usize = if self.options.preloading_mode < 2 {
            self.options.preloading_mode
        } else {
            2
        };
        let (backward, forward, budget) = PRELOAD_SPECIFICATIONS[mode];
        if self.navigating_backward {
            (forward, backward, budget)
        } else {
            (backward, forward, budget)
        }
    }

    fn listed_weight(&self, location: &ItemLocation) -> (weight: Option<u64>)
        ensures
            weight == self@.listed_weight(location@),
    {
        match self.position_of(location) {
            Some(index) => match self.entries[index].weight {
                DecodedWeight::Known(weight) => Some(weight),
                _ => None,
            },
            None => None,
        }
    }

    /// A preview weighs its full decode; others weigh what they hold, pixels or texture.
    fn cached_weight(&self, entry: &CacheEntry) -> (weight: u64)
        requires
            entry@.image.addressable(),
        ensures
            weight == self@.cached_weight(entry@),
    {
        if entry.preview {
            if let Some(weight) = self.listed_weight(&entry.location) {
                return weight;
            }
        }
        let pixels = entry.image.pixel_bytes() as u64;
        if pixels > 0 {
            pixels
        } else if entry.texture.is_some() {
            entry.image.frame_byte_length() as u64
        } else {
            0
        }
    }

    /// Weight of the whole cache.
    fn cache_total(&self) -> (total: u128)
        requires
            session_model::images_are_addressable(self@.cache),
        ensures
            total == self@.cache_weight(self@.cache),
            total <= self.cache@.len() * u64::MAX,
    {
        let ghost cache = self@.cache;
        let mut total: u128 = 0;
        let mut index: usize = 0;
        while index < self.cache.len()
            invariant
                cache == self@.cache,
                index <= self.cache.len(),
                session_model::images_are_addressable(cache),
                total == self@.cache_weight(cache.take(index as int)),
                total <= index * u64::MAX,
            decreases self.cache.len() - index,
        {
            assert(cache.take(index + 1).drop_last() =~= cache.take(index as int));
            assert(cache[index as int] == self.cache@[index as int]@);
            total = total + self.cached_weight(&self.cache[index]) as u128;
            index += 1;
        }
        assert(cache.take(index as int) =~= cache);
        total
    }

    /// Bytes the budget already covers: cached items once, plus unarrived submissions.
    pub fn occupied_bytes(&self) -> (occupied: u64)
        requires
            self@.sound(),
        ensures
            occupied == saturated(self@.occupied()),
    {
        let ghost submissions = self@.submitted_decodes;
        let cached: u128 = self.cache_total();
        let mut total: u64 = if cached <= u64::MAX as u128 {
            cached as u64
        } else {
            u64::MAX
        };
        let mut index: usize = 0;
        assert(submissions.take(0) =~= Seq::<SubmissionModel>::empty());
        while index < self.submitted_decodes.len()
            invariant
                submissions == self@.submitted_decodes,
                index <= self.submitted_decodes.len(),
                total == saturated(
                    cached + self@.submitted_weight(submissions.take(index as int)),
                ),
            decreases self.submitted_decodes.len() - index,
        {
            assert(submissions.take(index + 1).drop_last() =~= submissions.take(index as int));
            assert(submissions[index as int] == self.submitted_decodes@[index as int]@);
            let location = &self.submitted_decodes[index].location;
            if cache_slot(&self.cache, location).is_none() {
                if let Some(weight) = self.listed_weight(location) {
                    total = total.saturating_add(weight);
                }
            }
            index += 1;
        }
        assert(submissions.take(index as int) =~= submissions);
        total
    }

    /// How soon an item leaves the cache.
    fn eviction_key(&self, location: &ItemLocation, priorities: &HashMap<usize, usize>) -> (key:
        usize)
        requires
            ({
                let plan = self@.preload_plan();
                priorities@ == navigation::priorities(
                    self@.anchor_index(),
                    plan.0 as int,
                    plan.1 as int,
                    self@.entries.len() as int,
                    self@.options.loop_within_folder,
                )
            }),
        ensures
            key == self@.eviction_key(location@),
    {
        broadcast use vstd::std_specs::hash::group_hash_axioms;

        if let Some(anchor) = self.navigation_anchor() {
            if anchor.same_item(location) {
                return 0;
            }
        }
        match self.position_of(location) {
            Some(index) => match priorities.get(&index) {
                Some(priority) => *priority,
                None => usize::MAX,
            },
            None => usize::MAX,
        }
    }

    /// Evicts entries in reverse preload priority until within budget.
    pub fn evict_cache(&mut self)
        requires
            old(self)@.sound(),
        ensures
            final(self)@ == old(self)@.evicted(),
            final(self)@.sound(),
    {
        proof {
            reveal(CoreModel::evicted);
        }
        let ghost whole = self@;
        let (backward, forward, budget) = self.preload_plan();
        let mut total: u128 = self.cache_total();
        if total <= budget as u128 {
            assert(self@ =~= whole.evicted());
            return ;
        }
        let priorities = preload_priorities(
            self.anchor_index(),
            backward,
            forward,
            self.entries.len(),
            self.options.loop_within_folder,
        );
        assert(self@.entries.len() == self.entries@.len());
        while total > budget as u128 && self.cache.len() > 0
            invariant
                same_but_cache(whole, self@),
                self@.sound(),
                (backward, forward, budget) == whole.preload_plan(),
                priorities@ == navigation::priorities(
                    whole.anchor_index(),
                    backward as int,
                    forward as int,
                    whole.entries.len() as int,
                    whole.options.loop_within_folder,
                ),
                total == whole.cache_weight(self@.cache),
                whole.cache_within_budget(whole.cache) == whole.cache_within_budget(self@.cache),
                whole.retired + whole.images_over_budget(whole.cache) == self@.retired
                    + whole.images_over_budget(self@.cache),
            decreases self.cache.len(),
        {
            let ghost now = self@;
            let mut leaving: usize = 0;
            let mut leaving_key: usize = self.eviction_key(&self.cache[0].location, &priorities);
            let mut index: usize = 1;
            assert(now.cache[0] == self.cache@[0]@);
            while index < self.cache.len()
                invariant
                    now == self@,
                    (backward, forward, budget) == now.preload_plan(),
                    priorities@ == navigation::priorities(
                        now.anchor_index(),
                        backward as int,
                        forward as int,
                        now.entries.len() as int,
                        now.options.loop_within_folder,
                    ),
                    1 <= index <= self.cache.len(),
                    leaving < index,
                    leaving == now.first_to_leave(now.cache, index as int),
                    leaving_key == now.eviction_key(now.cache[leaving as int].location),
                decreases self.cache.len() - index,
            {
                assert(now.cache[index as int] == self.cache@[index as int]@);
                let key: usize = self.eviction_key(&self.cache[index].location, &priorities);
                if key > leaving_key {
                    leaving = index;
                    leaving_key = key;
                }
                index += 1;
            }
            assert(now.cache.len() == self.cache@.len());
            proof {
                lemma_eviction_looks_past_the_cache(whole, now, now.cache, index as int);
                lemma_leaving_entry_exists(whole, now.cache, index as int);
                lemma_weight_without(whole, now.cache, leaving as int);
                assert(now.cache[leaving as int] == self.cache@[leaving as int]@);
                lemma_weights_look_past_the_cache(whole, now, now.cache.remove(leaving as int));
                lemma_weight_bounds(now, now.cache.remove(leaving as int));
            }
            let weight: u64 = self.cached_weight(&self.cache[leaving]);
            let entry = self.cache.remove(leaving);
            total = total - weight as u128;
            let ghost image = entry.image@;
            self.retired.push(entry.image);
            proof {
                assert(self@.cache =~= now.cache.remove(leaving as int));
                assert(self@.retired =~= now.retired.push(image));
                assert(now.retired + (seq![image] + whole.images_over_budget(self@.cache))
                    =~= self@.retired + whole.images_over_budget(self@.cache));
                assert(self@ =~= (CoreModel { cache: self@.cache, retired: self@.retired, ..whole }));
            }
        }
        proof {
            if self.cache.len() == 0 {
                assert(self@.cache.len() == 0);
            }
            assert(self@.retired + whole.images_over_budget(self@.cache) =~= self@.retired);
            assert(self@ =~= whole.evicted());
        }
    }
}

/// A preview-first local file whose full decode waits for the navigation lull.
pub fn is_deferred_two_stage(location: &ItemLocation) -> (deferred: bool)
    ensures
        deferred == session_model::is_deferred(location@),
{
    match location {
        ItemLocation::File(path) => is_two_stage_preview(path),
        _ => false,
    }
}

proof fn lemma_nothing_fits_past_the_budget(occupied: int, budget: int, weights: Seq<u64>)
    requires
        occupied > budget,
    ensures
        navigation::fitting(occupied, budget, weights) == Seq::new(
            weights.len(),
            |place: int| false,
        ),
{
    assert forall|place: int| 0 <= place < weights.len() implies navigation::fitting(
        occupied,
        budget,
        weights,
    )[place] == false by {
        navigation::lemma_budget_is_kept(occupied, budget, weights.take(place));
    }
    assert(navigation::fitting(occupied, budget, weights) =~= Seq::new(
        weights.len(),
        |place: int| false,
    ));
}

proof fn lemma_saturation_fits_alike(occupied: int, budget: u64, weights: Seq<u64>)
    requires
        budget < u64::MAX,
    ensures
        navigation::fitting(saturated(occupied), budget as int, weights) == navigation::fitting(
            occupied,
            budget as int,
            weights,
        ),
{
    if occupied > u64::MAX {
        lemma_nothing_fits_past_the_budget(occupied, budget as int, weights);
        lemma_nothing_fits_past_the_budget(saturated(occupied), budget as int, weights);
    }
}

impl ImageCore {
    fn submit(
        &mut self,
        location: &ItemLocation,
        metadata: ItemMetadata,
        kind: JobKind,
        awaited: bool,
    )
        ensures
            final(self)@ == old(self)@.with_job(location@, metadata, kind, awaited),
    {
        let ghost before = self@;
        let job = DecodeJob {
            ticket: self.next_ticket,
            location: location.clone(),
            metadata,
            kind,
            speculative: !awaited,
        };
        if awaited {
            self.queue.insert(0, job);
            assert(self@.queue =~= seq![job@] + before.queue);
        } else {
            self.queue.push(job);
            assert(self@.queue =~= before.queue.push(job@));
        }
        self.next_ticket = if self.next_ticket == u64::MAX {
            0
        } else {
            self.next_ticket + 1
        };
        assert(self@ =~= before.with_job(location@, metadata, kind, awaited));
    }

    /// Registers the job as submitted and queues it under a fresh ticket.
    fn submit_decode(
        &mut self,
        location: &ItemLocation,
        metadata: ItemMetadata,
        kind: JobKind,
        awaited: bool,
    )
        requires
            old(self)@.sound(),
        ensures
            final(self)@ == old(self)@.with_decode(location@, metadata, kind, awaited),
            final(self)@.sound(),
    {
        register(&mut self.submitted_decodes, location, self.next_ticket);
        self.submit(location, metadata, kind, awaited);
        assert(self@ =~= old(self)@.with_decode(location@, metadata, kind, awaited));
    }

    /// Registers the probe as submitted; it reads only the header.
    fn submit_probe(&mut self, location: &ItemLocation)
        requires
            old(self)@.sound(),
        ensures
            final(self)@ == old(self)@.with_probe(location@),
            final(self)@.sound(),
    {
        register(&mut self.submitted_probes, location, self.next_ticket);
        self.submit(
            location,
            ItemMetadata { file_size: 0, modified: None },
            JobKind::Probe,
            false,
        );
        assert(self@ =~= old(self)@.with_probe(location@));
    }

    /// Submits what a pending item still needs; a cached two-stage preview waits on the timer.
    fn submit_pending_decode(
        &mut self,
        location: &ItemLocation,
        metadata: ItemMetadata,
        preview_cached: bool,
    )
        requires
            old(self)@.sound(),
        ensures
            final(self)@ == old(self)@.with_pending_decode(location@, metadata, preview_cached),
            final(self)@.sound(),
    {
        if !preview_cached {
            self.submit_decode(location, metadata, JobKind::Preview, true);
        } else if !is_deferred_two_stage(location) {
            self.submit_decode(location, metadata, JobKind::Full, true);
        }
    }

    /// What the cache holds of an item.
    fn cached_entry(&self, location: &ItemLocation) -> (entry: Option<&CacheEntry>)
        ensures
            match entry {
                Some(found) => session_model::cached(self@.cache, location@) == Some(found@),
                None => session_model::cached(self@.cache, location@) is None,
            },
    {
        match cache_slot(&self.cache, location) {
            Some(index) => Some(&self.cache[index]),
            None => None,
        }
    }

    /// A discarded arrival resubmits what the waiting item still needs.
    fn resubmit_pending_decode(&mut self, location: &ItemLocation, metadata: ItemMetadata)
        requires
            old(self)@.sound(),
        ensures
            final(self)@ == old(self)@.with_pending_decode_again(location@, metadata),
            final(self)@.sound(),
    {
        let preview_cached: bool = match self.cached_entry(location) {
            Some(entry) => entry.preview && entry.matches(metadata),
            None => false,
        };
        self.submit_pending_decode(location, metadata, preview_cached);
    }

    /// The entries the preload reaches, in priority order.
    fn preload_candidates(&self) -> (candidates: Vec<usize>)
        ensures
            candidates@ == self@.candidates(),
            forall|place: int|
                0 <= place < candidates@.len() ==> (#[trigger] candidates@[place])
                    < self.entries@.len(),
    {
        let (backward, forward, _) = self.preload_plan();
        let anchor = self.anchor_index();
        let length = self.entries.len();
        let looped = self.options.loop_within_folder;
        let steps = preload_offsets(backward, forward);
        let ghost offsets = navigation::offsets(backward as int, forward as int);
        let mut candidates: Vec<usize> = Vec::new();
        let mut index: usize = 0;
        while index < steps.len()
            invariant
                index <= steps.len(),
                length == self.entries@.len(),
                steps@.len() == offsets.len(),
                steps@.map_values(|offset: isize| offset as int) == offsets,
                candidates@ == session_model::reached(
                    anchor,
                    offsets.take(index as int),
                    length as int,
                    looped,
                ),
                forall|place: int|
                    0 <= place < candidates@.len() ==> (#[trigger] candidates@[place])
                        < self.entries@.len(),
            decreases steps.len() - index,
        {
            assert(offsets.take(index + 1).drop_last() =~= offsets.take(index as int));
            assert(steps@.map_values(|offset: isize| offset as int)[index as int]
                == steps@[index as int]);
            if let Some(place) = index_at_offset(anchor, steps[index], length, looped) {
                candidates.push(place);
            }
            index += 1;
        }
        assert(offsets.take(index as int) =~= offsets);
        candidates
    }

    /// The items worth keeping: the entries the preload reaches, and the anchor.
    fn preload_targets(&self, candidates: &Vec<usize>) -> (targets: Vec<ItemLocation>)
        requires
            candidates@ == self@.candidates(),
            forall|place: int|
                0 <= place < candidates@.len() ==> (#[trigger] candidates@[place])
                    < self.entries@.len(),
        ensures
            session_parts::place_models(targets@) == self@.targets(),
    {
        let ghost places = candidates@.map_values(
            |candidate: usize| self@.entries[candidate as int].location,
        );
        let mut targets: Vec<ItemLocation> = Vec::new();
        let mut index: usize = 0;
        while index < candidates.len()
            invariant
                index <= candidates.len(),
                forall|place: int|
                    0 <= place < candidates@.len() ==> (#[trigger] candidates@[place])
                        < self.entries@.len(),
                places == candidates@.map_values(
                    |candidate: usize| self@.entries[candidate as int].location,
                ),
                session_parts::place_models(targets@) == places.take(index as int),
            decreases candidates.len() - index,
        {
            let ghost before = session_parts::place_models(targets@);
            let location = self.entries[candidates[index]].location.clone();
            let ghost place = location@;
            targets.push(location);
            index += 1;
            assert(session_parts::place_models(targets@) =~= before.push(place));
            assert(session_parts::place_models(targets@) =~= places.take(index as int));
        }
        assert(places.take(index as int) =~= places);
        if let Some(anchor) = self.navigation_anchor() {
            let location = anchor.clone();
            let ghost place = location@;
            targets.push(location);
            assert(session_parts::place_models(targets@) =~= places.push(place));
        }
        targets
    }

    /// Cancels queued or running decodes and probes outside the preload targets.
    fn cancel_decodes_outside(&mut self, targets: &Vec<ItemLocation>)
        requires
            old(self)@.sound(),
        ensures
            final(self)@ == old(self)@.cancelled_outside(session_parts::place_models(targets@)),
            final(self)@.sound(),
    {
        proof {
            reveal(CoreModel::cancelled_outside);
        }
        let removed = remove_queued_except(&mut self.queue, targets);
        withdraw_all(&mut self.submitted_decodes, &removed);
        withdraw_all(&mut self.submitted_probes, &removed);
        cancel_outside(&self.submitted_decodes, targets, &mut self.effects);
        cancel_outside(&self.submitted_probes, targets, &mut self.effects);
        assert(self@ =~= old(self)@.cancelled_outside(session_parts::place_models(targets@)));
    }

    /// Leaving the preload targets removes the entry whole; returning is a fresh preload.
    fn drop_entries_outside(&mut self, targets: &Vec<ItemLocation>)
        requires
            old(self)@.sound(),
        ensures
            final(self)@ == old(self)@.dropped_outside(session_parts::place_models(targets@)),
            final(self)@.sound(),
    {
        keep_cached_inside(&mut self.cache, targets, &mut self.retired);
        assert(self@ =~= old(self)@.dropped_outside(session_parts::place_models(targets@)));
    }

    fn empty_cache(&mut self)
        requires
            old(self)@.sound(),
        ensures
            final(self)@ == old(self)@.drained(),
            final(self)@.sound(),
    {
        drain_cache(&mut self.cache, &mut self.retired);
        assert(self@ =~= old(self)@.drained());
    }

    /// Probes the candidates of unknown weight and says whether there were any.
    fn submit_probes(&mut self, candidates: &Vec<usize>) -> (awaiting: bool)
        requires
            old(self)@.sound(),
            forall|place: int|
                0 <= place < candidates@.len() ==> (#[trigger] candidates@[place]) < old(
                    self,
                )@.entries.len(),
        ensures
            final(self)@ == old(self)@.with_probes(candidates@),
            final(self)@.sound(),
            awaiting == old(self)@.awaits_probes(candidates@),
            !awaiting ==> final(self)@ == old(self)@,
    {
        let ghost whole = self@;
        let mut awaiting: bool = false;
        let mut index: usize = 0;
        while index < candidates.len()
            invariant
                whole == old(self)@,
                index <= candidates.len(),
                forall|place: int|
                    0 <= place < candidates@.len() ==> (#[trigger] candidates@[place])
                        < whole.entries.len(),
                self@ == whole.with_probes(candidates@.take(index as int)),
                self@.sound(),
                self@.entries == whole.entries,
                awaiting == (exists|place: int|
                    0 <= place < index && whole.entries[(
                    #[trigger] candidates@[place]) as int].weight == DecodedWeight::Unknown),
                !awaiting ==> self@ == whole,
            decreases candidates.len() - index,
        {
            assert(candidates@.take(index + 1).drop_last() =~= candidates@.take(index as int));
            let candidate = candidates[index];
            assert(whole.entries[candidates@[index as int] as int]
                == self.entries@[candidate as int]@);
            if self.entries[candidate].weight == DecodedWeight::Unknown {
                awaiting = true;
                let location = self.entries[candidate].location.clone();
                if submission_slot(&self.submitted_probes, &location).is_none() {
                    self.submit_probe(&location);
                }
            }
            index += 1;
        }
        assert(candidates@.take(index as int) =~= candidates@);
        awaiting
    }

    /// The candidates worth a decode.
    fn worthwhile(&self, candidates: &Vec<usize>) -> (found: Vec<usize>)
        requires
            forall|place: int|
                0 <= place < candidates@.len() ==> (#[trigger] candidates@[place])
                    < self.entries@.len(),
        ensures
            found@ == self@.submittable(candidates@),
            forall|place: int|
                0 <= place < found@.len() ==> (#[trigger] found@[place]) < self.entries@.len(),
    {
        let mut found: Vec<usize> = Vec::new();
        let mut index: usize = 0;
        while index < candidates.len()
            invariant
                index <= candidates.len(),
                forall|place: int|
                    0 <= place < candidates@.len() ==> (#[trigger] candidates@[place])
                        < self.entries@.len(),
                found@ == self@.submittable(candidates@.take(index as int)),
                forall|place: int|
                    0 <= place < found@.len() ==> (#[trigger] found@[place])
                        < self.entries@.len(),
            decreases candidates.len() - index,
        {
            assert(candidates@.take(index + 1).drop_last() =~= candidates@.take(index as int));
            let candidate = candidates[index];
            assert(self@.entries[candidate as int] == self.entries@[candidate as int]@);
            let entry = &self.entries[candidate];
            let known: bool = match entry.weight {
                DecodedWeight::Known(_) => true,
                _ => false,
            };
            if known && submission_slot(&self.submitted_decodes, &entry.location).is_none() {
                let held: bool = match self.cached_entry(&entry.location) {
                    Some(cached) => cached.matches(entry.metadata()),
                    None => false,
                };
                if !held {
                    found.push(candidate);
                }
            }
            index += 1;
        }
        assert(candidates@.take(index as int) =~= candidates@);
        found
    }

    /// The weights of these candidates.
    fn candidate_weights(&self, candidates: &Vec<usize>) -> (weights: Vec<u64>)
        requires
            forall|place: int|
                0 <= place < candidates@.len() ==> (#[trigger] candidates@[place])
                    < self.entries@.len(),
        ensures
            weights@ == self@.weights(candidates@),
    {
        let mut weights: Vec<u64> = Vec::new();
        let mut index: usize = 0;
        while index < candidates.len()
            invariant
                index <= candidates.len(),
                forall|place: int|
                    0 <= place < candidates@.len() ==> (#[trigger] candidates@[place])
                        < self.entries@.len(),
                weights@ == self@.weights(candidates@).take(index as int),
            decreases candidates.len() - index,
        {
            let candidate = candidates[index];
            assert(self@.entries[candidates@[index as int] as int]
                == self.entries@[candidate as int]@);
            let weight: u64 = match self.entries[candidate].weight {
                DecodedWeight::Known(weight) => weight,
                _ => 0,
            };
            weights.push(weight);
            index += 1;
            assert(weights@ =~= self@.weights(candidates@).take(index as int));
        }
        assert(self@.weights(candidates@).take(index as int) =~= self@.weights(candidates@));
        weights
    }

    /// Queues candidates while their weights fit the budget; unknown weights probe first.
    fn submit_preload_decodes(&mut self, candidates: &Vec<usize>, budget: u64)
        requires
            old(self)@.sound(),
            budget < u64::MAX,
            forall|place: int|
                0 <= place < candidates@.len() ==> (#[trigger] candidates@[place]) < old(
                    self,
                )@.entries.len(),
        ensures
            final(self)@ == old(self)@.with_preloads(candidates@, budget),
            final(self)@.sound(),
    {
        proof {
            reveal(CoreModel::with_preloads);
        }
        let ghost whole = self@;
        if self.submit_probes(candidates) {
            return ;
        }
        let worthwhile = self.worthwhile(candidates);
        let weights = self.candidate_weights(&worthwhile);
        let selected = fits_in_budget(self.occupied_bytes(), budget, &weights);
        proof {
            lemma_saturation_fits_alike(whole.occupied(), budget, weights@);
        }
        let mut index: usize = 0;
        while index < worthwhile.len()
            invariant
                index <= worthwhile.len(),
                selected@.len() == worthwhile@.len(),
                forall|place: int|
                    0 <= place < worthwhile@.len() ==> (#[trigger] worthwhile@[place])
                        < whole.entries.len(),
                self@.entries == whole.entries,
                self@ == whole.with_selected(worthwhile@.take(index as int), selected@),
                self@.sound(),
            decreases worthwhile.len() - index,
        {
            assert(worthwhile@.take(index + 1).drop_last() =~= worthwhile@.take(index as int));
            let candidate = worthwhile[index];
            assert(whole.entries[worthwhile@[index as int] as int]
                == self.entries@[candidate as int]@);
            if selected[index] {
                let location = self.entries[candidate].location.clone();
                let metadata = self.entries[candidate].metadata();
                let kind = if is_deferred_two_stage(&location) {
                    JobKind::Preview
                } else {
                    JobKind::Full
                };
                self.submit_decode(&location, metadata, kind, false);
            }
            index += 1;
        }
        assert(worthwhile@.take(index as int) =~= worthwhile@);
    }

    /// Speculation waits for the display; the cancel and evict sweeps do not.
    pub fn refresh_preload(&mut self)
        requires
            old(self)@.sound(),
        ensures
            final(self)@ == old(self)@.refreshed(),
            final(self)@.sound(),
    {
        proof {
            reveal(CoreModel::refreshed);
        }
        // A pending upgrade of what is already on screen (RAW, animation) still speculates.
        let awaiting_first_view: bool = match self.request.pending() {
            Some(pending) => match &self.current {
                Some(current) => !current.location.same_item(pending),
                None => true,
            },
            None => false,
        };
        assert(awaiting_first_view == self@.awaits_first_view());
        let (backward, forward, budget) = self.preload_plan();
        let candidates = self.preload_candidates();
        let targets = self.preload_targets(&candidates);
        assert(self@.entries.len() == self.entries@.len());
        if backward == 0 && forward == 0 {
            self.empty_cache();
        } else {
            self.drop_entries_outside(&targets);
            if !awaiting_first_view {
                self.submit_preload_decodes(&candidates, budget);
            }
        }
        self.cancel_decodes_outside(&targets);
        self.evict_cache();
    }
}

impl ImageCore {
    /// Replaces the displayed image, letting go of the outgoing one.
    fn show_image(&mut self, current: CurrentImage)
        requires
            old(self)@.sound(),
            current@.image.addressable(),
        ensures
            final(self)@ == old(self)@.showing(current@),
            final(self)@.sound(),
    {
        let ghost before = self@;
        let previous = self.current.take();
        if let Some(outgoing) = previous {
            let ghost image = outgoing.image@;
            self.retired.push(outgoing.image);
            assert(self@.retired =~= before.retired.push(image));
        }
        self.current = Some(current);
        assert(self@ =~= before.showing(current@));
    }

    /// Caches an entry, letting go of a preview it replaces.
    fn cache_image(&mut self, entry: CacheEntry)
        requires
            old(self)@.sound(),
            entry@.image.addressable(),
        ensures
            final(self)@ == old(self)@.caching(entry@),
            final(self)@.sound(),
    {
        store_cached(&mut self.cache, entry, &mut self.retired);
        assert(self@ =~= old(self)@.caching(entry@));
    }

    /// The request ends in an error the view shows; the wait it dropped may still hold a decode, which
    /// the sweep ends.
    fn fail(&mut self, location: &ItemLocation, error: DecodeError)
        requires
            old(self)@.sound(),
        ensures
            final(self)@ == old(self)@.failing(location@, error@),
            final(self)@.sound(),
    {
        self.request = ViewRequest::Failed(location.clone(), error);
        assert(self@ =~= (CoreModel {
            request: RequestModel::Failed(location@, error@),
            ..old(self)@
        }));
        self.refresh_preload();
    }

    /// The facts a load goes by, or the error it ends in.
    fn load_facts(&self, location: &ItemLocation, stat: &FileStat) -> (facts: Result<
        ItemMetadata,
        DecodeError,
    >)
        ensures
            match facts {
                Ok(metadata) => self@.load_facts(location@, stat@) == Ok::<
                    ItemMetadata,
                    crate::image::ErrorModel,
                >(metadata),
                Err(error) => self@.load_facts(location@, stat@) == Err::<
                    ItemMetadata,
                    crate::image::ErrorModel,
                >(error@),
            },
    {
        match location {
            ItemLocation::File(_) => match stat {
                FileStat::Found(metadata) => Ok(*metadata),
                FileStat::Failed { code, message } => {
                    let error = DecodeError {
                        code: *code,
                        message: message.clone(),
                        store_codec_names: Vec::new(),
                    };
                    assert(error@.store_codec_names =~= Seq::empty());
                    Err(error)
                },
            },
            // Member sizes are fixed by the listing; a vanished member fails here.
            ItemLocation::ArchiveMember { archive: _, member: _ } => match self.position_of(
                location,
            ) {
                Some(index) => Ok(self.entries[index].metadata()),
                None => Err(uncoded_error("Member no longer exists in the archive")),
            },
            // A cached remote item stays valid until an explicit reload.
            ItemLocation::Url(_) => {
                let file_size: u64 = match self.cached_entry(location) {
                    Some(entry) => entry.metadata.file_size,
                    None => 0,
                };
                Ok(ItemMetadata { file_size, modified: None })
            },
        }
    }

    /// Puts a decode of the item under way and waits on it.
    fn await_decode(&mut self, location: &ItemLocation, metadata: ItemMetadata, preview_shown: bool)
        requires
            old(self)@.sound(),
        ensures
            final(self)@ == old(self)@.awaiting(location@, metadata, preview_shown),
            final(self)@.sound(),
    {
        let ghost before = self@;
        self.request = ViewRequest::Pending(location.clone());
        assert(self@ =~= (CoreModel { request: RequestModel::Pending(location@), ..before }));
        match submission_slot(&self.submitted_decodes, location) {
            Some(index) => {
                // Already queued as a preload: revoke any cancellation and promote.
                let effect = CoreEffect::Cancel {
                    ticket: self.submitted_decodes[index].ticket,
                    cancelled: false,
                };
                self.effects.push(effect);
                assert(self@.effects =~= before.effects.push(effect@));
                promote(&mut self.queue, location);
                assert(self@ =~= before.awaiting(location@, metadata, preview_shown));
            },
            None => {
                self.submit_pending_decode(location, metadata, preview_shown);
            },
        }
    }

    /// Loads an item: from the cache where it holds a current full decode, behind its preview where
    /// it holds that, by a decode otherwise. `stat` is what the file system says of a file.
    pub fn load_item(&mut self, location: &ItemLocation, stat: &FileStat) -> (outcome: LoadOutcome)
        requires
            old(self)@.sound(),
        ensures
            (final(self)@, outcome) == old(self)@.loaded(location@, stat@),
            final(self)@.sound(),
    {
        proof {
            reveal(CoreModel::loaded);
        }
        let ghost before = self@;
        // Another item becoming the anchor drops the place the last one left.
        let same_anchor: bool = match self.navigation_anchor() {
            Some(anchor) => anchor.same_item(location),
            None => false,
        };
        if !same_anchor {
            self.missing_anchor = None;
        }
        // This request owns the view from here; what the last one left stops deciding what shows.
        self.request = ViewRequest::Idle;
        assert(self@ =~= before.requesting(location@));
        let metadata = match self.load_facts(location, stat) {
            Ok(metadata) => metadata,
            Err(error) => {
                self.fail(location, error);
                return LoadOutcome::Failed;
            },
        };
        let mut preview_shown: bool = false;
        let slot: Option<usize> = match cache_slot(&self.cache, location) {
            Some(index) => if self.cache[index].matches(metadata) {
                Some(index)
            } else {
                None
            },
            None => None,
        };
        if let Some(index) = slot {
            assert(self@.cache[index as int] == self.cache@[index as int]@);
            let preview = self.cache[index].preview;
            let current = CurrentImage {
                location: location.clone(),
                image: self.cache[index].image.clone(),
                texture: self.cache[index].texture,
                metadata,
            };
            self.show_image(current);
            if !preview {
                // Preload starts once this image is on screen.
                return LoadOutcome::Shown;
            }
            preview_shown = true;
        }
        self.await_decode(location, metadata, preview_shown);
        // The deferral timer owns the pending full decode; this call is for the sweeps.
        self.refresh_preload();
        if preview_shown {
            LoadOutcome::Shown
        } else {
            LoadOutcome::Pending
        }
    }

    /// Opens a remote image as a standalone item (no listing, no navigation).
    pub fn load_url(&mut self, url: &str) -> (outcome: LoadOutcome)
        requires
            old(self)@.sound(),
        ensures
            (final(self)@, outcome) == old(self)@.loaded_url(url@),
            final(self)@.sound(),
    {
        let ghost before = self@;
        // Even a failed attempt leaves the single-item state; no listing survives.
        self.entries = Vec::new();
        self.listing_scope = None;
        self.pending_scan = None;
        assert(self@ =~= (CoreModel {
            entries: Seq::empty(),
            listing_scope: None,
            pending_scan: None,
            ..before
        }));
        let characters = crate::strings::characters_of(url);
        let location = ItemLocation::Url(url.to_owned());
        let failure: Option<&'static str> = if characters.len() == 0 {
            Some("No URL in the clipboard")
        } else if !crate::url::is_supported_protocol(url) {
            Some("Unsupported URL protocol")
        } else if url_is_archive(url) {
            Some("Archives are not supported from a URL")
        } else {
            None
        };
        match failure {
            Some(message) => {
                self.fail(&location, uncoded_error(message));
                LoadOutcome::Failed
            },
            None => self.load_item(
                &location,
                &FileStat::Found(ItemMetadata { file_size: 0, modified: None }),
            ),
        }
    }

    fn push_scan(&mut self, scope: ListingScope)
        ensures
            final(self)@ == (CoreModel {
                effects: old(self)@.effects.push(
                    session_model::EffectModel::Scan(scope@, old(self)@.options),
                ),
                ..old(self)@
            }),
    {
        let effect = CoreEffect::Scan { scope, options: self.options };
        self.effects.push(effect);
        assert(self@.effects =~= old(self)@.effects.push(effect@));
    }

    /// Clears the listing and asks for the scope to be enumerated; the listing installs on arrival.
    pub fn submit_scan(&mut self, pending: PendingScan)
        requires
            old(self)@.sound(),
        ensures
            final(self)@ == old(self)@.scanning(pending@),
            final(self)@.sound(),
    {
        proof {
            reveal(CoreModel::scanning);
        }
        let ghost before = self@;
        let scope = pending.scope.clone();
        self.reset_navigation_direction();
        self.entries = Vec::new();
        self.listing_scope = None;
        self.missing_anchor = None;
        self.pending_scan = Some(pending);
        assert(self@ =~= (CoreModel {
            navigating_backward: false,
            opposite_steps: 0,
            entries: Seq::empty(),
            listing_scope: None,
            missing_anchor: None,
            pending_scan: Some(pending@),
            ..before
        }));
        // The old snapshot is gone, so nothing it held is reachable any more.
        self.refresh_preload();
        self.push_scan(scope);
    }

    /// A fresh listing starts with the forward default.
    pub fn reset_navigation_direction(&mut self)
        ensures
            final(self)@ == (CoreModel {
                navigating_backward: false,
                opposite_steps: 0,
                ..old(self)@
            }),
    {
        self.navigating_backward = false;
        self.opposite_steps = 0;
        assert(self@ =~= (CoreModel { navigating_backward: false, opposite_steps: 0, ..old(self)@ }));
    }

    /// Re-collects the current scope while the listing in hand stays usable until it lands.
    pub fn submit_refresh_scan(&mut self)
        requires
            old(self)@.sound(),
        ensures
            final(self)@ == old(self)@.rescanning(),
            final(self)@.sound(),
    {
        // A scan already submitted is the newer listing; leave it to arrive.
        if self.listing_scan_pending() {
            return ;
        }
        let scope = match &self.listing_scope {
            Some(scope) => scope.clone(),
            None => {
                return ;
            },
        };
        self.pending_scan = Some(
            PendingScan { scope: scope.clone(), purpose: ScanPurpose::Refresh },
        );
        self.push_scan(scope);
        assert(self@ =~= old(self)@.rescanning());
    }

    /// True while a listing scan is submitted; the window is loading, not empty.
    pub fn listing_scan_pending(&self) -> (pending: bool)
        ensures
            pending == (self@.pending_scan is Some),
    {
        self.pending_scan.is_some()
    }

    /// True when the listing or the submitted scan already covers this directory.
    fn directory_covered(&self, directory: &FilePath) -> (covered: bool)
        ensures
            covered == self@.covers_directory(directory@),
    {
        let wanted = ListingScope::Directory(directory.clone());
        let listed: bool = match &self.listing_scope {
            Some(scope) => scope.covers(&wanted),
            None => false,
        };
        let awaited: bool = match &self.pending_scan {
            Some(pending) => pending.scope.covers(&wanted),
            None => false,
        };
        listed || awaited
    }

    /// Opens an absolute path: a folder and an archive through a scan, a file at once, with a scan
    /// behind it where its folder is not the one listed.
    pub fn load_path(&mut self, path: &FilePath, is_directory: bool, stat: &FileStat) -> (outcome:
        LoadOutcome)
        requires
            old(self)@.sound(),
        ensures
            (final(self)@, outcome) == old(self)@.loaded_path(path@, is_directory, stat@),
            final(self)@.sound(),
    {
        if is_directory {
            self.submit_scan(
                PendingScan {
                    scope: ListingScope::Directory(path.clone()),
                    purpose: ScanPurpose::OpenFirstEntry,
                },
            );
            return LoadOutcome::Pending;
        }
        if path_is_archive(path) {
            self.submit_scan(
                PendingScan {
                    scope: ListingScope::Archive(path.clone()),
                    purpose: ScanPurpose::OpenFirstEntry,
                },
            );
            return LoadOutcome::Pending;
        }
        if let Some(directory) = path.parent() {
            if !self.directory_covered(&directory) {
                self.submit_scan(
                    PendingScan {
                        scope: ListingScope::Directory(directory),
                        purpose: ScanPurpose::CoverAnchor,
                    },
                );
            }
        }
        self.load_item(&ItemLocation::File(path.clone()), stat)
    }

    fn forget(&mut self, location: &ItemLocation)
        requires
            old(self)@.sound(),
        ensures
            final(self)@ == old(self)@.forgetting(location@),
            final(self)@.sound(),
    {
        forget_cached(&mut self.cache, location, &mut self.retired);
        assert(self@ =~= old(self)@.forgetting(location@));
    }

    /// Loads the anchor anew, so an errored item reloads itself. None when there is no anchor.
    pub fn reload_current(&mut self, stat: &FileStat) -> (outcome: Option<LoadOutcome>)
        requires
            old(self)@.sound(),
        ensures
            (final(self)@, outcome) == old(self)@.reloaded(stat@),
            final(self)@.sound(),
    {
        let location = match self.navigation_anchor() {
            Some(anchor) => anchor.clone(),
            None => {
                return None;
            },
        };
        self.forget(&location);
        if let ItemLocation::Url(url) = &location {
            // Back through the URL checks so validation errors reproduce on retry.
            return Some(self.load_url(url));
        }
        if let ItemLocation::File(path) = &location {
            if path_is_archive(path) {
                // An archive anchor retries through its scan, like a URL revalidates.
                self.submit_scan(
                    PendingScan {
                        scope: ListingScope::Archive(path.clone()),
                        purpose: ScanPurpose::OpenFirstEntry,
                    },
                );
                return Some(LoadOutcome::Pending);
            }
        }
        // A reload re-decodes the item and re-collects the listing it sits in.
        let outcome = self.load_item(&location, stat);
        self.submit_refresh_scan();
        Some(outcome)
    }
}

/// The places of the entries below `end` that carry a weight, in order.
pub open spec fn weighed_places(entries: Seq<EntryModel>, end: int) -> Seq<usize>
    decreases end,
{
    if end <= 0 || end > entries.len() {
        Seq::empty()
    } else if entries[end - 1].weight != DecodedWeight::Unknown {
        weighed_places(entries, end - 1).push((end - 1) as usize)
    } else {
        weighed_places(entries, end - 1)
    }
}

/// The last of the first `count` places that holds the item of this identity.
pub open spec fn place_holding(
    entries: Seq<EntryModel>,
    places: Seq<usize>,
    identity: Place,
    count: int,
) -> Option<usize>
    decreases count,
{
    if count <= 0 {
        None
    } else if entries[places[count - 1] as int].location.identity() == identity {
        Some(places[count - 1])
    } else {
        place_holding(entries, places, identity, count - 1)
    }
}

proof fn lemma_place_holding_prefix(
    entries: Seq<EntryModel>,
    places: Seq<usize>,
    more: Seq<usize>,
    identity: Place,
    count: int,
)
    requires
        0 <= count <= places.len(),
        places.len() <= more.len(),
        places == more.take(places.len() as int),
    ensures
        place_holding(entries, places, identity, count) == place_holding(
            entries,
            more,
            identity,
            count,
        ),
    decreases count,
{
    if count > 0 {
        lemma_place_holding_prefix(entries, places, more, identity, count - 1);
        assert(places[count - 1] == more[count - 1]);
    }
}

proof fn lemma_weighed_places_find(entries: Seq<EntryModel>, identity: Place, end: int)
    requires
        0 <= end <= entries.len(),
        entries.len() <= usize::MAX,
    ensures
        session_model::probed_below(entries, identity, end) == place_holding(
            entries,
            weighed_places(entries, end),
            identity,
            weighed_places(entries, end).len() as int,
        ),
        forall|place: int|
            0 <= place < weighed_places(entries, end).len() ==> (#[trigger] weighed_places(
                entries,
                end,
            )[place]) < end,
    decreases end,
{
    if end > 0 {
        lemma_weighed_places_find(entries, identity, end - 1);
        let shorter = weighed_places(entries, end - 1);
        let longer = weighed_places(entries, end);
        if entries[end - 1].weight != DecodedWeight::Unknown {
            assert(longer.take(shorter.len() as int) =~= shorter);
            lemma_place_holding_prefix(entries, shorter, longer, identity, shorter.len() as int);
            assert forall|place: int| 0 <= place < longer.len() implies (#[trigger] longer[place])
                < end by {
                if place < shorter.len() {
                    assert(longer[place] == shorter[place]);
                }
            }
        }
    }
}

impl ImageCore {
    /// The places of the entries that carry a weight.
    fn weighed_entries(&self) -> (places: Vec<usize>)
        ensures
            places@ == weighed_places(self@.entries, self@.entries.len() as int),
    {
        let ghost models = self@.entries;
        let mut places: Vec<usize> = Vec::new();
        let mut index: usize = 0;
        while index < self.entries.len()
            invariant
                models == self@.entries,
                index <= self.entries.len(),
                places@ == weighed_places(models, index as int),
            decreases self.entries.len() - index,
        {
            assert(models[index as int] == self.entries@[index as int]@);
            if self.entries[index].weight != DecodedWeight::Unknown {
                places.push(index);
            }
            index += 1;
        }
        places
    }

    /// Hands a rescanned listing the weights already probed; an edited file starts over.
    fn carry_weights_into(&self, entries: &mut Vec<ListingEntry>)
        ensures
            listing::entry_models(final(entries)@) == session_model::carried(
                self@.entries,
                listing::entry_models(old(entries)@),
            ),
    {
        let ghost before = listing::entry_models(entries@);
        let ghost previous = self@.entries;
        let ghost wanted = session_model::carried(previous, before);
        let places = self.weighed_entries();
        let mut index: usize = 0;
        while index < entries.len()
            invariant
                previous == self@.entries,
                wanted == session_model::carried(previous, before),
                places@ == weighed_places(previous, previous.len() as int),
                index <= entries.len(),
                entries@.len() == before.len(),
                listing::entry_models(entries@) == wanted.take(index as int) + before.skip(
                    index as int,
                ),
            decreases entries.len() - index,
        {
            let ghost now = listing::entry_models(entries@);
            proof {
                assert(previous.len() == self.entries.len());
                lemma_weighed_places_find(
                    previous,
                    before[index as int].location.identity(),
                    previous.len() as int,
                );
                assert(now[index as int] == before.skip(index as int)[0]);
                assert(now[index as int] == entries@[index as int]@);
            }
            let mut count: usize = places.len();
            let ghost identity = before[index as int].location.identity();
            let mut found: Option<usize> = None;
            while count > 0 && found.is_none()
                invariant
                    previous == self@.entries,
                    count <= places.len(),
                    index < entries.len(),
                    entries@[index as int]@.location.identity() == identity,
                    forall|place: int|
                        0 <= place < places@.len() ==> (#[trigger] places@[place])
                            < previous.len(),
                    found is None ==> place_holding(
                        previous,
                        places@,
                        identity,
                        places@.len() as int,
                    ) == place_holding(previous, places@, identity, count as int),
                    found matches Some(place) ==> place < previous.len() && place_holding(
                        previous,
                        places@,
                        identity,
                        places@.len() as int,
                    ) == Some(place),
                decreases count,
            {
                count -= 1;
                let place = places[count];
                assert(previous[place as int] == self.entries@[place as int]@);
                if self.entries[place].location.same_item(&entries[index].location) {
                    found = Some(place);
                }
            }
            if let Some(place) = found {
                assert(previous[place as int] == self.entries@[place as int]@);
                if self.entries[place].metadata() == entries[index].metadata() {
                    entries[index].weight = self.entries[place].weight;
                }
            }
            proof {
                let after = listing::entry_models(entries@);
                assert(after[index as int] =~= session_model::weighed(
                    previous,
                    before[index as int],
                ));
                assert(after =~= now.update(index as int, wanted[index as int]));
                assert(after =~= wanted.take(index + 1) + before.skip(index + 1));
            }
            index += 1;
        }
        assert(listing::entry_models(entries@) =~= wanted);
    }

    /// What an anchor the incoming listing dropped now sits behind, if it sat in it at all.
    fn missing_anchor_for(&self, incoming: &Vec<ListingEntry>) -> (missing: Option<MissingAnchor>)
        ensures
            (match missing {
                Some(found) => Some(found@),
                None => None,
            }) == self@.place_left(listing::entry_models(incoming@)),
    {
        let ghost models = listing::entry_models(incoming@);
        let anchor = match self.navigation_anchor() {
            Some(anchor) => anchor,
            None => {
                return None;
            },
        };
        let place: usize = match self.anchor_index() {
            AnchorIndex::Listed(index) => index,
            AnchorIndex::Missing(index) => index,
            AnchorIndex::Unlisted => {
                return None;
            },
        };
        proof {
            assert(self@.entries.len() == self.entries.len());
            listing::lemma_entry_position(self@.entries, anchor@, 0);
            if let Some(MissingModel::After(item)) = self@.missing_anchor {
                listing::lemma_entry_position(self@.entries, item, 0);
            }
        }
        if position_in(incoming, anchor).is_some() {
            return None;
        }
        // The nearest surviving predecessor keeps the place where it was, additions included.
        let mut end: usize = place;
        while end > 0
            invariant
                models == listing::entry_models(incoming@),
                end <= place <= self.entries@.len(),
                self@.place_left(models) == (match session_model::survivor_below(
                    self@.entries,
                    models,
                    end as int,
                ) {
                    Some(survivor) => Some(
                        MissingModel::After(self@.entries[survivor as int].location),
                    ),
                    None => Some(MissingModel::Front),
                }),
            decreases end,
        {
            assert(self@.entries[end - 1] == self.entries@[end - 1]@);
            if position_in(incoming, &self.entries[end - 1].location).is_some() {
                return Some(MissingAnchor::After(self.entries[end - 1].location.clone()));
            }
            end -= 1;
        }
        Some(MissingAnchor::Front)
    }

    /// A scan in the order the options ask for now; it was sorted under an options snapshot.
    pub fn settle_order(&self, scan: ScannedListing) -> (settled: ScannedListing)
        ensures
            settled.scope@ == scan.scope@,
            settled.sort_mode == self@.options.sort_mode,
            settled.sort_descending == self@.options.sort_descending,
            scan::scan_model(settled.result) == (match scan::scan_model(scan.result) {
                scan::ScanModel::Listed(entries) => scan::ScanModel::Listed(
                    self@.in_current_order(entries, scan.sort_mode, scan.sort_descending),
                ),
                scan::ScanModel::Failed(error) => scan::ScanModel::Failed(error),
            }),
    {
        let result = match scan.result {
            Ok(entries) => if scan.sort_mode != self.options.sort_mode || scan.sort_descending
                != self.options.sort_descending {
                Ok(sort_entries(entries, &self.options))
            } else {
                Ok(entries)
            },
            Err(error) => Err(error),
        };
        ScannedListing {
            scope: scan.scope,
            sort_mode: self.options.sort_mode,
            sort_descending: self.options.sort_descending,
            result,
        }
    }

    /// Installs an arrived scan; a stale one or a failed refresh is dropped. `stat` is what the file
    /// system says of the first entry.
    pub fn install_listing_scan(&mut self, scan: ScannedListing, stat: &FileStat) -> (install:
        ListingInstall)
        requires
            old(self)@.sound(),
        ensures
            (final(self)@, install) == old(self)@.installed(
                scan.scope@,
                scan.sort_mode,
                scan.sort_descending,
                scan::scan_model(scan.result),
                stat@,
            ),
            final(self)@.sound(),
    {
        proof {
            reveal(CoreModel::installed);
        }
        let ghost before = self@;
        let purpose = match &self.pending_scan {
            Some(pending) => if pending.scope.covers(&scan.scope) {
                pending.purpose
            } else {
                return ListingInstall::Discarded;
            },
            None => {
                return ListingInstall::Discarded;
            },
        };
        let settled = self.settle_order(scan);
        self.pending_scan = None;
        assert(self@ =~= (CoreModel { pending_scan: None, ..before }));
        let mut entries = match settled.result {
            Ok(entries) => entries,
            Err(error) => {
                // A refresh that failed to enumerate leaves the listing it was refreshing.
                if purpose == ScanPurpose::Refresh {
                    return ListingInstall::Discarded;
                }
                self.request = ViewRequest::Failed(
                    ItemLocation::File(settled.scope.path().clone()),
                    error,
                );
                return ListingInstall::Opened { outcome: LoadOutcome::Failed };
            },
        };
        self.carry_weights_into(&mut entries);
        self.missing_anchor = self.missing_anchor_for(&entries);
        self.entries = entries;
        self.listing_scope = Some(settled.scope);
        assert(self@.entries.len() == self.entries@.len());
        if purpose == ScanPurpose::OpenFirstEntry {
            if self.entries.len() == 0 {
                return ListingInstall::Installed;
            }
            assert(self@.entries[0] == self.entries@[0]@);
            let first = self.entries[0].location.clone();
            let outcome = self.load_item(&first, stat);
            return ListingInstall::Opened { outcome };
        }
        self.refresh_preload();
        ListingInstall::Installed
    }
}

impl ImageCore {
    /// Aims the preload polarity at a declared direction (slideshow start).
    pub fn set_navigation_direction(&mut self, backward: bool)
        requires
            old(self)@.sound(),
        ensures
            final(self)@ == (CoreModel {
                navigating_backward: backward,
                opposite_steps: 0,
                ..old(self)@
            }).refreshed(),
            final(self)@.sound(),
    {
        self.navigating_backward = backward;
        self.opposite_steps = 0;
        assert(self@ =~= (CoreModel {
            navigating_backward: backward,
            opposite_steps: 0,
            ..old(self)@
        }));
        self.refresh_preload();
    }

    /// Jumps declare their direction; steps turn the polarity on the second one in a row.
    pub fn record_navigation(&mut self, command: NavigationCommand)
        requires
            old(self)@.sound(),
        ensures
            final(self)@ == old(self)@.navigated(command),
            final(self)@.sound(),
    {
        match command {
            NavigationCommand::First => {
                self.navigating_backward = false;
                self.opposite_steps = 0;
            },
            NavigationCommand::Last => {
                self.navigating_backward = true;
                self.opposite_steps = 0;
            },
            NavigationCommand::Next => self.record_step(false),
            NavigationCommand::Previous => self.record_step(true),
        }
        assert(self@ =~= old(self)@.navigated(command));
    }

    fn record_step(&mut self, backward: bool)
        requires
            old(self)@.sound(),
        ensures
            final(self)@ == old(self)@.stepped(backward),
            final(self)@.sound(),
    {
        if backward == self.navigating_backward {
            self.opposite_steps = 0;
        } else {
            self.opposite_steps = self.opposite_steps + 1;
            if self.opposite_steps >= 2 {
                self.navigating_backward = backward;
                self.opposite_steps = 0;
            }
        }
        assert(self@ =~= old(self)@.stepped(backward));
    }

    /// The entry a command leads to.
    pub fn navigation_target(&self, command: NavigationCommand) -> (target: Option<ItemLocation>)
        ensures
            (match target {
                Some(found) => Some(found@),
                None => None,
            }) == self@.target(command),
    {
        let length = self.entries.len();
        assert(self@.entries.len() == length);
        if length == 0 {
            return None;
        }
        let anchor = self.anchor_index();
        let looped = self.options.loop_within_folder;
        let place: Option<usize> = match command {
            NavigationCommand::First => Some(0),
            NavigationCommand::Last => Some(length - 1),
            NavigationCommand::Next => step_index(anchor, 1, length, looped),
            NavigationCommand::Previous => step_index(anchor, -1, length, looped),
        };
        match place {
            Some(index) => {
                assert(self@.entries[index as int] == self.entries@[index as int]@);
                Some(self.entries[index].location.clone())
            },
            None => None,
        }
    }

    /// Goes where a command leads; None when it leads nowhere or to the anchor itself. `stat` is
    /// what the file system says of the target.
    pub fn navigate(&mut self, command: NavigationCommand, stat: &FileStat) -> (outcome: Option<
        LoadOutcome,
    >)
        requires
            old(self)@.sound(),
        ensures
            (final(self)@, outcome) == old(self)@.moved(command, stat@),
            final(self)@.sound(),
    {
        let target = match self.navigation_target(command) {
            Some(target) => target,
            None => {
                return None;
            },
        };
        if let Some(anchor) = self.navigation_anchor() {
            if anchor.same_item(&target) {
                return None;
            }
        }
        self.record_navigation(command);
        Some(self.load_item(&target, stat))
    }

    /// Goes to an item the caller already identified, listed or not.
    pub fn navigate_to_location(&mut self, target: &ItemLocation, stat: &FileStat) -> (outcome:
        Option<LoadOutcome>)
        requires
            old(self)@.sound(),
        ensures
            (final(self)@, outcome) == old(self)@.jumped(target@, stat@),
            final(self)@.sound(),
    {
        if let Some(anchor) = self.navigation_anchor() {
            if anchor.same_item(target) {
                return None;
            }
        }
        // A jump keeps the polarity but breaks the run.
        self.opposite_steps = 0;
        assert(self@ =~= (CoreModel { opposite_steps: 0, ..old(self)@ }));
        Some(self.load_item(target, stat))
    }

    /// Empty-window state for when a delete leaves nothing to show.
    pub fn clear_current_item(&mut self)
        requires
            old(self)@.sound(),
        ensures
            final(self)@ == old(self)@.cleared(),
            final(self)@.sound(),
    {
        let ghost before = self@;
        self.request = ViewRequest::Idle;
        let previous = self.current.take();
        if let Some(outgoing) = previous {
            let ghost image = outgoing.image@;
            self.retired.push(outgoing.image);
            assert(self@.retired =~= before.retired.push(image));
        }
        assert(self@ =~= before.cleared());
    }

    /// Notes the device the workers upload through and retires every other generation's entry.
    pub fn set_upload_device(&mut self, upload_device: Option<UploadDevice>)
        requires
            old(self)@.sound(),
        ensures
            final(self)@ == old(self)@.with_device(upload_device),
            final(self)@.sound(),
    {
        let generation: Option<u64> = match upload_device {
            Some(device) => Some(device.generation),
            None => None,
        };
        self.upload_device = upload_device;
        self.upload_device_generation = generation;
        keep_cached_generation(&mut self.cache, generation, &mut self.retired);
        let shown = self.current.take();
        if let Some(current) = shown {
            let texture = if is_retired(current.texture, generation) {
                None
            } else {
                current.texture
            };
            self.current = Some(
                CurrentImage {
                    location: current.location,
                    image: current.image,
                    texture,
                    metadata: current.metadata,
                },
            );
        }
        assert(self@ =~= old(self)@.with_device(upload_device));
    }

    /// The texture a display without pixels can be read back from.
    pub fn readable_texture(&self) -> (texture: Option<crate::image::UploadedTexture>)
        requires
            self@.sound(),
        ensures
            texture == self@.only_texture(),
    {
        match &self.current {
            Some(current) => if current.image.pixel_bytes() > 0 {
                None
            } else {
                current.texture
            },
            None => None,
        }
    }

    /// Puts a texture-only display back on pixels read from its texture, None where the reading
    /// failed; returns the restored image.
    pub fn recover_current_pixels(&mut self, pixels: Option<Vec<u8>>) -> (restored: Option<
        Arc<DecodedImage>,
    >)
        requires
            old(self)@.sound(),
        ensures
            final(self)@ == old(self)@.recovered(crate::image::optional_bytes(pixels)),
            final(self)@.sound(),
            match restored {
                Some(image) => old(self)@.only_texture() is Some && pixels is Some && (
                final(self)@.current matches Some(shown) && shown.image == image@),
                None => old(self)@.only_texture() is None || pixels is None,
            },
    {
        let ghost before = self@;
        if self.readable_texture().is_none() {
            return None;
        }
        let bytes = match pixels {
            Some(bytes) => bytes,
            None => {
                return None;
            },
        };
        let shown = self.current.take();
        match shown {
            Some(current) => {
                proof {
                    crate::image::lemma_read_back_pixels_weigh(current.image@, bytes@);
                    assert(bytes.len() <= usize::MAX);
                }
                let image = Arc::new(current.image.with_first_pixels(bytes));
                self.current = Some(
                    CurrentImage {
                        location: current.location,
                        image: image.clone(),
                        texture: None,
                        metadata: current.metadata,
                    },
                );
                assert(self@ =~= before.recovered(crate::image::optional_bytes(pixels)));
                Some(image)
            },
            None => None,
        }
    }

    /// The just-attempted plain-file open of this absolute path failed at once as not found; scans
    /// report later.
    pub fn open_failed_missing(&self, path: &FilePath) -> (missing: bool)
        ensures
            missing == (self@.request matches RequestModel::Failed(location, error) && (error.code
                == 2 || error.code == 3) && location.identity() == Place::File(path@).identity()),
    {
        match self.request.failure() {
            Some((location, error)) => (error.code == 2 || error.code == 3) && location.same_item(
                &ItemLocation::File(path.clone()),
            ),
            None => false,
        }
    }

    /// True while a remote image download owns the pending slot.
    pub fn url_download_pending(&self) -> (pending: bool)
        ensures
            pending == (self@.request matches RequestModel::Pending(place) && place is Url),
    {
        match self.request.pending() {
            Some(ItemLocation::Url(_)) => true,
            _ => false,
        }
    }

    pub fn has_pending_display(&self) -> (pending: bool)
        ensures
            pending == (self@.request is Pending),
    {
        self.request.pending().is_some()
    }

    /// The failed request the view reports, if the last one ended that way.
    pub fn load_failure(&self) -> (failed: Option<(&ItemLocation, &DecodeError)>)
        ensures
            match failed {
                Some((location, error)) => self@.request == RequestModel::Failed(location@, error@),
                None => !(self@.request is Failed),
            },
    {
        self.request.failure()
    }

    /// Nothing shown, nothing awaited, no scan running: the session holds no item at all.
    pub fn holds_no_item(&self) -> (empty: bool)
        ensures
            empty == (self@.current is None && !(self@.request is Pending) && self@.pending_scan
                is None),
    {
        self.current.is_none() && !self.has_pending_display() && !self.listing_scan_pending()
    }

    /// The current item's path when it is a local file (not an archive member or URL).
    pub fn current_file(&self) -> (file: Option<&FilePath>)
        ensures
            match file {
                Some(path) => self@.current matches Some(current) && current.location
                    == Place::File(path@),
                None => self@.current matches Some(current) ==> !(current.location is File),
            },
    {
        match &self.current {
            Some(current) => current.location.as_file(),
            None => None,
        }
    }

    /// The file backing the current item: the file itself, or the archive holding a member.
    pub fn current_containing_file(&self) -> (file: Option<&FilePath>)
        ensures
            match file {
                Some(path) => self@.current matches Some(current) && current.location.carrier()
                    == Some(path@),
                None => self@.current matches Some(current) ==> current.location.carrier() is None,
            },
    {
        match &self.current {
            Some(current) => current.location.containing_file(),
            None => None,
        }
    }

    /// What the current item's load already read; None once nothing is shown.
    pub fn current_item_metadata(&self) -> (metadata: Option<ItemMetadata>)
        ensures
            metadata == (match self@.current {
                Some(current) => Some(current.metadata),
                None => None,
            }),
    {
        match &self.current {
            Some(current) => Some(current.metadata),
            None => None,
        }
    }

    /// True while this item is the one the view waits on.
    pub fn is_pending(&self, location: &ItemLocation) -> (pending: bool)
        ensures
            pending == self@.waits_on(location@),
    {
        match self.request.pending() {
            Some(awaited) => awaited.same_item(location),
            None => false,
        }
    }

    /// The anchor's place in the listing, counted from one, and the listing's length.
    pub fn listing_position(&self) -> (position: Option<(usize, usize)>)
        ensures
            position == (match self@.anchor_index() {
                AnchorIndex::Listed(index) => Some(((index + 1) as usize, self.entries.len())),
                _ => None,
            }),
    {
        match self.navigation_anchor() {
            Some(anchor) => match self.position_of(anchor) {
                Some(index) => {
                    assert(index < self.entries.len());
                    Some((index + 1, self.entries.len()))
                },
                None => None,
            },
            None => None,
        }
    }

    /// An action requiring navigation targets can act: somewhere to go besides the anchor.
    pub fn has_navigation_targets(&self) -> (targets: bool)
        ensures
            targets == (self@.entries.len() >= 2 || (self@.entries.len() == 1
                && !(self@.anchor_index() is Listed))),
    {
        assert(self@.entries.len() == self.entries@.len());
        if self.entries.len() == 0 {
            false
        } else if self.entries.len() == 1 {
            // A single listed entry is a real target only for an anchor outside it.
            match self.anchor_index() {
                AnchorIndex::Listed(_) => false,
                _ => true,
            }
        } else {
            true
        }
    }

    /// Listing window for the menu: `capacity` entries centered on the anchor, the rest a count.
    pub fn playlist_window(&self, capacity: usize) -> (window: PlaylistWindow)
        ensures
            ({
                let total = self@.entries.len() as int;
                let first = navigation::window_start(
                    total,
                    self@.window_center(),
                    capacity as int,
                );
                let end = if first + capacity < total {
                    first + capacity
                } else {
                    total
                };
                &&& window.first_index == first
                &&& 0 <= first <= end <= total
                &&& session_parts::place_models(window.locations@) == Seq::new(
                    (end - first) as nat,
                    |slot: int| self@.entries[first + slot].location,
                )
                &&& window.current_slot == (match self@.anchor_index() {
                    AnchorIndex::Listed(index) => if first <= index < end {
                        Some((index - first) as usize)
                    } else {
                        None
                    },
                    _ => None,
                })
                &&& window.hidden_after == total - end
            }),
    {
        let total = self.entries.len();
        assert(self@.entries.len() == total);
        let anchor = self.anchor_index();
        // A vanished anchor still says where to look, even with no slot to mark.
        let center: Option<usize> = match anchor {
            AnchorIndex::Listed(index) => Some(index),
            AnchorIndex::Missing(index) => Some(index),
            AnchorIndex::Unlisted => None,
        };
        let first_index = playlist_window_start(total, center, capacity);
        let end: usize = if capacity < total - first_index {
            first_index + capacity
        } else {
            total
        };
        let ghost shown = Seq::new(
            (end - first_index) as nat,
            |slot: int| self@.entries[first_index + slot].location,
        );
        let mut locations: Vec<ItemLocation> = Vec::new();
        let mut index: usize = first_index;
        while index < end
            invariant
                first_index <= index <= end <= self.entries@.len(),
                shown == Seq::new(
                    (end - first_index) as nat,
                    |slot: int| self@.entries[first_index + slot].location,
                ),
                session_parts::place_models(locations@) == shown.take(index - first_index),
            decreases end - index,
        {
            let ghost before = session_parts::place_models(locations@);
            assert(self@.entries[index as int] == self.entries@[index as int]@);
            let location = self.entries[index].location.clone();
            let ghost place = location@;
            locations.push(location);
            index += 1;
            assert(session_parts::place_models(locations@) =~= before.push(place));
            assert(session_parts::place_models(locations@) =~= shown.take(index - first_index));
        }
        assert(shown.take(end - first_index) =~= shown);
        let current_slot: Option<usize> = match anchor {
            AnchorIndex::Listed(index) => if first_index <= index && index < end {
                Some(index - first_index)
            } else {
                None
            },
            _ => None,
        };
        PlaylistWindow { locations, first_index, current_slot, hidden_after: total - end }
    }

    /// A pending two-stage item is showing its preview and waits for the deferred full decode.
    pub fn full_decode_pending(&self) -> (pending: bool)
        ensures
            pending == (self@.awaits_full_decode() is Some),
    {
        match self.request.pending() {
            Some(location) => {
                let preview: bool = match self.cached_entry(location) {
                    Some(entry) => entry.preview,
                    None => false,
                };
                submission_slot(&self.submitted_decodes, location).is_none() && preview
            },
            None => false,
        }
    }

    /// Submits the deferred full decode for the pending preview; a no-op when none waits.
    pub fn start_pending_full_decode(&mut self)
        requires
            old(self)@.sound(),
        ensures
            final(self)@ == old(self)@.with_full_decode(),
            final(self)@.sound(),
    {
        let location = match self.request.pending() {
            Some(pending) => pending.clone(),
            None => {
                return ;
            },
        };
        if !self.full_decode_pending() {
            return ;
        }
        let metadata: ItemMetadata = match self.cached_entry(&location) {
            Some(entry) => entry.metadata,
            None => {
                return ;
            },
        };
        self.submit_decode(&location, metadata, JobKind::Full, true);
    }

    /// The actual bytes replace the prediction; eviction then trims any excess.
    fn record_arrived_weight(&mut self, location: &ItemLocation, image: &DecodedImage)
        requires
            old(self)@.sound(),
            image@.addressable(),
        ensures
            final(self)@ == old(self)@.with_arrived_weight(location@, image@),
            final(self)@.sound(),
    {
        let ghost before = self@;
        // A slimmed arrival keeps its geometry; the frame length is the texture's size.
        let held = image.pixel_bytes();
        let bytes: usize = if held == 0 {
            image.frame_byte_length()
        } else {
            held
        };
        if let Some(index) = self.position_of(location) {
            self.entries[index].weight = DecodedWeight::Known(bytes as u64);
            assert(self@.entries =~= before.with_arrived_weight(location@, image@).entries);
        }
        assert(self@ =~= before.with_arrived_weight(location@, image@));
    }

    /// Takes in an arrived decode. None when the arrival changes nothing on screen: a stale item, or
    /// a redo already queued. `stat` is what the file system says of the item.
    pub fn on_decode_complete(&mut self, completion: DecodeCompletion, stat: &FileStat) -> (outcome:
        Option<LoadOutcome>)
        requires
            old(self)@.sound(),
            completion.result matches Ok(image) ==> image@.addressable(),
        ensures
            (final(self)@, outcome) == old(self)@.arrived(completion@, stat@),
            final(self)@.sound(),
    {
        proof {
            reveal(CoreModel::arrived);
        }
        let is_pending = self.is_pending(&completion.location);
        if completion.stage == DecodeStage::Preview {
            if is_pending {
                if let Ok(image) = completion.result {
                    self.show_image(
                        CurrentImage {
                            location: completion.location,
                            image,
                            texture: completion.texture,
                            metadata: completion.metadata,
                        },
                    );
                    return Some(LoadOutcome::Shown);
                }
            }
            return None;
        }
        withdraw(&mut self.submitted_decodes, &completion.location);
        assert(self@ =~= (CoreModel {
            submitted_decodes: session_model::withdrawn(
                old(self)@.submitted_decodes,
                completion@.location,
            ),
            ..old(self)@
        }));
        // A retired generation never wraps and carries no pixels; redo like a cancelled decode.
        if is_retired(completion.texture, self.upload_device_generation) {
            if let Ok(image) = &completion.result {
                self.record_arrived_weight(&completion.location, image);
            }
            if is_pending {
                self.resubmit_pending_decode(&completion.location, completion.metadata);
            }
            return None;
        }
        let location = completion.location;
        match completion.result {
            Ok(image) => {
                let preview = completion.stage == DecodeStage::PreviewFinal;
                if !preview {
                    self.record_arrived_weight(&location, &image);
                }
                self.cache_image(
                    CacheEntry::new(
                        location.clone(),
                        completion.metadata,
                        preview,
                        image.clone(),
                        completion.texture,
                    ),
                );
                if !is_pending {
                    self.evict_cache();
                    return None;
                }
                if preview {
                    // Waited on: show it, then submit the full decode it precedes.
                    return Some(self.load_item(&location, stat));
                }
                self.show_image(
                    CurrentImage {
                        location,
                        image,
                        texture: completion.texture,
                        metadata: completion.metadata,
                    },
                );
                self.request = ViewRequest::Idle;
                // Preload starts once this image is on screen.
                Some(LoadOutcome::Shown)
            },
            Err(error) => {
                if !is_pending {
                    return None;
                }
                if error.is_cancelled() {
                    // Navigation can return to an item while its decode is cancelling.
                    self.resubmit_pending_decode(&location, completion.metadata);
                    return None;
                }
                self.fail(&location, error);
                Some(LoadOutcome::Failed)
            },
        }
    }

    /// Lists a folder anew at once from what it holds now.
    pub fn rescan_folder(&mut self, directory: &FilePath, items: &Vec<FolderItem>)
        requires
            old(self)@.sound(),
        ensures
            final(self)@ == old(self)@.folder_rescanned(directory@, scan::item_models(items@)),
            final(self)@.sound(),
    {
        let mut entries = sort_entries(scan_folder(items, &self.options), &self.options);
        self.carry_weights_into(&mut entries);
        self.entries = entries;
        self.listing_scope = Some(ListingScope::Directory(directory.clone()));
        assert(self@ =~= old(self)@.folder_rescanned(directory@, scan::item_models(items@)));
    }

    /// Brings the listing in line with the options, at once; `items` is what a listed folder holds
    /// now.
    pub fn rescan_listing(&mut self, items: &Vec<FolderItem>)
        requires
            old(self)@.sound(),
        ensures
            final(self)@ == old(self)@.listing_rescanned(scan::item_models(items@)),
            final(self)@.sound(),
    {
        let directory: Option<FilePath> = match &self.listing_scope {
            Some(ListingScope::Directory(directory)) => Some(directory.clone()),
            Some(ListingScope::Archive(_)) => None,
            None => {
                return ;
            },
        };
        match directory {
            Some(path) => self.rescan_folder(&path, items),
            None => {
                // Archives are read-only; order is all a rescan could change.
                let mut entries: Vec<ListingEntry> = Vec::new();
                std::mem::swap(&mut entries, &mut self.entries);
                self.entries = sort_entries(entries, &self.options);
                assert(self@ =~= old(self)@.listing_rescanned(scan::item_models(items@)));
            },
        }
    }

    /// Takes other options over; `items` is what a listed folder holds now.
    pub fn update_options(&mut self, options: CoreOptions, items: &Vec<FolderItem>)
        requires
            old(self)@.sound(),
        ensures
            final(self)@ == old(self)@.with_options(options, scan::item_models(items@)),
            final(self)@.sound(),
    {
        if options == self.options {
            return ;
        }
        let list_affected: bool = options.sort_mode != self.options.sort_mode
            || options.sort_descending != self.options.sort_descending || options.skip_hidden
            != self.options.skip_hidden || options.detect_format_by_content
            != self.options.detect_format_by_content;
        self.options = options;
        assert(self@ =~= (CoreModel { options, ..old(self)@ }));
        if list_affected {
            self.rescan_listing(items);
        }
        self.refresh_preload();
    }

    /// Drops a deleted item from the listing snapshot; no rescan.
    fn remove_listing_entry(&mut self, location: &ItemLocation)
        requires
            old(self)@.sound(),
        ensures
            final(self)@ == old(self)@.unlisting(location@),
            final(self)@.sound(),
    {
        let ghost before = self@;
        if let Some(index) = self.position_of(location) {
            self.entries.remove(index);
            assert(self@.entries =~= before.entries.remove(index as int));
        }
        assert(self@ =~= before.unlisting(location@));
    }

    fn target_besides(&self, command: NavigationCommand, location: &ItemLocation) -> (target: Option<
        ItemLocation,
    >)
        ensures
            (match target {
                Some(found) => Some(found@),
                None => None,
            }) == self@.other_target(command, location@),
    {
        match self.navigation_target(command) {
            Some(target) => if target.same_item(location) {
                None
            } else {
                Some(target)
            },
            None => None,
        }
    }

    /// Drops a deleted item and answers what to show next, resolved while it is still listed.
    pub fn remove_deleted_item(
        &mut self,
        location: &ItemLocation,
        preferred: NavigationCommand,
    ) -> (successor: Option<FilePath>)
        requires
            old(self)@.sound(),
        ensures
            (match successor {
                Some(path) => Some(path@),
                None => None,
            }) == old(self)@.successor(location@, preferred),
            final(self)@ == old(self)@.deleting(location@, preferred),
            final(self)@.sound(),
    {
        let opposite = match preferred {
            NavigationCommand::Previous => NavigationCommand::Next,
            _ => NavigationCommand::Previous,
        };
        let found = match self.target_besides(preferred, location) {
            Some(target) => Some(target),
            None => self.target_besides(opposite, location),
        };
        let successor: Option<FilePath> = match found {
            Some(ItemLocation::File(path)) => Some(path),
            _ => None,
        };
        self.remove_listing_entry(location);
        if successor.is_none() {
            self.clear_current_item();
        }
        successor
    }

    /// Records an arrived probe; a stale location misses the listing lookup.
    pub fn on_probe_complete(&mut self, completion: ProbeCompletion)
        requires
            old(self)@.sound(),
        ensures
            final(self)@ == old(self)@.probed(
                completion.location@,
                completion.cancelled,
                completion.weight,
            ),
            final(self)@.sound(),
    {
        let ghost before = self@;
        withdraw(&mut self.submitted_probes, &completion.location);
        if !completion.cancelled {
            if let Some(index) = self.position_of(&completion.location) {
                let weight = match completion.weight {
                    Some(bytes) => DecodedWeight::Known(bytes),
                    None => DecodedWeight::Unavailable,
                };
                self.entries[index].weight = weight;
                assert(self@.entries =~= before.entries.update(
                    index as int,
                    EntryModel { weight, ..before.entries[index as int] },
                ));
            }
        }
        assert(self@.submitted_probes.len() == self.submitted_probes@.len());
        // The budget pass waits for the whole target set; sweep once it settles.
        if self.submitted_probes.len() == 0 {
            self.refresh_preload();
        }
    }

    /// Drawings raster at the largest monitor's size, so their weights expire with it.
    pub fn invalidate_svg_weights(&mut self)
        requires
            old(self)@.sound(),
        ensures
            final(self)@ == (CoreModel {
                entries: session_model::without_display_weights(old(self)@.entries),
                ..old(self)@
            }),
            final(self)@.sound(),
    {
        let ghost before = self@;
        let ghost wanted = session_model::without_display_weights(before.entries);
        let mut index: usize = 0;
        assert(self@.entries =~= wanted.take(0) + before.entries.skip(0));
        while index < self.entries.len()
            invariant
                wanted == session_model::without_display_weights(before.entries),
                index <= self.entries.len(),
                self.entries@.len() == before.entries.len(),
                before.sound(),
                self@ == (CoreModel {
                    entries: wanted.take(index as int) + before.entries.skip(index as int),
                    ..before
                }),
            decreases self.entries.len() - index,
        {
            let ghost now = self@.entries;
            assert(now[index as int] == before.entries.skip(index as int)[0]);
            assert(now[index as int] == self.entries@[index as int]@);
            // An unprobed entry has no weight to clear, and the name lookup is not free.
            if self.entries[index].weight != DecodedWeight::Unknown {
                let display_sized: bool = match self.entries[index].location.extension_lowercase() {
                    Some(extension) => weight_depends_on_display(&extension),
                    None => false,
                };
                if display_sized {
                    self.entries[index].weight = DecodedWeight::Unknown;
                }
            }
            proof {
                assert(self.entries@[index as int]@ =~= wanted[index as int]);
                assert(self@.entries =~= now.update(index as int, wanted[index as int]));
                assert(self@.entries =~= wanted.take(index + 1) + before.entries.skip(index + 1));
            }
            index += 1;
        }
        assert(self@.entries =~= wanted);
    }

    /// The next job for a worker.
    pub fn take_job(&mut self) -> (job: Option<DecodeJob>)
        requires
            old(self)@.sound(),
        ensures
            match job {
                Some(taken) => old(self)@.queue.len() > 0 && taken@ == old(self)@.queue[0]
                    && final(self)@ == (CoreModel {
                    queue: old(self)@.queue.skip(1),
                    ..old(self)@
                }),
                None => old(self)@.queue.len() == 0 && final(self)@ == old(self)@,
            },
            final(self)@.sound(),
    {
        let ghost before = self@;
        assert(before.queue.len() == self.queue@.len());
        if self.queue.len() == 0 {
            return None;
        }
        let job = self.queue.remove(0);
        assert(self@.queue =~= before.queue.skip(1));
        assert(self@ =~= (CoreModel { queue: before.queue.skip(1), ..before }));
        Some(job)
    }

    /// What the session asked of the world since the last call, in order.
    pub fn take_effects(&mut self) -> (effects: Vec<CoreEffect>)
        requires
            old(self)@.sound(),
        ensures
            session_parts::effect_models(effects@) == old(self)@.effects,
            final(self)@ == (CoreModel { effects: Seq::empty(), ..old(self)@ }),
            final(self)@.sound(),
    {
        let mut effects: Vec<CoreEffect> = Vec::new();
        std::mem::swap(&mut effects, &mut self.effects);
        assert(self@ =~= (CoreModel { effects: Seq::empty(), ..old(self)@ }));
        effects
    }

    /// The images the session let go of since the last call.
    pub fn take_retired(&mut self) -> (images: Vec<Arc<DecodedImage>>)
        requires
            old(self)@.sound(),
        ensures
            session_parts::image_models(images@) == old(self)@.retired,
            final(self)@ == (CoreModel { retired: Seq::empty(), ..old(self)@ }),
            final(self)@.sound(),
    {
        let mut images: Vec<Arc<DecodedImage>> = Vec::new();
        std::mem::swap(&mut images, &mut self.retired);
        assert(self@ =~= (CoreModel { retired: Seq::empty(), ..old(self)@ }));
        images
    }
}

} // verus!
