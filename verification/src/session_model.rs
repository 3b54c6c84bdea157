//! What the viewing session is, and what each event makes of it.

use vstd::prelude::*;

use crate::image::{ErrorModel, ImageModel, UploadDevice, UploadedTexture};
use crate::listing;
use crate::listing::{CoreOptions, DecodedWeight, EntryModel, ItemMetadata};
use crate::location::Place;
use crate::navigation;
use crate::navigation::{AnchorIndex, NavigationCommand, PRELOAD_SPECIFICATIONS};
use crate::scan::{ScanModel, ScopeModel};

verus! {

/// Fixed once a worker takes the job; preview, probe and the speculative flag keep preload cheap.
#[derive(Clone, Copy, PartialEq, Eq, Structural, Debug)]
pub enum JobKind {
    Full,
    /// Stops at a RAW embedded or sub-resolution preview when one exists; decodes fully otherwise.
    Preview,
    /// Reads only the header and posts the decode weight; no pixels.
    Probe,
}

/// What an arriving listing does to the view.
#[derive(Clone, Copy, PartialEq, Eq, Structural, Debug)]
pub enum ScanPurpose {
    /// A folder or archive was the target: its first entry opens on arrival.
    OpenFirstEntry,
    /// The listing behind a directly opened file; the anchor is already loading.
    CoverAnchor,
    /// Re-collection of the scope in hand; the old listing serves until this lands.
    Refresh,
}

#[derive(Clone, Copy, PartialEq, Eq, Structural, Debug)]
pub enum DecodeStage {
    /// Preview shown while the same job goes on to the full decode.
    Preview,
    /// Preview and the job stops there; the full decode is submitted separately after it arrives.
    PreviewFinal,
    Final,
}

/// How a load ended: on screen, refused with an error the view shows, or nothing to show yet.
#[derive(Clone, Copy, PartialEq, Eq, Structural, Debug)]
pub enum LoadOutcome {
    Shown,
    Failed,
    Pending,
}

/// What an arrived scan did: nothing (stale), the listing alone, or an open.
#[derive(Clone, Copy, PartialEq, Eq, Structural, Debug)]
pub enum ListingInstall {
    Discarded,
    Installed,
    Opened { outcome: LoadOutcome },
}

/// The request that owns the view: nothing, one being decoded, or one that ended in an error.
pub enum RequestModel {
    Idle,
    Pending(Place),
    Failed(Place, ErrorModel),
}

#[verifier::ext_equal]
pub struct CurrentModel {
    pub location: Place,
    pub image: ImageModel,
    pub texture: Option<UploadedTexture>,
    pub metadata: ItemMetadata,
}

#[verifier::ext_equal]
pub struct CacheModel {
    pub location: Place,
    pub metadata: ItemMetadata,
    /// A preview stands in until the full decode arrives.
    pub preview: bool,
    pub image: ImageModel,
    pub texture: Option<UploadedTexture>,
}

/// A job handed out and not yet answered.
#[verifier::ext_equal]
pub struct SubmissionModel {
    pub location: Place,
    pub ticket: u64,
}

#[verifier::ext_equal]
pub struct JobModel {
    pub ticket: u64,
    pub location: Place,
    pub metadata: ItemMetadata,
    pub kind: JobKind,
    pub speculative: bool,
}

#[verifier::ext_equal]
pub struct PendingModel {
    pub scope: ScopeModel,
    pub purpose: ScanPurpose,
}

/// The place a dropped anchor held, named by the entry beside it so re-sorts carry it.
pub enum MissingModel {
    Front,
    After(Place),
}

/// What the session asks of the world.
pub enum EffectModel {
    /// Enumerate this scope in the background, under these options.
    Scan(ScopeModel, CoreOptions),
    /// Raise or revoke the cancellation of a job.
    Cancel { ticket: u64, cancelled: bool },
}

/// What the file system answered about a file.
pub enum StatModel {
    Found(ItemMetadata),
    Failed(i32, Seq<char>),
}

/// An arrived decode.
#[verifier::ext_equal]
pub struct CompletionModel {
    pub location: Place,
    pub metadata: ItemMetadata,
    pub stage: DecodeStage,
    pub result: Result<ImageModel, ErrorModel>,
    pub texture: Option<UploadedTexture>,
}

/// The session: the listing, the view, the cache, and the work under way.
#[verifier::ext_equal]
pub struct CoreModel {
    pub options: CoreOptions,
    pub listing_scope: Option<ScopeModel>,
    pub entries: Seq<EntryModel>,
    pub request: RequestModel,
    pub submitted_decodes: Seq<SubmissionModel>,
    pub submitted_probes: Seq<SubmissionModel>,
    pub upload_device: Option<UploadDevice>,
    pub upload_device_generation: Option<u64>,
    pub cache: Seq<CacheModel>,
    pub current: Option<CurrentModel>,
    pub navigating_backward: bool,
    pub opposite_steps: u32,
    pub pending_scan: Option<PendingModel>,
    pub missing_anchor: Option<MissingModel>,
    /// Jobs no worker has taken yet.
    pub queue: Seq<JobModel>,
    pub next_ticket: u64,
    pub effects: Seq<EffectModel>,
    /// Images the session let go of.
    pub retired: Seq<ImageModel>,
}

/// One of the places names the item.
pub open spec fn names_item(places: Seq<Place>, item: Place) -> bool {
    exists|index: int|
        0 <= index < places.len() && (#[trigger] places[index]).identity() == item.identity()
}

/// The first cache entry from `from` on that holds the item of this identity.
pub open spec fn cache_position_from(cache: Seq<CacheModel>, identity: Place, from: int) -> Option<
    usize,
>
    decreases cache.len() - from,
{
    if from < 0 || from >= cache.len() {
        None
    } else if cache[from].location.identity() == identity {
        Some(from as usize)
    } else {
        cache_position_from(cache, identity, from + 1)
    }
}

/// Where the cache holds an item.
pub open spec fn cache_position(cache: Seq<CacheModel>, item: Place) -> Option<usize> {
    cache_position_from(cache, item.identity(), 0)
}

/// What the cache holds of an item.
pub open spec fn cached(cache: Seq<CacheModel>, item: Place) -> Option<CacheModel> {
    match cache_position(cache, item) {
        Some(index) => Some(cache[index as int]),
        None => None,
    }
}

/// The first submission from `from` on for the item of this identity.
pub open spec fn submission_from(
    submissions: Seq<SubmissionModel>,
    identity: Place,
    from: int,
) -> Option<usize>
    decreases submissions.len() - from,
{
    if from < 0 || from >= submissions.len() {
        None
    } else if submissions[from].location.identity() == identity {
        Some(from as usize)
    } else {
        submission_from(submissions, identity, from + 1)
    }
}

/// Where the submissions hold an item.
pub open spec fn submission(submissions: Seq<SubmissionModel>, item: Place) -> Option<usize> {
    submission_from(submissions, item.identity(), 0)
}

/// The submissions with one more; an item submitted again takes the new ticket.
pub open spec fn resubmitted(
    submissions: Seq<SubmissionModel>,
    item: Place,
    ticket: u64,
) -> Seq<SubmissionModel> {
    match submission(submissions, item) {
        Some(index) => submissions.update(
            index as int,
            SubmissionModel { location: submissions[index as int].location, ticket },
        ),
        None => submissions.push(SubmissionModel { location: item, ticket }),
    }
}

/// The submissions without one item.
pub open spec fn withdrawn(submissions: Seq<SubmissionModel>, item: Place) -> Seq<SubmissionModel> {
    match submission(submissions, item) {
        Some(index) => submissions.remove(index as int),
        None => submissions,
    }
}

/// The submissions that name none of the places.
pub open spec fn submissions_besides(submissions: Seq<SubmissionModel>, places: Seq<Place>) -> Seq<
    SubmissionModel,
>
    decreases submissions.len(),
{
    if submissions.len() == 0 {
        submissions
    } else if names_item(places, submissions.last().location) {
        submissions_besides(submissions.drop_last(), places)
    } else {
        submissions_besides(submissions.drop_last(), places).push(submissions.last())
    }
}

/// The cancellations of every submission outside the targets.
pub open spec fn cancellations(submissions: Seq<SubmissionModel>, targets: Seq<Place>) -> Seq<
    EffectModel,
>
    decreases submissions.len(),
{
    if submissions.len() == 0 {
        Seq::empty()
    } else if names_item(targets, submissions.last().location) {
        cancellations(submissions.drop_last(), targets)
    } else {
        cancellations(submissions.drop_last(), targets).push(
            EffectModel::Cancel { ticket: submissions.last().ticket, cancelled: true },
        )
    }
}

/// The queued jobs inside the targets.
pub open spec fn jobs_inside(queue: Seq<JobModel>, targets: Seq<Place>) -> Seq<JobModel>
    decreases queue.len(),
{
    if queue.len() == 0 {
        queue
    } else if names_item(targets, queue.last().location) {
        jobs_inside(queue.drop_last(), targets).push(queue.last())
    } else {
        jobs_inside(queue.drop_last(), targets)
    }
}

/// The items of the queued jobs outside the targets.
pub open spec fn items_outside(queue: Seq<JobModel>, targets: Seq<Place>) -> Seq<Place>
    decreases queue.len(),
{
    if queue.len() == 0 {
        Seq::empty()
    } else if names_item(targets, queue.last().location) {
        items_outside(queue.drop_last(), targets)
    } else {
        items_outside(queue.drop_last(), targets).push(queue.last().location)
    }
}

/// The first queued decode from `from` on of the item of this identity.
pub open spec fn decode_job_from(queue: Seq<JobModel>, identity: Place, from: int) -> Option<usize>
    decreases queue.len() - from,
{
    if from < 0 || from >= queue.len() {
        None
    } else if queue[from].kind != JobKind::Probe && queue[from].location.identity() == identity {
        Some(from as usize)
    } else {
        decode_job_from(queue, identity, from + 1)
    }
}

/// The queue with the item's decode at its head, waited on; a job a worker already took keeps what
/// it is.
pub open spec fn promoted(queue: Seq<JobModel>, item: Place) -> Seq<JobModel> {
    match decode_job_from(queue, item.identity(), 0) {
        Some(index) => seq![JobModel { speculative: false, ..queue[index as int] }] + queue.remove(
            index as int,
        ),
        None => queue,
    }
}

/// The cache entries inside the targets.
pub open spec fn cache_inside(cache: Seq<CacheModel>, targets: Seq<Place>) -> Seq<CacheModel>
    decreases cache.len(),
{
    if cache.len() == 0 {
        cache
    } else if names_item(targets, cache.last().location) {
        cache_inside(cache.drop_last(), targets).push(cache.last())
    } else {
        cache_inside(cache.drop_last(), targets)
    }
}

/// The images of the cache entries outside the targets.
pub open spec fn images_outside(cache: Seq<CacheModel>, targets: Seq<Place>) -> Seq<ImageModel>
    decreases cache.len(),
{
    if cache.len() == 0 {
        Seq::empty()
    } else if names_item(targets, cache.last().location) {
        images_outside(cache.drop_last(), targets)
    } else {
        images_outside(cache.drop_last(), targets).push(cache.last().image)
    }
}

pub open spec fn cache_images(cache: Seq<CacheModel>) -> Seq<ImageModel> {
    cache.map_values(|entry: CacheModel| entry.image)
}

/// A texture of another device generation.
pub open spec fn is_retired(texture: Option<UploadedTexture>, generation: Option<u64>) -> bool {
    texture matches Some(uploaded) && Some(uploaded.generation) != generation
}

/// The cache entries whose texture, if any, is of this generation.
pub open spec fn cache_of_generation(cache: Seq<CacheModel>, generation: Option<u64>) -> Seq<
    CacheModel,
>
    decreases cache.len(),
{
    if cache.len() == 0 {
        cache
    } else if is_retired(cache.last().texture, generation) {
        cache_of_generation(cache.drop_last(), generation)
    } else {
        cache_of_generation(cache.drop_last(), generation).push(cache.last())
    }
}

/// The images of the cache entries whose texture is of another generation.
pub open spec fn images_of_other_generations(cache: Seq<CacheModel>, generation: Option<u64>) -> Seq<
    ImageModel,
>
    decreases cache.len(),
{
    if cache.len() == 0 {
        Seq::empty()
    } else if is_retired(cache.last().texture, generation) {
        images_of_other_generations(cache.drop_last(), generation).push(cache.last().image)
    } else {
        images_of_other_generations(cache.drop_last(), generation)
    }
}

/// A textured entry keeps no pixels: the texture is the only copy.
pub open spec fn cache_entry(
    location: Place,
    metadata: ItemMetadata,
    preview: bool,
    image: ImageModel,
    texture: Option<UploadedTexture>,
) -> CacheModel {
    CacheModel {
        location,
        metadata,
        preview,
        image: if texture is Some && image.pixel_bytes() > 0 {
            image.without_pixels()
        } else {
            image
        },
        texture,
    }
}

/// A preview-first local file whose full decode waits for the navigation lull.
pub open spec fn is_deferred(item: Place) -> bool {
    item matches Place::File(path) && crate::registry::is_two_stage(
        crate::registry::format_of_path_extension(path),
    )
}

/// The entries a preload reaches, in priority order.
pub open spec fn reached(anchor: AnchorIndex, offsets: Seq<int>, length: int, looped: bool) -> Seq<
    usize,
>
    decreases offsets.len(),
{
    if offsets.len() == 0 {
        Seq::empty()
    } else {
        let earlier = reached(anchor, offsets.drop_last(), length, looped);
        match navigation::offset_index(anchor, offsets.last(), length, looped) {
            Some(index) => earlier.push(index),
            None => earlier,
        }
    }
}

/// The last entry below `end` that carries a weight for the item of this identity.
pub open spec fn probed_below(entries: Seq<EntryModel>, identity: Place, end: int) -> Option<usize>
    decreases end,
{
    if end <= 0 || end > entries.len() {
        None
    } else if entries[end - 1].weight != DecodedWeight::Unknown && entries[end
        - 1].location.identity() == identity {
        Some((end - 1) as usize)
    } else {
        probed_below(entries, identity, end - 1)
    }
}

/// An entry with the weight the old listing knew of it; an edited file starts over.
pub open spec fn weighed(previous: Seq<EntryModel>, entry: EntryModel) -> EntryModel {
    match probed_below(previous, entry.location.identity(), previous.len() as int) {
        Some(index) => if previous[index as int].metadata() == entry.metadata() {
            EntryModel { weight: previous[index as int].weight, ..entry }
        } else {
            entry
        },
        None => entry,
    }
}

/// A rescanned listing with the weights already probed.
pub open spec fn carried(previous: Seq<EntryModel>, entries: Seq<EntryModel>) -> Seq<EntryModel> {
    entries.map_values(|entry: EntryModel| weighed(previous, entry))
}

/// The last entry below `end` that the incoming listing still holds.
pub open spec fn survivor_below(
    entries: Seq<EntryModel>,
    incoming: Seq<EntryModel>,
    end: int,
) -> Option<usize>
    decreases end,
{
    if end <= 0 || end > entries.len() {
        None
    } else if listing::entry_position(incoming, entries[end - 1].location) is Some {
        Some((end - 1) as usize)
    } else {
        survivor_below(entries, incoming, end - 1)
    }
}

/// The listing without the weights that follow the display: those of rastered drawings.
pub open spec fn without_display_weights(entries: Seq<EntryModel>) -> Seq<EntryModel> {
    entries.map_values(
        |entry: EntryModel|
            if follows_display(entry) {
                EntryModel { weight: DecodedWeight::Unknown, ..entry }
            } else {
                entry
            },
    )
}

/// An entry whose weight follows the size of the display.
pub open spec fn follows_display(entry: EntryModel) -> bool {
    entry.location.extension() matches Some(extension) && crate::registry::format_of_extension(
        extension,
    ) == Some(crate::registry::ImageFormat::Svg)
}

/// A session that holds no item.
pub open spec fn idle(options: CoreOptions) -> CoreModel {
    CoreModel {
        options,
        listing_scope: None,
        entries: Seq::empty(),
        request: RequestModel::Idle,
        submitted_decodes: Seq::empty(),
        submitted_probes: Seq::empty(),
        upload_device: None,
        upload_device_generation: None,
        cache: Seq::empty(),
        current: None,
        navigating_backward: false,
        opposite_steps: 0,
        pending_scan: None,
        missing_anchor: None,
        queue: Seq::empty(),
        next_ticket: 0,
        effects: Seq::empty(),
        retired: Seq::empty(),
    }
}

impl CoreModel {
    /// The position baseline: the running load, else the errored item, else the display.
    pub open spec fn anchor(self) -> Option<Place> {
        match self.request {
            RequestModel::Pending(location) => Some(location),
            RequestModel::Failed(location, _) => Some(location),
            RequestModel::Idle => match self.current {
                Some(current) => Some(current.location),
                None => None,
            },
        }
    }

    /// The anchor is this item.
    pub open spec fn anchored_on(self, item: Place) -> bool {
        self.anchor() matches Some(anchor) && anchor.identity() == item.identity()
    }

    /// The view waits on this item.
    pub open spec fn waits_on(self, item: Place) -> bool {
        self.request matches RequestModel::Pending(location) && location.identity()
            == item.identity()
    }

    /// The anchor's index in the listing; a listing that dropped it answers with its place.
    pub open spec fn anchor_index(self) -> AnchorIndex {
        let listed = match self.anchor() {
            Some(anchor) => listing::entry_position(self.entries, anchor),
            None => None,
        };
        match (listed, self.missing_anchor) {
            (Some(index), _) => AnchorIndex::Listed(index),
            (None, Some(MissingModel::Front)) => AnchorIndex::Missing(0),
            (None, Some(MissingModel::After(item))) => match listing::entry_position(
                self.entries,
                item,
            ) {
                Some(index) => AnchorIndex::Missing((index + 1) as usize),
                None => AnchorIndex::Unlisted,
            },
            (None, None) => AnchorIndex::Unlisted,
        }
    }

    /// Preload distances and budget, aimed along the current navigation direction.
    pub open spec fn preload_plan(self) -> (usize, usize, u64) {
        let mode: int = if self.options.preloading_mode < 2 {
            self.options.preloading_mode as int
        } else {
            2
        };
        let (backward, forward, budget) = PRELOAD_SPECIFICATIONS@[mode];
        if self.navigating_backward {
            (forward, backward, budget)
        } else {
            (backward, forward, budget)
        }
    }

    /// The listing's weight for an item.
    pub open spec fn listed_weight(self, item: Place) -> Option<u64> {
        match listing::entry_position(self.entries, item) {
            Some(index) => match self.entries[index as int].weight {
                DecodedWeight::Known(weight) => Some(weight),
                _ => None,
            },
            None => None,
        }
    }

    /// A preview weighs its full decode; others weigh what they hold, pixels or texture.
    pub open spec fn cached_weight(self, entry: CacheModel) -> int {
        if entry.preview && self.listed_weight(entry.location) is Some {
            self.listed_weight(entry.location)->0 as int
        } else if entry.image.pixel_bytes() > 0 {
            entry.image.pixel_bytes() as int
        } else if entry.texture is Some {
            entry.image.frame_byte_length()
        } else {
            0
        }
    }

    /// Weight of these cache entries together.
    pub open spec fn cache_weight(self, cache: Seq<CacheModel>) -> int
        decreases cache.len(),
    {
        if cache.len() == 0 {
            0
        } else {
            self.cache_weight(cache.drop_last()) + self.cached_weight(cache.last())
        }
    }

    /// Weight of the submissions that have not arrived.
    pub open spec fn submitted_weight(self, submissions: Seq<SubmissionModel>) -> int
        decreases submissions.len(),
    {
        if submissions.len() == 0 {
            0
        } else {
            self.submitted_weight(submissions.drop_last()) + if cache_position(
                self.cache,
                submissions.last().location,
            ) is Some {
                0
            } else {
                match self.listed_weight(submissions.last().location) {
                    Some(weight) => weight as int,
                    None => 0,
                }
            }
        }
    }

    /// Bytes the budget already covers: cached items once, plus unarrived submissions.
    pub open spec fn occupied(self) -> int {
        self.cache_weight(self.cache) + self.submitted_weight(self.submitted_decodes)
    }

    /// How soon an item leaves the cache: the anchor last, the preload targets in reverse order of
    /// preloading before it, what is no target first of all.
    pub open spec fn eviction_key(self, item: Place) -> usize {
        if self.anchored_on(item) {
            0
        } else {
            let (backward, forward, budget) = self.preload_plan();
            let priorities = navigation::priorities(
                self.anchor_index(),
                backward as int,
                forward as int,
                self.entries.len() as int,
                self.options.loop_within_folder,
            );
            match listing::entry_position(self.entries, item) {
                Some(index) => if priorities.dom().contains(index) {
                    priorities[index]
                } else {
                    usize::MAX
                },
                None => usize::MAX,
            }
        }
    }

    /// The cache entry to leave first among those below `end`: the greatest key, the oldest of
    /// equals.
    pub open spec fn first_to_leave(self, cache: Seq<CacheModel>, end: int) -> int
        decreases end,
    {
        if end <= 1 {
            0
        } else {
            let earlier = self.first_to_leave(cache, end - 1);
            if self.eviction_key(cache[end - 1].location) > self.eviction_key(
                cache[earlier].location,
            ) {
                end - 1
            } else {
                earlier
            }
        }
    }

    /// What stays in the cache once entries have left in order until the rest fits the budget.
    pub open spec fn cache_within_budget(self, cache: Seq<CacheModel>) -> Seq<CacheModel>
        decreases cache.len(),
    {
        let (backward, forward, budget) = self.preload_plan();
        let leaving = self.first_to_leave(cache, cache.len() as int);
        if cache.len() == 0 || self.cache_weight(cache) <= budget || !(0 <= leaving < cache.len()) {
            cache
        } else {
            self.cache_within_budget(cache.remove(leaving))
        }
    }

    /// The images that left on the way, in order.
    pub open spec fn images_over_budget(self, cache: Seq<CacheModel>) -> Seq<ImageModel>
        decreases cache.len(),
    {
        let (backward, forward, budget) = self.preload_plan();
        let leaving = self.first_to_leave(cache, cache.len() as int);
        if cache.len() == 0 || self.cache_weight(cache) <= budget || !(0 <= leaving < cache.len()) {
            Seq::empty()
        } else {
            seq![cache[leaving].image] + self.images_over_budget(cache.remove(leaving))
        }
    }

    /// The session with its cache inside the budget.
    #[verifier::opaque]
    pub open spec fn evicted(self) -> CoreModel {
        CoreModel {
            cache: self.cache_within_budget(self.cache),
            retired: self.retired + self.images_over_budget(self.cache),
            ..self
        }
    }

    /// A job behind the queue, or at its head where it is waited on.
    pub open spec fn with_job(
        self,
        item: Place,
        metadata: ItemMetadata,
        kind: JobKind,
        awaited: bool,
    ) -> CoreModel {
        let job = JobModel {
            ticket: self.next_ticket,
            location: item,
            metadata,
            kind,
            speculative: !awaited,
        };
        CoreModel {
            queue: if awaited {
                seq![job] + self.queue
            } else {
                self.queue.push(job)
            },
            next_ticket: if self.next_ticket == u64::MAX {
                0
            } else {
                (self.next_ticket + 1) as u64
            },
            ..self
        }
    }

    /// A decode handed out under a fresh ticket.
    pub open spec fn with_decode(
        self,
        item: Place,
        metadata: ItemMetadata,
        kind: JobKind,
        awaited: bool,
    ) -> CoreModel {
        CoreModel {
            submitted_decodes: resubmitted(self.submitted_decodes, item, self.next_ticket),
            ..self.with_job(item, metadata, kind, awaited)
        }
    }

    /// A probe handed out under a fresh ticket.
    pub open spec fn with_probe(self, item: Place) -> CoreModel {
        CoreModel {
            submitted_probes: resubmitted(self.submitted_probes, item, self.next_ticket),
            ..self.with_job(
                item,
                ItemMetadata { file_size: 0, modified: None },
                JobKind::Probe,
                false,
            )
        }
    }

    /// What a pending item still needs; a cached two-stage preview waits on the timer.
    pub open spec fn with_pending_decode(
        self,
        item: Place,
        metadata: ItemMetadata,
        preview_cached: bool,
    ) -> CoreModel {
        if !preview_cached {
            self.with_decode(item, metadata, JobKind::Preview, true)
        } else if !is_deferred(item) {
            self.with_decode(item, metadata, JobKind::Full, true)
        } else {
            self
        }
    }

    /// What the waiting item still needs after a discarded arrival.
    pub open spec fn with_pending_decode_again(
        self,
        item: Place,
        metadata: ItemMetadata,
    ) -> CoreModel {
        let preview_cached = cached(self.cache, item) matches Some(entry) && entry.preview
            && entry.metadata == metadata;
        self.with_pending_decode(item, metadata, preview_cached)
    }

    /// Probes for the candidates whose weight nobody knows.
    pub open spec fn with_probes(self, candidates: Seq<usize>) -> CoreModel
        decreases candidates.len(),
    {
        if candidates.len() == 0 {
            self
        } else {
            let earlier = self.with_probes(candidates.drop_last());
            let entry = self.entries[candidates.last() as int];
            if entry.weight == DecodedWeight::Unknown && submission(
                earlier.submitted_probes,
                entry.location,
            ) is None {
                earlier.with_probe(entry.location)
            } else {
                earlier
            }
        }
    }

    /// Some candidate's weight is still unknown.
    pub open spec fn awaits_probes(self, candidates: Seq<usize>) -> bool {
        exists|index: int|
            0 <= index < candidates.len() && self.entries[(
            #[trigger] candidates[index]) as int].weight == DecodedWeight::Unknown
    }

    /// A candidate worth a decode: its weight is known, it is not under way, and the cache holds
    /// nothing current of it.
    pub open spec fn is_submittable(self, candidate: usize) -> bool {
        let entry = self.entries[candidate as int];
        &&& entry.weight is Known
        &&& submission(self.submitted_decodes, entry.location) is None
        &&& !(cached(self.cache, entry.location) matches Some(held) && held.metadata
            == entry.metadata())
    }

    /// The candidates worth a decode.
    pub open spec fn submittable(self, candidates: Seq<usize>) -> Seq<usize>
        decreases candidates.len(),
    {
        if candidates.len() == 0 {
            candidates
        } else if self.is_submittable(candidates.last()) {
            self.submittable(candidates.drop_last()).push(candidates.last())
        } else {
            self.submittable(candidates.drop_last())
        }
    }

    /// The weights of these candidates.
    pub open spec fn weights(self, candidates: Seq<usize>) -> Seq<u64> {
        candidates.map_values(
            |candidate: usize|
                match self.entries[candidate as int].weight {
                    DecodedWeight::Known(weight) => weight,
                    _ => 0,
                },
        )
    }

    /// Speculative decodes for the selected candidates: a two-stage item gets its preview alone.
    pub open spec fn with_selected(self, candidates: Seq<usize>, selected: Seq<bool>) -> CoreModel
        decreases candidates.len(),
    {
        if candidates.len() == 0 {
            self
        } else {
            let earlier = self.with_selected(candidates.drop_last(), selected);
            let entry = self.entries[candidates.last() as int];
            if selected[candidates.len() - 1] {
                earlier.with_decode(
                    entry.location,
                    entry.metadata(),
                    if is_deferred(entry.location) {
                        JobKind::Preview
                    } else {
                        JobKind::Full
                    },
                    false,
                )
            } else {
                earlier
            }
        }
    }

    /// Candidates queued while their weights fit the budget; unknown weights probe first.
    #[verifier::opaque]
    pub open spec fn with_preloads(self, candidates: Seq<usize>, budget: u64) -> CoreModel {
        if self.awaits_probes(candidates) {
            self.with_probes(candidates)
        } else {
            let worthwhile = self.submittable(candidates);
            self.with_selected(
                worthwhile,
                navigation::fitting(self.occupied(), budget as int, self.weights(worthwhile)),
            )
        }
    }

    /// Queued and running work outside the targets called off.
    #[verifier::opaque]
    pub open spec fn cancelled_outside(self, targets: Seq<Place>) -> CoreModel {
        let removed = items_outside(self.queue, targets);
        let decodes = submissions_besides(self.submitted_decodes, removed);
        let probes = submissions_besides(self.submitted_probes, removed);
        CoreModel {
            queue: jobs_inside(self.queue, targets),
            submitted_decodes: decodes,
            submitted_probes: probes,
            effects: self.effects + cancellations(decodes, targets) + cancellations(
                probes,
                targets,
            ),
            ..self
        }
    }

    /// The cache without what left the targets.
    pub open spec fn dropped_outside(self, targets: Seq<Place>) -> CoreModel {
        CoreModel {
            cache: cache_inside(self.cache, targets),
            retired: self.retired + images_outside(self.cache, targets),
            ..self
        }
    }

    /// The cache emptied.
    pub open spec fn drained(self) -> CoreModel {
        CoreModel {
            cache: Seq::empty(),
            retired: self.retired + cache_images(self.cache),
            ..self
        }
    }

    /// The entries the preload reaches, in priority order.
    pub open spec fn candidates(self) -> Seq<usize> {
        let (backward, forward, budget) = self.preload_plan();
        reached(
            self.anchor_index(),
            navigation::offsets(backward as int, forward as int),
            self.entries.len() as int,
            self.options.loop_within_folder,
        )
    }

    /// The items worth keeping: the entries the preload reaches, and the anchor.
    pub open spec fn targets(self) -> Seq<Place> {
        let reached = self.candidates().map_values(
            |candidate: usize| self.entries[candidate as int].location,
        );
        match self.anchor() {
            Some(anchor) => reached.push(anchor),
            None => reached,
        }
    }

    /// The view waits on something other than what it shows.
    pub open spec fn awaits_first_view(self) -> bool {
        self.request matches RequestModel::Pending(pending) && !(self.current matches Some(current)
            && current.location.identity() == pending.identity())
    }

    /// The cache and the work under way, brought in line with the anchor. Speculation waits for the
    /// display; the cancel and evict sweeps do not.
    #[verifier::opaque]
    pub open spec fn refreshed(self) -> CoreModel {
        let (backward, forward, budget) = self.preload_plan();
        let targets = self.targets();
        let swept = if backward == 0 && forward == 0 {
            self.drained()
        } else if self.awaits_first_view() {
            self.dropped_outside(targets)
        } else {
            self.dropped_outside(targets).with_preloads(self.candidates(), budget)
        };
        swept.cancelled_outside(targets).evicted()
    }

    /// Another image on screen; the outgoing one is let go of.
    pub open spec fn showing(self, current: CurrentModel) -> CoreModel {
        CoreModel {
            current: Some(current),
            retired: match self.current {
                Some(previous) => self.retired.push(previous.image),
                None => self.retired,
            },
            ..self
        }
    }

    /// The cache with an entry; one it replaces is let go of.
    pub open spec fn caching(self, entry: CacheModel) -> CoreModel {
        match cache_position(self.cache, entry.location) {
            Some(index) => CoreModel {
                cache: self.cache.update(
                    index as int,
                    CacheModel { location: self.cache[index as int].location, ..entry },
                ),
                retired: self.retired.push(self.cache[index as int].image),
                ..self
            },
            None => CoreModel { cache: self.cache.push(entry), ..self },
        }
    }

    /// The cache without an item.
    pub open spec fn forgetting(self, item: Place) -> CoreModel {
        match cache_position(self.cache, item) {
            Some(index) => CoreModel {
                cache: self.cache.remove(index as int),
                retired: self.retired.push(self.cache[index as int].image),
                ..self
            },
            None => self,
        }
    }

    /// The session with a failed request, its wait swept.
    pub open spec fn failing(self, item: Place, error: ErrorModel) -> CoreModel {
        (CoreModel { request: RequestModel::Failed(item, error), ..self }).refreshed()
    }

    /// The facts a load goes by, or the error it ends in: a file's own, a member's as the listing
    /// fixed them, a cached remote item's until an explicit reload.
    pub open spec fn load_facts(self, item: Place, stat: StatModel) -> Result<
        ItemMetadata,
        ErrorModel,
    > {
        match item {
            Place::File(_) => match stat {
                StatModel::Found(metadata) => Ok(metadata),
                StatModel::Failed(code, message) => Err(
                    ErrorModel { code, message, store_codec_names: Seq::empty() },
                ),
            },
            Place::ArchiveMember { archive, member } => match listing::entry_position(
                self.entries,
                item,
            ) {
                Some(index) => Ok(self.entries[index as int].metadata()),
                None => Err(crate::image::uncoded("Member no longer exists in the archive"@)),
            },
            Place::Url(_) => Ok(
                ItemMetadata {
                    file_size: match cached(self.cache, item) {
                        Some(entry) => entry.metadata.file_size,
                        None => 0,
                    },
                    modified: None,
                },
            ),
        }
    }

    /// The session once a new request owns the view; another item becoming the anchor drops the
    /// place the last one left.
    pub open spec fn requesting(self, item: Place) -> CoreModel {
        CoreModel {
            request: RequestModel::Idle,
            missing_anchor: if self.anchored_on(item) {
                self.missing_anchor
            } else {
                None
            },
            ..self
        }
    }

    /// What the cache holds of an item under these facts.
    pub open spec fn held(self, item: Place, metadata: ItemMetadata) -> Option<CacheModel> {
        match cached(self.cache, item) {
            Some(entry) => if entry.metadata == metadata {
                Some(entry)
            } else {
                None
            },
            None => None,
        }
    }

    /// The item's decode under way and waited on: one already queued is revived and promoted.
    pub open spec fn awaiting(
        self,
        item: Place,
        metadata: ItemMetadata,
        preview_shown: bool,
    ) -> CoreModel {
        let waiting = CoreModel { request: RequestModel::Pending(item), ..self };
        match submission(self.submitted_decodes, item) {
            Some(index) => CoreModel {
                queue: promoted(self.queue, item),
                effects: self.effects.push(
                    EffectModel::Cancel {
                        ticket: self.submitted_decodes[index as int].ticket,
                        cancelled: false,
                    },
                ),
                ..waiting
            },
            None => waiting.with_pending_decode(item, metadata, preview_shown),
        }
    }

    /// A load: from the cache where it holds a current full decode, behind its preview where it
    /// holds that, by a decode otherwise.
    #[verifier::opaque]
    pub open spec fn loaded(self, item: Place, stat: StatModel) -> (CoreModel, LoadOutcome) {
        let owned = self.requesting(item);
        match owned.load_facts(item, stat) {
            Err(error) => (owned.failing(item, error), LoadOutcome::Failed),
            Ok(metadata) => match owned.held(item, metadata) {
                Some(entry) => {
                    let shown = owned.showing(
                        CurrentModel {
                            location: item,
                            image: entry.image,
                            texture: entry.texture,
                            metadata,
                        },
                    );
                    if entry.preview {
                        (shown.awaiting(item, metadata, true).refreshed(), LoadOutcome::Shown)
                    } else {
                        (shown, LoadOutcome::Shown)
                    }
                },
                None => (
                    owned.awaiting(item, metadata, false).refreshed(),
                    LoadOutcome::Pending,
                ),
            },
        }
    }

    /// Why a URL is not even tried.
    pub open spec fn url_refusal(url: Seq<char>) -> Option<Seq<char>> {
        if url.len() == 0 {
            Some("No URL in the clipboard"@)
        } else if !crate::url::supported_protocol(url) {
            Some("Unsupported URL protocol"@)
        } else if crate::archive::is_archive_url(url) {
            Some("Archives are not supported from a URL"@)
        } else {
            None
        }
    }

    /// A remote image opened as a standalone item: no listing survives, not even a refusal.
    pub open spec fn loaded_url(self, url: Seq<char>) -> (CoreModel, LoadOutcome) {
        let alone = CoreModel {
            entries: Seq::empty(),
            listing_scope: None,
            pending_scan: None,
            ..self
        };
        match CoreModel::url_refusal(url) {
            Some(message) => (
                alone.failing(Place::Url(url), crate::image::uncoded(message)),
                LoadOutcome::Failed,
            ),
            None => alone.loaded(
                Place::Url(url),
                StatModel::Found(ItemMetadata { file_size: 0, modified: None }),
            ),
        }
    }

    /// A scan requested: the listing is cleared until it arrives.
    #[verifier::opaque]
    pub open spec fn scanning(self, pending: PendingModel) -> CoreModel {
        let swept = (CoreModel {
            navigating_backward: false,
            opposite_steps: 0,
            entries: Seq::empty(),
            listing_scope: None,
            missing_anchor: None,
            pending_scan: Some(pending),
            ..self
        }).refreshed();
        CoreModel {
            effects: swept.effects.push(EffectModel::Scan(pending.scope, swept.options)),
            ..swept
        }
    }

    /// The current scope re-collected while the listing in hand stays usable; a scan already
    /// submitted is the newer listing.
    pub open spec fn rescanning(self) -> CoreModel {
        match (self.pending_scan, self.listing_scope) {
            (None, Some(scope)) => CoreModel {
                pending_scan: Some(PendingModel { scope, purpose: ScanPurpose::Refresh }),
                effects: self.effects.push(EffectModel::Scan(scope, self.options)),
                ..self
            },
            _ => self,
        }
    }

    /// The listing or the submitted scan already covers this folder.
    pub open spec fn covers_directory(self, directory: Seq<u16>) -> bool {
        let wanted = ScopeModel::Directory(directory);
        ||| self.listing_scope matches Some(scope) && scope.covers(wanted)
        ||| self.pending_scan matches Some(pending) && pending.scope.covers(wanted)
    }

    /// A path opened: a folder and an archive through a scan, a file at once, with a scan behind it
    /// where its folder is not the one listed.
    pub open spec fn loaded_path(self, path: Seq<u16>, is_directory: bool, stat: StatModel) -> (
        CoreModel,
        LoadOutcome,
    ) {
        if is_directory {
            (
                self.scanning(
                    PendingModel {
                        scope: ScopeModel::Directory(path),
                        purpose: ScanPurpose::OpenFirstEntry,
                    },
                ),
                LoadOutcome::Pending,
            )
        } else if crate::archive::is_archive_path(path) {
            (
                self.scanning(
                    PendingModel {
                        scope: ScopeModel::Archive(path),
                        purpose: ScanPurpose::OpenFirstEntry,
                    },
                ),
                LoadOutcome::Pending,
            )
        } else {
            let covered = match crate::path::parent(path) {
                Some(directory) => if self.covers_directory(directory) {
                    self
                } else {
                    self.scanning(
                        PendingModel {
                            scope: ScopeModel::Directory(directory),
                            purpose: ScanPurpose::CoverAnchor,
                        },
                    )
                },
                None => self,
            };
            covered.loaded(Place::File(path), stat)
        }
    }

    /// The anchor loaded anew: a URL is validated again, an archive scanned again, any other item
    /// re-decoded and its listing re-collected.
    pub open spec fn reloaded(self, stat: StatModel) -> (CoreModel, Option<LoadOutcome>) {
        match self.anchor() {
            None => (self, None),
            Some(item) => {
                let fresh = self.forgetting(item);
                match item {
                    Place::Url(url) => {
                        let (after, outcome) = fresh.loaded_url(url);
                        (after, Some(outcome))
                    },
                    Place::File(path) => if crate::archive::is_archive_path(path) {
                        (
                            fresh.scanning(
                                PendingModel {
                                    scope: ScopeModel::Archive(path),
                                    purpose: ScanPurpose::OpenFirstEntry,
                                },
                            ),
                            Some(LoadOutcome::Pending),
                        )
                    } else {
                        let (after, outcome) = fresh.loaded(item, stat);
                        (after.rescanning(), Some(outcome))
                    },
                    _ => {
                        let (after, outcome) = fresh.loaded(item, stat);
                        (after.rescanning(), Some(outcome))
                    },
                }
            },
        }
    }

    /// What an anchor the incoming listing dropped now sits behind, if it sat in the listing at
    /// all: its nearest surviving predecessor.
    pub open spec fn place_left(self, incoming: Seq<EntryModel>) -> Option<MissingModel> {
        match self.anchor() {
            None => None,
            Some(anchor) => {
                let index = match self.anchor_index() {
                    AnchorIndex::Listed(index) => Some(index),
                    AnchorIndex::Missing(index) => Some(index),
                    AnchorIndex::Unlisted => None,
                };
                match index {
                    None => None,
                    Some(place) => if listing::entry_position(incoming, anchor) is Some {
                        None
                    } else {
                        match survivor_below(self.entries, incoming, place as int) {
                            Some(survivor) => Some(
                                MissingModel::After(self.entries[survivor as int].location),
                            ),
                            None => Some(MissingModel::Front),
                        }
                    },
                }
            },
        }
    }

    /// A scan installed where it is the one awaited; a failed refresh leaves the listing it was
    /// refreshing.
    #[verifier::opaque]
    pub open spec fn installed(
        self,
        scope: ScopeModel,
        sort_mode: crate::listing::SortMode,
        sort_descending: bool,
        scan: ScanModel,
        stat: StatModel,
    ) -> (CoreModel, ListingInstall) {
        match self.pending_scan {
            None => (self, ListingInstall::Discarded),
            Some(pending) => if !pending.scope.covers(scope) {
                (self, ListingInstall::Discarded)
            } else {
                let taken = CoreModel { pending_scan: None, ..self };
                match scan {
                    ScanModel::Failed(error) => if pending.purpose == ScanPurpose::Refresh {
                        (taken, ListingInstall::Discarded)
                    } else {
                        (
                            CoreModel {
                                request: RequestModel::Failed(Place::File(scope.path()), error),
                                ..taken
                            },
                            ListingInstall::Opened { outcome: LoadOutcome::Failed },
                        )
                    },
                    ScanModel::Listed(found) => {
                        let entries = carried(
                            self.entries,
                            self.in_current_order(found, sort_mode, sort_descending),
                        );
                        let listed = CoreModel {
                            missing_anchor: taken.place_left(entries),
                            entries,
                            listing_scope: Some(scope),
                            ..taken
                        };
                        if pending.purpose != ScanPurpose::OpenFirstEntry {
                            (listed.refreshed(), ListingInstall::Installed)
                        } else if entries.len() == 0 {
                            (listed, ListingInstall::Installed)
                        } else {
                            let (after, outcome) = listed.loaded(entries[0].location, stat);
                            (after, ListingInstall::Opened { outcome })
                        }
                    },
                }
            },
        }
    }

    /// Entries sorted under an options snapshot; a change since then sorts them again.
    pub open spec fn in_current_order(
        self,
        entries: Seq<EntryModel>,
        sort_mode: crate::listing::SortMode,
        sort_descending: bool,
    ) -> Seq<EntryModel> {
        if sort_mode != self.options.sort_mode || sort_descending != self.options.sort_descending {
            listing::arranged(entries, self.options)
        } else {
            entries
        }
    }

    /// The entry a navigation command leads to.
    pub open spec fn target(self, command: NavigationCommand) -> Option<Place> {
        let length = self.entries.len() as int;
        let looped = self.options.loop_within_folder;
        let index = match command {
            NavigationCommand::First => Some(0usize),
            NavigationCommand::Last => Some((length - 1) as usize),
            NavigationCommand::Next => navigation::stepped(self.anchor_index(), 1, length, looped),
            NavigationCommand::Previous => navigation::stepped(
                self.anchor_index(),
                -1,
                length,
                looped,
            ),
        };
        match index {
            Some(place) => if length > 0 {
                Some(self.entries[place as int].location)
            } else {
                None
            },
            None => None,
        }
    }

    /// The preload polarity after a step: the second step in a row against it turns it.
    pub open spec fn stepped(self, backward: bool) -> CoreModel {
        if backward == self.navigating_backward {
            CoreModel { opposite_steps: 0, ..self }
        } else if self.opposite_steps >= 1 {
            CoreModel { navigating_backward: backward, opposite_steps: 0, ..self }
        } else {
            CoreModel { opposite_steps: 1, ..self }
        }
    }

    /// Jumps declare their direction; steps turn the polarity on the second one in a row.
    pub open spec fn navigated(self, command: NavigationCommand) -> CoreModel {
        match command {
            NavigationCommand::First => CoreModel {
                navigating_backward: false,
                opposite_steps: 0,
                ..self
            },
            NavigationCommand::Last => CoreModel {
                navigating_backward: true,
                opposite_steps: 0,
                ..self
            },
            NavigationCommand::Next => self.stepped(false),
            NavigationCommand::Previous => self.stepped(true),
        }
    }

    /// A navigation command carried out; nothing happens where it leads nowhere or to the anchor.
    pub open spec fn moved(self, command: NavigationCommand, stat: StatModel) -> (
        CoreModel,
        Option<LoadOutcome>,
    ) {
        match self.target(command) {
            Some(target) => if self.anchored_on(target) {
                (self, None)
            } else {
                let (after, outcome) = self.navigated(command).loaded(target, stat);
                (after, Some(outcome))
            },
            None => (self, None),
        }
    }

    /// A jump to an item: the polarity stays, the run of steps ends.
    pub open spec fn jumped(self, target: Place, stat: StatModel) -> (
        CoreModel,
        Option<LoadOutcome>,
    ) {
        if self.anchored_on(target) {
            (self, None)
        } else {
            let (after, outcome) = (CoreModel { opposite_steps: 0, ..self }).loaded(target, stat);
            (after, Some(outcome))
        }
    }

    /// The listing with the weight an arrival really has.
    pub open spec fn with_arrived_weight(self, item: Place, image: ImageModel) -> CoreModel {
        let bytes = if image.pixel_bytes() == 0 {
            image.frame_byte_length()
        } else {
            image.pixel_bytes() as int
        };
        match listing::entry_position(self.entries, item) {
            Some(index) => CoreModel {
                entries: self.entries.update(
                    index as int,
                    EntryModel {
                        weight: DecodedWeight::Known(bytes as u64),
                        ..self.entries[index as int]
                    },
                ),
                ..self
            },
            None => self,
        }
    }

    /// An arrived decode: shown where the view waits on it, cached, redone where its texture is of
    /// a retired device or it was cancelled while waited on.
    #[verifier::opaque]
    pub open spec fn arrived(self, completion: CompletionModel, stat: StatModel) -> (
        CoreModel,
        Option<LoadOutcome>,
    ) {
        let item = completion.location;
        let waited = self.waits_on(item);
        let done = CoreModel {
            submitted_decodes: withdrawn(self.submitted_decodes, item),
            ..self
        };
        if completion.stage == DecodeStage::Preview {
            match completion.result {
                Ok(image) => if waited {
                    (
                        self.showing(
                            CurrentModel {
                                location: item,
                                image,
                                texture: completion.texture,
                                metadata: completion.metadata,
                            },
                        ),
                        Some(LoadOutcome::Shown),
                    )
                } else {
                    (self, None)
                },
                Err(_) => (self, None),
            }
        } else if is_retired(completion.texture, self.upload_device_generation) {
            let weighed = match completion.result {
                Ok(image) => done.with_arrived_weight(item, image),
                Err(_) => done,
            };
            if waited {
                (weighed.with_pending_decode_again(item, completion.metadata), None)
            } else {
                (weighed, None)
            }
        } else {
            match completion.result {
                Ok(image) => {
                    let preview = completion.stage == DecodeStage::PreviewFinal;
                    let weighed = if preview {
                        done
                    } else {
                        done.with_arrived_weight(item, image)
                    };
                    let kept = weighed.caching(
                        cache_entry(item, completion.metadata, preview, image, completion.texture),
                    );
                    if !waited {
                        (kept.evicted(), None)
                    } else if preview {
                        let (after, outcome) = kept.loaded(item, stat);
                        (after, Some(outcome))
                    } else {
                        let shown = kept.showing(
                            CurrentModel {
                                location: item,
                                image,
                                texture: completion.texture,
                                metadata: completion.metadata,
                            },
                        );
                        (
                            CoreModel { request: RequestModel::Idle, ..shown },
                            Some(LoadOutcome::Shown),
                        )
                    }
                },
                Err(error) => if !waited {
                    (done, None)
                } else if error.is_cancelled() {
                    (done.with_pending_decode_again(item, completion.metadata), None)
                } else {
                    (done.failing(item, error), Some(LoadOutcome::Failed))
                },
            }
        }
    }

    /// The empty window.
    pub open spec fn cleared(self) -> CoreModel {
        CoreModel {
            request: RequestModel::Idle,
            current: None,
            retired: match self.current {
                Some(previous) => self.retired.push(previous.image),
                None => self.retired,
            },
            ..self
        }
    }

    /// The listing without one item.
    pub open spec fn unlisting(self, item: Place) -> CoreModel {
        match listing::entry_position(self.entries, item) {
            Some(index) => CoreModel { entries: self.entries.remove(index as int), ..self },
            None => self,
        }
    }

    /// The target of a command, unless it is the item itself.
    pub open spec fn other_target(self, command: NavigationCommand, item: Place) -> Option<Place> {
        match self.target(command) {
            Some(target) => if target.identity() == item.identity() {
                None
            } else {
                Some(target)
            },
            None => None,
        }
    }

    /// What takes the place of a deleted item: where the preferred direction leads, else where the
    /// opposite one does, as far as that is a file.
    pub open spec fn successor(self, item: Place, preferred: NavigationCommand) -> Option<Seq<u16>> {
        let opposite = if preferred == NavigationCommand::Previous {
            NavigationCommand::Next
        } else {
            NavigationCommand::Previous
        };
        let found = match self.other_target(preferred, item) {
            Some(target) => Some(target),
            None => self.other_target(opposite, item),
        };
        match found {
            Some(Place::File(path)) => Some(path),
            _ => None,
        }
    }

    /// A deleted item gone from the listing; with nothing to take its place the view empties.
    pub open spec fn deleting(self, item: Place, preferred: NavigationCommand) -> CoreModel {
        let unlisted = self.unlisting(item);
        if self.successor(item, preferred) is None {
            unlisted.cleared()
        } else {
            unlisted
        }
    }

    /// A folder listed anew at once, under the options in force.
    pub open spec fn folder_rescanned(
        self,
        directory: Seq<u16>,
        items: Seq<crate::scan::FolderItemModel>,
    ) -> CoreModel {
        CoreModel {
            entries: carried(
                self.entries,
                listing::arranged(
                    crate::scan::folder_entries(items, self.options),
                    self.options,
                ),
            ),
            listing_scope: Some(ScopeModel::Directory(directory)),
            ..self
        }
    }

    /// The listing brought in line with the options: a folder is read again, an archive only
    /// changes its order.
    pub open spec fn listing_rescanned(
        self,
        items: Seq<crate::scan::FolderItemModel>,
    ) -> CoreModel {
        match self.listing_scope {
            Some(ScopeModel::Directory(directory)) => self.folder_rescanned(directory, items),
            Some(ScopeModel::Archive(_)) => CoreModel {
                entries: listing::arranged(self.entries, self.options),
                ..self
            },
            None => self,
        }
    }

    /// The session under other options.
    pub open spec fn with_options(
        self,
        options: CoreOptions,
        items: Seq<crate::scan::FolderItemModel>,
    ) -> CoreModel {
        let changed = CoreModel { options, ..self };
        if options == self.options {
            self
        } else if self.listing_depends_on(options) {
            changed.listing_rescanned(items).refreshed()
        } else {
            changed.refreshed()
        }
    }

    /// These options list something else, or in another order.
    pub open spec fn listing_depends_on(self, options: CoreOptions) -> bool {
        ||| options.sort_mode != self.options.sort_mode
        ||| options.sort_descending != self.options.sort_descending
        ||| options.skip_hidden != self.options.skip_hidden
        ||| options.detect_format_by_content != self.options.detect_format_by_content
    }

    /// An arrived probe recorded; the preload goes on once the last one is in.
    pub open spec fn probed(self, item: Place, cancelled: bool, weight: Option<u64>) -> CoreModel {
        let answered = CoreModel {
            submitted_probes: withdrawn(self.submitted_probes, item),
            ..self
        };
        let recorded = match listing::entry_position(self.entries, item) {
            Some(index) => if cancelled {
                answered
            } else {
                CoreModel {
                    entries: self.entries.update(
                        index as int,
                        EntryModel {
                            weight: match weight {
                                Some(bytes) => DecodedWeight::Known(bytes),
                                None => DecodedWeight::Unavailable,
                            },
                            ..self.entries[index as int]
                        },
                    ),
                    ..answered
                }
            },
            None => answered,
        };
        if recorded.submitted_probes.len() == 0 {
            recorded.refreshed()
        } else {
            recorded
        }
    }

    /// Another upload device: what an older one uploaded is let go of.
    pub open spec fn with_device(self, device: Option<UploadDevice>) -> CoreModel {
        let generation = match device {
            Some(upload_device) => Some(upload_device.generation),
            None => None,
        };
        CoreModel {
            upload_device: device,
            upload_device_generation: generation,
            cache: cache_of_generation(self.cache, generation),
            retired: self.retired + images_of_other_generations(self.cache, generation),
            current: match self.current {
                Some(current) => Some(
                    CurrentModel {
                        texture: if is_retired(current.texture, generation) {
                            None
                        } else {
                            current.texture
                        },
                        ..current
                    },
                ),
                None => None,
            },
            ..self
        }
    }

    /// What the display could be read back from: the texture of an image that holds no pixels.
    pub open spec fn only_texture(self) -> Option<UploadedTexture> {
        match self.current {
            Some(current) => if current.image.pixel_bytes() > 0 {
                None
            } else {
                current.texture
            },
            None => None,
        }
    }

    /// The display back on pixels read from its texture; nothing changes where there is nothing to
    /// read or the reading failed.
    pub open spec fn recovered(self, pixels: Option<Seq<u8>>) -> CoreModel {
        match (self.current, pixels) {
            (Some(current), Some(bytes)) => if self.only_texture() is Some {
                CoreModel {
                    current: Some(
                        CurrentModel {
                            image: current.image.with_first_pixels(bytes),
                            texture: None,
                            ..current
                        },
                    ),
                    ..self
                }
            } else {
                self
            },
            _ => self,
        }
    }

    /// A full decode waits on its timer: the view shows the item's preview and no decode runs.
    pub open spec fn awaits_full_decode(self) -> Option<CacheModel> {
        match self.request {
            RequestModel::Pending(pending) => match cached(self.cache, pending) {
                Some(entry) => if submission(self.submitted_decodes, pending) is None
                    && entry.preview {
                    Some(entry)
                } else {
                    None
                },
                None => None,
            },
            _ => None,
        }
    }

    /// The waiting full decode under way.
    pub open spec fn with_full_decode(self) -> CoreModel {
        match (self.awaits_full_decode(), self.request) {
            (Some(entry), RequestModel::Pending(pending)) => self.with_decode(
                pending,
                entry.metadata,
                JobKind::Full,
                true,
            ),
            _ => self,
        }
    }

    /// Where the menu's window is centered: the anchor's index, or the place it left.
    pub open spec fn window_center(self) -> Option<usize> {
        match self.anchor_index() {
            AnchorIndex::Listed(index) => Some(index),
            AnchorIndex::Missing(index) => Some(index),
            AnchorIndex::Unlisted => None,
        }
    }

    /// The items a cache, the decodes and the probes are about are told apart, every image held is
    /// one the machine can address, and a polarity is never more than one step from turning.
    pub open spec fn sound(self) -> bool {
        &&& images_are_addressable(self.cache)
        &&& self.current matches Some(current) ==> current.image.addressable()
        &&& cache_is_keyed(self.cache)
        &&& submissions_are_keyed(self.submitted_decodes)
        &&& submissions_are_keyed(self.submitted_probes)
        &&& self.opposite_steps <= 1
    }
}

/// Every cached image is one the machine can address.
pub open spec fn images_are_addressable(cache: Seq<CacheModel>) -> bool {
    forall|index: int|
        0 <= index < cache.len() ==> (#[trigger] cache[index]).image.addressable()
}

/// No item is cached twice.
pub open spec fn cache_is_keyed(cache: Seq<CacheModel>) -> bool {
    forall|first: int, second: int|
        0 <= first < second < cache.len() ==> (#[trigger] cache[first]).location.identity() != (
        #[trigger] cache[second]).location.identity()
}

/// No item is submitted twice.
pub open spec fn submissions_are_keyed(submissions: Seq<SubmissionModel>) -> bool {
    forall|first: int, second: int|
        0 <= first < second < submissions.len() ==> (
        #[trigger] submissions[first]).location.identity() != (
        #[trigger] submissions[second]).location.identity()
}

} // verus!
