//! What a viewing session is made of: requests, submitted work, queued jobs, cached images.

use std::sync::Arc;

use vstd::prelude::*;

use crate::image::{DecodeError, DecodedImage, ImageModel, UploadedTexture};
use crate::listing::{CoreOptions, ItemMetadata};
use crate::location::{ItemLocation, Place};
use crate::scan::ListingScope;
use crate::session_model;
use crate::session_model::{
    CacheModel, CompletionModel, CurrentModel, DecodeStage, EffectModel, JobKind, JobModel,
    MissingModel, PendingModel, RequestModel, ScanPurpose, StatModel, SubmissionModel,
};

verus! {

/// The request that owns the view: nothing, one being decoded, or one that ended in an error.
pub enum ViewRequest {
    Idle,
    Pending(ItemLocation),
    Failed(ItemLocation, DecodeError),
}

impl View for ViewRequest {
    type V = RequestModel;

    open spec fn view(&self) -> RequestModel {
        match self {
            ViewRequest::Idle => RequestModel::Idle,
            ViewRequest::Pending(location) => RequestModel::Pending(location@),
            ViewRequest::Failed(location, error) => RequestModel::Failed(location@, error@),
        }
    }
}

/// The place behind an optional item.
pub open spec fn optional_place(location: Option<&ItemLocation>) -> Option<Place> {
    match location {
        Some(found) => Some(found@),
        None => None,
    }
}

impl ViewRequest {
    /// The item the request is about; the position baseline follows it.
    pub fn location(&self) -> (location: Option<&ItemLocation>)
        ensures
            optional_place(location) == (match self@ {
                RequestModel::Idle => None,
                RequestModel::Pending(place) => Some(place),
                RequestModel::Failed(place, _) => Some(place),
            }),
    {
        match self {
            ViewRequest::Idle => None,
            ViewRequest::Pending(location) => Some(location),
            ViewRequest::Failed(location, _) => Some(location),
        }
    }

    pub fn pending(&self) -> (location: Option<&ItemLocation>)
        ensures
            optional_place(location) == (match self@ {
                RequestModel::Pending(place) => Some(place),
                _ => None,
            }),
    {
        match self {
            ViewRequest::Pending(location) => Some(location),
            _ => None,
        }
    }

    pub fn failure(&self) -> (failed: Option<(&ItemLocation, &DecodeError)>)
        ensures
            match failed {
                Some((location, error)) => self@ == RequestModel::Failed(location@, error@),
                None => !(self@ is Failed),
            },
    {
        match self {
            ViewRequest::Failed(location, error) => Some((location, error)),
            _ => None,
        }
    }
}

/// A job handed out and not yet answered; the ticket names its cancellation.
pub struct Submission {
    pub location: ItemLocation,
    pub ticket: u64,
}

impl View for Submission {
    type V = SubmissionModel;

    open spec fn view(&self) -> SubmissionModel {
        SubmissionModel { location: self.location@, ticket: self.ticket }
    }
}

pub open spec fn submission_models(submissions: Seq<Submission>) -> Seq<SubmissionModel> {
    submissions.map_values(|submission: Submission| submission@)
}

/// One unit of a worker's work.
pub struct DecodeJob {
    pub ticket: u64,
    pub location: ItemLocation,
    /// Carried from the submit stat or the listing; the worker echoes it, never stats.
    pub metadata: ItemMetadata,
    pub kind: JobKind,
    /// Preloaded on a guess, so an animation stops at its first frame.
    pub speculative: bool,
}

impl View for DecodeJob {
    type V = JobModel;

    open spec fn view(&self) -> JobModel {
        JobModel {
            ticket: self.ticket,
            location: self.location@,
            metadata: self.metadata,
            kind: self.kind,
            speculative: self.speculative,
        }
    }
}

pub open spec fn job_models(jobs: Seq<DecodeJob>) -> Seq<JobModel> {
    jobs.map_values(|job: DecodeJob| job@)
}

/// A cached decode: a preview (RAW embedded, sub-resolution, animation first frame) until the full
/// decode arrives.
pub struct CacheEntry {
    pub location: ItemLocation,
    pub metadata: ItemMetadata,
    pub preview: bool,
    pub image: Arc<DecodedImage>,
    pub texture: Option<UploadedTexture>,
}

impl View for CacheEntry {
    type V = CacheModel;

    open spec fn view(&self) -> CacheModel {
        CacheModel {
            location: self.location@,
            metadata: self.metadata,
            preview: self.preview,
            image: self.image@,
            texture: self.texture,
        }
    }
}

pub open spec fn cache_models(cache: Seq<CacheEntry>) -> Seq<CacheModel> {
    cache.map_values(|entry: CacheEntry| entry@)
}

pub open spec fn image_models(images: Seq<Arc<DecodedImage>>) -> Seq<ImageModel> {
    images.map_values(|image: Arc<DecodedImage>| image@)
}

pub open spec fn place_models(places: Seq<ItemLocation>) -> Seq<Place> {
    places.map_values(|place: ItemLocation| place@)
}

impl CacheEntry {
    /// A textured entry keeps no pixels: the texture is the only copy.
    pub fn new(
        location: ItemLocation,
        metadata: ItemMetadata,
        preview: bool,
        image: Arc<DecodedImage>,
        texture: Option<UploadedTexture>,
    ) -> (entry: Self)
        requires
            image@.addressable(),
        ensures
            entry@ == session_model::cache_entry(location@, metadata, preview, image@, texture),
            entry@.image.addressable(),
    {
        proof {
            crate::image::lemma_released_pixels_are_gone(image@);
        }
        let image = if texture.is_some() && image.pixel_bytes() > 0 {
            Arc::new(image.without_pixels())
        } else {
            image
        };
        CacheEntry { location, metadata, preview, image, texture }
    }

    /// Cached pixels stand for a file of this size and modification time, nothing else.
    pub fn matches(&self, metadata: ItemMetadata) -> (same: bool)
        ensures
            same == (self@.metadata == metadata),
    {
        self.metadata == metadata
    }
}

/// The image on screen.
pub struct CurrentImage {
    pub location: ItemLocation,
    pub image: Arc<DecodedImage>,
    pub texture: Option<UploadedTexture>,
    pub metadata: ItemMetadata,
}

impl View for CurrentImage {
    type V = CurrentModel;

    open spec fn view(&self) -> CurrentModel {
        CurrentModel {
            location: self.location@,
            image: self.image@,
            texture: self.texture,
            metadata: self.metadata,
        }
    }
}

/// A scan request: the scope it awaits, and what its arrival is for.
pub struct PendingScan {
    pub scope: ListingScope,
    pub purpose: ScanPurpose,
}

impl View for PendingScan {
    type V = PendingModel;

    open spec fn view(&self) -> PendingModel {
        PendingModel { scope: self.scope@, purpose: self.purpose }
    }
}

/// The place a dropped anchor held, named by the entry beside it so re-sorts carry it.
pub enum MissingAnchor {
    Front,
    After(ItemLocation),
}

impl View for MissingAnchor {
    type V = MissingModel;

    open spec fn view(&self) -> MissingModel {
        match self {
            MissingAnchor::Front => MissingModel::Front,
            MissingAnchor::After(location) => MissingModel::After(location@),
        }
    }
}

/// What the session asks of the world.
pub enum CoreEffect {
    /// Enumerate this scope in the background, under these options.
    Scan { scope: ListingScope, options: CoreOptions },
    /// Raise or revoke the cancellation of a job.
    Cancel { ticket: u64, cancelled: bool },
}

impl View for CoreEffect {
    type V = EffectModel;

    open spec fn view(&self) -> EffectModel {
        match self {
            CoreEffect::Scan { scope, options } => EffectModel::Scan(scope@, *options),
            CoreEffect::Cancel { ticket, cancelled } => EffectModel::Cancel {
                ticket: *ticket,
                cancelled: *cancelled,
            },
        }
    }
}

pub open spec fn effect_models(effects: Seq<CoreEffect>) -> Seq<EffectModel> {
    effects.map_values(|effect: CoreEffect| effect@)
}

/// What the file system answered about a file: its facts, or the error's code and text.
pub enum FileStat {
    Found(ItemMetadata),
    Failed { code: i32, message: String },
}

impl View for FileStat {
    type V = StatModel;

    open spec fn view(&self) -> StatModel {
        match self {
            FileStat::Found(metadata) => StatModel::Found(*metadata),
            FileStat::Failed { code, message } => StatModel::Failed(*code, message@),
        }
    }
}

/// An arrived decode.
pub struct DecodeCompletion {
    pub location: ItemLocation,
    /// Echoed from the submit stat or the listing, never read again by the worker.
    pub metadata: ItemMetadata,
    pub stage: DecodeStage,
    pub result: Result<Arc<DecodedImage>, DecodeError>,
    /// Worker-side upload for still frames; None falls back to the upload beside the window.
    pub texture: Option<UploadedTexture>,
}

impl View for DecodeCompletion {
    type V = CompletionModel;

    open spec fn view(&self) -> CompletionModel {
        CompletionModel {
            location: self.location@,
            metadata: self.metadata,
            stage: self.stage,
            result: match self.result {
                Ok(image) => Ok(image@),
                Err(error) => Err(error@),
            },
            texture: self.texture,
        }
    }
}

/// A finished weight probe; a cancelled one records nothing.
pub struct ProbeCompletion {
    pub location: ItemLocation,
    pub cancelled: bool,
    pub weight: Option<u64>,
}

/// Bytes received so far for a downloading URL item; 0 means connecting.
pub struct DownloadProgress {
    pub location: ItemLocation,
    pub received_bytes: u64,
}

/// The part of the listing a menu shows.
pub struct PlaylistWindow {
    /// What the menu shows and acts on; each label derives from its location.
    pub locations: Vec<ItemLocation>,
    /// Absolute index of the first shown entry; doubles as the count hidden before it.
    pub first_index: usize,
    pub current_slot: Option<usize>,
    pub hidden_after: usize,
}

/// One of the places names the item.
pub fn holds_item(places: &Vec<ItemLocation>, item: &ItemLocation) -> (held: bool)
    ensures
        held == session_model::names_item(place_models(places@), item@),
{
    let ghost models = place_models(places@);
    let mut index: usize = 0;
    while index < places.len()
        invariant
            models == place_models(places@),
            index <= places.len(),
            forall|earlier: int|
                0 <= earlier < index ==> (#[trigger] models[earlier]).identity()
                    != item@.identity(),
        decreases places.len() - index,
    {
        assert(models[index as int] == places@[index as int]@);
        if places[index].same_item(item) {
            return true;
        }
        index += 1;
    }
    false
}

/// Where the cache holds an item.
pub fn cache_slot(cache: &Vec<CacheEntry>, item: &ItemLocation) -> (slot: Option<usize>)
    ensures
        slot == session_model::cache_position(cache_models(cache@), item@),
        slot matches Some(index) ==> index < cache@.len(),
{
    let ghost models = cache_models(cache@);
    let mut index: usize = 0;
    while index < cache.len()
        invariant
            models == cache_models(cache@),
            index <= cache.len(),
            session_model::cache_position(models, item@) == session_model::cache_position_from(
                models,
                item@.identity(),
                index as int,
            ),
        decreases cache.len() - index,
    {
        if cache[index].location.same_item(item) {
            return Some(index);
        }
        index += 1;
    }
    None
}

/// Where the submissions hold an item.
pub fn submission_slot(submissions: &Vec<Submission>, item: &ItemLocation) -> (slot: Option<usize>)
    ensures
        slot == session_model::submission(submission_models(submissions@), item@),
        slot matches Some(index) ==> index < submissions@.len(),
{
    let ghost models = submission_models(submissions@);
    let mut index: usize = 0;
    while index < submissions.len()
        invariant
            models == submission_models(submissions@),
            index <= submissions.len(),
            session_model::submission(models, item@) == session_model::submission_from(
                models,
                item@.identity(),
                index as int,
            ),
        decreases submissions.len() - index,
    {
        if submissions[index].location.same_item(item) {
            return Some(index);
        }
        index += 1;
    }
    None
}

proof fn lemma_submission_absent(submissions: Seq<SubmissionModel>, identity: Place, from: int)
    requires
        0 <= from,
        submissions.len() <= usize::MAX,
    ensures
        match session_model::submission_from(submissions, identity, from) {
            Some(index) => from <= index < submissions.len()
                && submissions[index as int].location.identity() == identity,
            None => forall|index: int|
                from <= index < submissions.len() ==> (
                #[trigger] submissions[index]).location.identity() != identity,
        },
    decreases submissions.len() - from,
{
    if from < submissions.len() && submissions[from].location.identity() != identity {
        lemma_submission_absent(submissions, identity, from + 1);
    }
}

proof fn lemma_cache_absent(cache: Seq<CacheModel>, identity: Place, from: int)
    requires
        0 <= from,
        cache.len() <= usize::MAX,
    ensures
        match session_model::cache_position_from(cache, identity, from) {
            Some(index) => from <= index < cache.len() && cache[index as int].location.identity()
                == identity,
            None => forall|index: int|
                from <= index < cache.len() ==> (#[trigger] cache[index]).location.identity()
                    != identity,
        },
    decreases cache.len() - from,
{
    if from < cache.len() && cache[from].location.identity() != identity {
        lemma_cache_absent(cache, identity, from + 1);
    }
}

/// Registers a submission; an item submitted again takes the new ticket.
pub fn register(submissions: &mut Vec<Submission>, item: &ItemLocation, ticket: u64)
    ensures
        submission_models(final(submissions)@) == session_model::resubmitted(
            submission_models(old(submissions)@),
            item@,
            ticket,
        ),
        session_model::submissions_are_keyed(submission_models(old(submissions)@))
            ==> session_model::submissions_are_keyed(submission_models(final(submissions)@)),
{
    let ghost before = submission_models(submissions@);
    proof {
        assert(before.len() == submissions.len());
        lemma_submission_absent(before, item@.identity(), 0);
    }
    match submission_slot(submissions, item) {
        Some(index) => {
            submissions[index].ticket = ticket;
            assert(submission_models(submissions@) =~= session_model::resubmitted(
                before,
                item@,
                ticket,
            ));
        },
        None => {
            submissions.push(Submission { location: item.clone(), ticket });
            assert(submission_models(submissions@) =~= session_model::resubmitted(
                before,
                item@,
                ticket,
            ));
        },
    }
}

/// Strikes a submission.
pub fn withdraw(submissions: &mut Vec<Submission>, item: &ItemLocation)
    ensures
        submission_models(final(submissions)@) == session_model::withdrawn(
            submission_models(old(submissions)@),
            item@,
        ),
        session_model::submissions_are_keyed(submission_models(old(submissions)@))
            ==> session_model::submissions_are_keyed(submission_models(final(submissions)@)),
{
    let ghost before = submission_models(submissions@);
    if let Some(index) = submission_slot(submissions, item) {
        submissions.remove(index);
        assert(submission_models(submissions@) =~= before.remove(index as int));
    }
}

/// Strikes every submission for one of the places.
pub fn withdraw_all(submissions: &mut Vec<Submission>, places: &Vec<ItemLocation>)
    ensures
        submission_models(final(submissions)@) == session_model::submissions_besides(
            submission_models(old(submissions)@),
            place_models(places@),
        ),
        session_model::submissions_are_keyed(submission_models(old(submissions)@))
            ==> session_model::submissions_are_keyed(submission_models(final(submissions)@)),
{
    let ghost before = submission_models(submissions@);
    let ghost named = place_models(places@);
    let ghost mut seen: int = 0;
    let mut index: usize = 0;
    assert(before.take(0) =~= Seq::<SubmissionModel>::empty());
    assert(submission_models(submissions@) =~= before.take(0) + before.skip(0));
    while index < submissions.len()
        invariant
            named == place_models(places@),
            0 <= seen <= before.len(),
            index <= submissions.len(),
            session_model::submissions_besides(before.take(seen), named).len() == index,
            submission_models(submissions@) == session_model::submissions_besides(
                before.take(seen),
                named,
            ) + before.skip(seen),
            session_model::submissions_are_keyed(before) ==> session_model::submissions_are_keyed(
                submission_models(submissions@),
            ),
        decreases submissions.len() - index,
    {
        let ghost current = submission_models(submissions@);
        let ghost kept = session_model::submissions_besides(before.take(seen), named);
        assert(current[index as int] == before.skip(seen)[0]);
        assert(before.take(seen + 1).drop_last() =~= before.take(seen));
        if holds_item(places, &submissions[index].location) {
            submissions.remove(index);
            assert(submission_models(submissions@) =~= current.remove(index as int));
            assert(current.remove(index as int) =~= kept + before.skip(seen + 1));
        } else {
            index += 1;
            assert(current =~= kept.push(before[seen]) + before.skip(seen + 1));
        }
        proof {
            seen = seen + 1;
        }
    }
    assert(before.skip(seen).len() == 0);
    assert(before.take(seen) =~= before);
    assert(submission_models(submissions@) =~= session_model::submissions_besides(before, named));
}

/// Cancels every submission outside the targets.
pub fn cancel_outside(
    submissions: &Vec<Submission>,
    targets: &Vec<ItemLocation>,
    effects: &mut Vec<CoreEffect>,
)
    ensures
        effect_models(final(effects)@) == effect_models(old(effects)@)
            + session_model::cancellations(submission_models(submissions@), place_models(targets@)),
{
    let ghost models = submission_models(submissions@);
    let ghost wanted = place_models(targets@);
    let ghost before = effect_models(effects@);
    let mut index: usize = 0;
    assert(effect_models(effects@) =~= before + session_model::cancellations(models.take(0), wanted));
    while index < submissions.len()
        invariant
            models == submission_models(submissions@),
            wanted == place_models(targets@),
            index <= submissions.len(),
            effect_models(effects@) == before + session_model::cancellations(
                models.take(index as int),
                wanted,
            ),
        decreases submissions.len() - index,
    {
        let ghost current = effect_models(effects@);
        assert(models.take(index + 1).drop_last() =~= models.take(index as int));
        assert(models[index as int] == submissions@[index as int]@);
        if !holds_item(targets, &submissions[index].location) {
            let effect = CoreEffect::Cancel {
                ticket: submissions[index].ticket,
                cancelled: true,
            };
            effects.push(effect);
            assert(effect_models(effects@) =~= current.push(effect@));
            assert(effect_models(effects@) =~= before + session_model::cancellations(
                models.take(index + 1),
                wanted,
            ));
        }
        index += 1;
    }
    assert(models.take(index as int) =~= models);
}

/// Moves the queued decode an item waits on to the head; a job a worker already took keeps what it
/// is.
pub fn promote(queue: &mut Vec<DecodeJob>, item: &ItemLocation)
    ensures
        job_models(final(queue)@) == session_model::promoted(job_models(old(queue)@), item@),
{
    let ghost models = job_models(queue@);
    let mut index: usize = 0;
    while index < queue.len()
        invariant
            models == job_models(queue@),
            index <= queue.len(),
            session_model::decode_job_from(models, item@.identity(), 0)
                == session_model::decode_job_from(models, item@.identity(), index as int),
            queue@ == old(queue)@,
        decreases queue.len() - index,
    {
        assert(models[index as int] == queue@[index as int]@);
        if queue[index].kind != JobKind::Probe && queue[index].location.same_item(item) {
            let mut job = queue.remove(index);
            assert(job_models(queue@) =~= models.remove(index as int));
            job.speculative = false;
            queue.insert(0, job);
            assert(job_models(queue@) =~= seq![job@] + models.remove(index as int));
            return ;
        }
        index += 1;
    }
}

/// Drops the queued jobs outside the targets and names their items; running jobs are unaffected.
pub fn remove_queued_except(queue: &mut Vec<DecodeJob>, targets: &Vec<ItemLocation>) -> (removed:
    Vec<ItemLocation>)
    ensures
        job_models(final(queue)@) == session_model::jobs_inside(
            job_models(old(queue)@),
            place_models(targets@),
        ),
        place_models(removed@) == session_model::items_outside(
            job_models(old(queue)@),
            place_models(targets@),
        ),
{
    let ghost before = job_models(queue@);
    let ghost wanted = place_models(targets@);
    let ghost mut seen: int = 0;
    let mut removed: Vec<ItemLocation> = Vec::new();
    let mut index: usize = 0;
    assert(before.take(0) =~= Seq::<JobModel>::empty());
    assert(job_models(queue@) =~= before.take(0) + before.skip(0));
    assert(place_models(removed@) =~= Seq::<Place>::empty());
    while index < queue.len()
        invariant
            wanted == place_models(targets@),
            0 <= seen <= before.len(),
            index <= queue.len(),
            session_model::jobs_inside(before.take(seen), wanted).len() == index,
            job_models(queue@) == session_model::jobs_inside(before.take(seen), wanted)
                + before.skip(seen),
            place_models(removed@) == session_model::items_outside(before.take(seen), wanted),
        decreases queue.len() - index,
    {
        let ghost current = job_models(queue@);
        let ghost kept = session_model::jobs_inside(before.take(seen), wanted);
        let ghost gone = place_models(removed@);
        assert(current[index as int] == before.skip(seen)[0]);
        assert(before.take(seen + 1).drop_last() =~= before.take(seen));
        if holds_item(targets, &queue[index].location) {
            index += 1;
            assert(current =~= kept.push(before[seen]) + before.skip(seen + 1));
        } else {
            let job = queue.remove(index);
            assert(job_models(queue@) =~= current.remove(index as int));
            assert(current.remove(index as int) =~= kept + before.skip(seen + 1));
            let ghost place = job.location@;
            removed.push(job.location);
            assert(place_models(removed@) =~= gone.push(place));
        }
        proof {
            seen = seen + 1;
        }
    }
    assert(before.skip(seen).len() == 0);
    assert(before.take(seen) =~= before);
    assert(job_models(queue@) =~= session_model::jobs_inside(before, wanted));
    removed
}

/// Drops what left the targets from the cache.
pub fn keep_cached_inside(
    cache: &mut Vec<CacheEntry>,
    targets: &Vec<ItemLocation>,
    retired: &mut Vec<Arc<DecodedImage>>,
)
    ensures
        cache_models(final(cache)@) == session_model::cache_inside(
            cache_models(old(cache)@),
            place_models(targets@),
        ),
        image_models(final(retired)@) == image_models(old(retired)@)
            + session_model::images_outside(cache_models(old(cache)@), place_models(targets@)),
        session_model::cache_is_keyed(cache_models(old(cache)@)) ==> session_model::cache_is_keyed(
            cache_models(final(cache)@),
        ),
        session_model::images_are_addressable(cache_models(old(cache)@)) ==> session_model::images_are_addressable(
            cache_models(final(cache)@),
        ),
{
    let ghost before = cache_models(cache@);
    let ghost wanted = place_models(targets@);
    let ghost let_go = image_models(retired@);
    let ghost mut seen: int = 0;
    let mut index: usize = 0;
    assert(before.take(0) =~= Seq::<CacheModel>::empty());
    assert(cache_models(cache@) =~= before.take(0) + before.skip(0));
    assert(image_models(retired@) =~= let_go + session_model::images_outside(before.take(0), wanted));
    while index < cache.len()
        invariant
            wanted == place_models(targets@),
            0 <= seen <= before.len(),
            index <= cache.len(),
            session_model::cache_inside(before.take(seen), wanted).len() == index,
            cache_models(cache@) == session_model::cache_inside(before.take(seen), wanted)
                + before.skip(seen),
            image_models(retired@) == let_go + session_model::images_outside(
                before.take(seen),
                wanted,
            ),
            session_model::cache_is_keyed(before) ==> session_model::cache_is_keyed(
                cache_models(cache@),
            ),
            session_model::images_are_addressable(before) ==> session_model::images_are_addressable(cache_models(cache@)),
        decreases cache.len() - index,
    {
        let ghost current = cache_models(cache@);
        let ghost kept = session_model::cache_inside(before.take(seen), wanted);
        let ghost gone = image_models(retired@);
        assert(current[index as int] == before.skip(seen)[0]);
        assert(before.take(seen + 1).drop_last() =~= before.take(seen));
        if holds_item(targets, &cache[index].location) {
            index += 1;
            assert(current =~= kept.push(before[seen]) + before.skip(seen + 1));
        } else {
            let entry = cache.remove(index);
            assert(cache_models(cache@) =~= current.remove(index as int));
            assert(current.remove(index as int) =~= kept + before.skip(seen + 1));
            let ghost image = entry.image@;
            retired.push(entry.image);
            assert(image_models(retired@) =~= gone.push(image));
            assert(image_models(retired@) =~= let_go + session_model::images_outside(
                before.take(seen + 1),
                wanted,
            ));
        }
        proof {
            seen = seen + 1;
        }
    }
    assert(before.skip(seen).len() == 0);
    assert(before.take(seen) =~= before);
    assert(cache_models(cache@) =~= session_model::cache_inside(before, wanted));
}

/// A texture of another device generation.
pub fn is_retired(texture: Option<UploadedTexture>, generation: Option<u64>) -> (retired: bool)
    ensures
        retired == session_model::is_retired(texture, generation),
{
    match (texture, generation) {
        (Some(uploaded), Some(current)) => uploaded.generation != current,
        (Some(_), None) => true,
        (None, _) => false,
    }
}

/// Drops what another device uploaded from the cache.
pub fn keep_cached_generation(
    cache: &mut Vec<CacheEntry>,
    generation: Option<u64>,
    retired: &mut Vec<Arc<DecodedImage>>,
)
    ensures
        cache_models(final(cache)@) == session_model::cache_of_generation(
            cache_models(old(cache)@),
            generation,
        ),
        image_models(final(retired)@) == image_models(old(retired)@)
            + session_model::images_of_other_generations(cache_models(old(cache)@), generation),
        session_model::cache_is_keyed(cache_models(old(cache)@)) ==> session_model::cache_is_keyed(
            cache_models(final(cache)@),
        ),
        session_model::images_are_addressable(cache_models(old(cache)@)) ==> session_model::images_are_addressable(
            cache_models(final(cache)@),
        ),
{
    let ghost before = cache_models(cache@);
    let ghost let_go = image_models(retired@);
    let ghost mut seen: int = 0;
    let mut index: usize = 0;
    assert(before.take(0) =~= Seq::<CacheModel>::empty());
    assert(cache_models(cache@) =~= before.take(0) + before.skip(0));
    assert(image_models(retired@) =~= let_go + session_model::images_of_other_generations(
        before.take(0),
        generation,
    ));
    while index < cache.len()
        invariant
            0 <= seen <= before.len(),
            index <= cache.len(),
            session_model::cache_of_generation(before.take(seen), generation).len() == index,
            cache_models(cache@) == session_model::cache_of_generation(
                before.take(seen),
                generation,
            ) + before.skip(seen),
            image_models(retired@) == let_go + session_model::images_of_other_generations(
                before.take(seen),
                generation,
            ),
            session_model::cache_is_keyed(before) ==> session_model::cache_is_keyed(
                cache_models(cache@),
            ),
            session_model::images_are_addressable(before) ==> session_model::images_are_addressable(cache_models(cache@)),
        decreases cache.len() - index,
    {
        let ghost current = cache_models(cache@);
        let ghost kept = session_model::cache_of_generation(before.take(seen), generation);
        let ghost gone = image_models(retired@);
        assert(current[index as int] == before.skip(seen)[0]);
        assert(before.take(seen + 1).drop_last() =~= before.take(seen));
        if is_retired(cache[index].texture, generation) {
            let entry = cache.remove(index);
            assert(cache_models(cache@) =~= current.remove(index as int));
            assert(current.remove(index as int) =~= kept + before.skip(seen + 1));
            let ghost image = entry.image@;
            retired.push(entry.image);
            assert(image_models(retired@) =~= gone.push(image));
            assert(image_models(retired@) =~= let_go + session_model::images_of_other_generations(
                before.take(seen + 1),
                generation,
            ));
        } else {
            index += 1;
            assert(current =~= kept.push(before[seen]) + before.skip(seen + 1));
        }
        proof {
            seen = seen + 1;
        }
    }
    assert(before.skip(seen).len() == 0);
    assert(before.take(seen) =~= before);
    assert(cache_models(cache@) =~= session_model::cache_of_generation(before, generation));
}

/// Empties the cache.
pub fn drain_cache(cache: &mut Vec<CacheEntry>, retired: &mut Vec<Arc<DecodedImage>>)
    ensures
        final(cache)@.len() == 0,
        image_models(final(retired)@) == image_models(old(retired)@) + session_model::cache_images(
            cache_models(old(cache)@),
        ),
{
    let ghost before = cache_models(cache@);
    let ghost images = session_model::cache_images(before);
    let ghost let_go = image_models(retired@);
    let ghost mut seen: int = 0;
    assert(cache_models(cache@) =~= before.skip(0));
    assert(image_models(retired@) =~= let_go + images.take(0));
    while cache.len() > 0
        invariant
            images == session_model::cache_images(before),
            0 <= seen <= before.len(),
            cache_models(cache@) == before.skip(seen),
            image_models(retired@) == let_go + images.take(seen),
        decreases cache.len(),
    {
        let ghost current = cache_models(cache@);
        let ghost gone = image_models(retired@);
        assert(current.len() == cache@.len());
        let entry = cache.remove(0);
        let ghost image = entry.image@;
        assert(current.len() > 0);
        assert(current[0] == before.skip(seen)[0]);
        retired.push(entry.image);
        assert(cache_models(cache@) =~= current.remove(0));
        assert(current.remove(0) =~= before.skip(seen + 1));
        assert(image_models(retired@) =~= gone.push(image));
        assert(image_models(retired@) =~= let_go + images.take(seen + 1));
        proof {
            seen = seen + 1;
        }
    }
    assert(cache_models(cache@).len() == 0);
    assert(images.take(seen) =~= images);
}

/// Caches an entry; the image it replaces is let go of.
pub fn store_cached(
    cache: &mut Vec<CacheEntry>,
    entry: CacheEntry,
    retired: &mut Vec<Arc<DecodedImage>>,
)
    ensures
        match session_model::cache_position(cache_models(old(cache)@), entry@.location) {
            Some(index) => index < old(cache)@.len() && cache_models(final(cache)@) == cache_models(
                old(cache)@,
            ).update(
                index as int,
                CacheModel {
                    location: cache_models(old(cache)@)[index as int].location,
                    ..entry@
                },
            ) && image_models(final(retired)@) == image_models(old(retired)@).push(
                cache_models(old(cache)@)[index as int].image,
            ),
            None => cache_models(final(cache)@) == cache_models(old(cache)@).push(entry@)
                && final(retired)@ == old(retired)@,
        },
        session_model::cache_is_keyed(cache_models(old(cache)@)) ==> session_model::cache_is_keyed(
            cache_models(final(cache)@),
        ),
        session_model::images_are_addressable(cache_models(old(cache)@)) && entry@.image.addressable()
            ==> session_model::images_are_addressable(cache_models(final(cache)@)),
{
    let ghost before = cache_models(cache@);
    let ghost gone = image_models(retired@);
    proof {
        assert(before.len() == cache.len());
        lemma_cache_absent(before, entry@.location.identity(), 0);
    }
    match cache_slot(cache, &entry.location) {
        Some(index) => {
            let previous = cache.remove(index);
            let ghost image = previous.image@;
            let ghost stored = CacheModel { location: previous.location@, ..entry@ };
            cache.insert(
                index,
                CacheEntry {
                    location: previous.location,
                    metadata: entry.metadata,
                    preview: entry.preview,
                    image: entry.image,
                    texture: entry.texture,
                },
            );
            retired.push(previous.image);
            assert(cache_models(cache@) =~= before.update(index as int, stored));
            assert(image_models(retired@) =~= gone.push(image));
        },
        None => {
            cache.push(entry);
            assert(cache_models(cache@) =~= before.push(entry@));
        },
    }
}

/// Drops an item from the cache.
pub fn forget_cached(
    cache: &mut Vec<CacheEntry>,
    item: &ItemLocation,
    retired: &mut Vec<Arc<DecodedImage>>,
)
    ensures
        match session_model::cache_position(cache_models(old(cache)@), item@) {
            Some(index) => index < old(cache)@.len() && cache_models(final(cache)@) == cache_models(
                old(cache)@,
            ).remove(index as int) && image_models(final(retired)@) == image_models(
                old(retired)@,
            ).push(cache_models(old(cache)@)[index as int].image),
            None => final(cache)@ == old(cache)@ && final(retired)@ == old(retired)@,
        },
        session_model::cache_is_keyed(cache_models(old(cache)@)) ==> session_model::cache_is_keyed(
            cache_models(final(cache)@),
        ),
        session_model::images_are_addressable(cache_models(old(cache)@)) ==> session_model::images_are_addressable(
            cache_models(final(cache)@),
        ),
{
    let ghost before = cache_models(cache@);
    let ghost gone = image_models(retired@);
    if let Some(index) = cache_slot(cache, item) {
        let entry = cache.remove(index);
        let ghost image = entry.image@;
        retired.push(entry.image);
        assert(cache_models(cache@) =~= before.remove(index as int));
        assert(image_models(retired@) =~= gone.push(image));
    }
}

} // verus!
