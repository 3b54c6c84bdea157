//! What a decode worker does with a job: which reads and decodes it runs, in what order, and what it
//! posts back.

use std::sync::Arc;

use vstd::prelude::*;

use crate::archive;
use crate::archive::{decode_error_from_archive, ArchiveError, ArchiveErrorModel};
use crate::image;
use crate::image::{
    url_decode_error, DecodeError, DecodedImage, ErrorModel, ImageModel, UploadedTexture,
};
use crate::listing::ItemMetadata;
use crate::location::{ItemLocation, Place};
use crate::session_model::{CompletionModel, DecodeStage, JobKind, JobModel};
use crate::session_parts::{DecodeCompletion, DecodeJob, ProbeCompletion};

verus! {

/// The outside work a job asks for next.
#[derive(Clone, Copy, PartialEq, Eq, Structural, Debug)]
pub enum WorkStep {
    /// Weigh the item by its header.
    Probe,
    /// Look for a preview that stands in for the full decode.
    Preview,
    /// Look for an animation's first frame.
    FirstFrame,
    /// Decode the file.
    DecodeFile,
    /// Extract the archive member and decode it.
    DecodeMember,
    /// Download and decode.
    DecodeUrl,
    /// The job is done; what it posts has been posted.
    Done,
}

/// Where a job starts.
pub open spec fn first_work(job: JobModel) -> WorkStep {
    if job.kind == JobKind::Probe {
        WorkStep::Probe
    } else {
        match job.location {
            Place::File(_) => if job.kind != JobKind::Full {
                WorkStep::Preview
            } else if job.speculative {
                WorkStep::FirstFrame
            } else {
                WorkStep::DecodeFile
            },
            Place::ArchiveMember { .. } => WorkStep::DecodeMember,
            Place::Url(_) => WorkStep::DecodeUrl,
        }
    }
}

pub fn first_step(job: &DecodeJob) -> (step: WorkStep)
    ensures
        step == first_work(job@),
{
    if job.kind == JobKind::Probe {
        return WorkStep::Probe;
    }
    match &job.location {
        ItemLocation::File(_) => {
            if job.kind != JobKind::Full {
                WorkStep::Preview
            } else if job.speculative {
                WorkStep::FirstFrame
            } else {
                WorkStep::DecodeFile
            }
        },
        ItemLocation::ArchiveMember { .. } => WorkStep::DecodeMember,
        ItemLocation::Url(_) => WorkStep::DecodeUrl,
    }
}

/// What a found preview posts.
pub open spec fn posted_preview(job: JobModel, image: ImageModel, last: bool) -> CompletionModel {
    CompletionModel {
        location: job.location,
        metadata: job.metadata,
        stage: if last {
            DecodeStage::PreviewFinal
        } else {
            DecodeStage::Preview
        },
        result: Ok(image),
        texture: None,
    }
}

/// What a worker posts and does next.
pub struct WorkOutcome {
    pub posted: Option<DecodeCompletion>,
    pub next: WorkStep,
}

#[verifier::ext_equal]
pub struct OutcomeModel {
    pub posted: Option<CompletionModel>,
    pub next: WorkStep,
}

impl View for WorkOutcome {
    type V = OutcomeModel;

    open spec fn view(&self) -> OutcomeModel {
        OutcomeModel {
            posted: match self.posted {
                Some(completion) => Some(completion@),
                None => None,
            },
            next: self.next,
        }
    }
}

fn preview_completion(job: &DecodeJob, preview: DecodedImage, last: bool) -> (completion:
    DecodeCompletion)
    ensures
        completion@ == posted_preview(job@, preview@, last),
{
    DecodeCompletion {
        location: job.location.clone(),
        metadata: job.metadata,
        stage: if last {
            DecodeStage::PreviewFinal
        } else {
            DecodeStage::Preview
        },
        result: Ok(Arc::new(preview)),
        texture: None,
    }
}

/// Past the search for a preview: one that is found ends the job, since the full decode is submitted
/// separately.
pub open spec fn past_preview(job: JobModel, preview: Option<ImageModel>) -> OutcomeModel {
    match preview {
        Some(image) => OutcomeModel {
            posted: Some(posted_preview(job, image, true)),
            next: WorkStep::Done,
        },
        None => OutcomeModel { posted: None, next: WorkStep::FirstFrame },
    }
}

pub open spec fn optional_image(found: Option<DecodedImage>) -> Option<ImageModel> {
    match found {
        Some(image) => Some(image@),
        None => None,
    }
}

pub fn after_preview(job: &DecodeJob, preview: Option<DecodedImage>) -> (outcome: WorkOutcome)
    ensures
        outcome@ == past_preview(job@, optional_image(preview)),
{
    match preview {
        Some(image) => WorkOutcome {
            posted: Some(preview_completion(job, image, true)),
            next: WorkStep::Done,
        },
        None => WorkOutcome { posted: None, next: WorkStep::FirstFrame },
    }
}

/// Past the search for a first frame: an animation opens on it, and a guess stops there.
pub open spec fn past_first_frame(job: JobModel, first_frame: Option<ImageModel>) -> OutcomeModel {
    match first_frame {
        Some(image) => OutcomeModel {
            posted: Some(posted_preview(job, image, job.speculative)),
            next: if job.speculative {
                WorkStep::Done
            } else {
                WorkStep::DecodeFile
            },
        },
        None => OutcomeModel { posted: None, next: WorkStep::DecodeFile },
    }
}

pub fn after_first_frame(job: &DecodeJob, first_frame: Option<DecodedImage>) -> (outcome: WorkOutcome)
    ensures
        outcome@ == past_first_frame(job@, optional_image(first_frame)),
{
    match first_frame {
        Some(image) => WorkOutcome {
            posted: Some(preview_completion(job, image, job.speculative)),
            next: if job.speculative {
                WorkStep::Done
            } else {
                WorkStep::DecodeFile
            },
        },
        None => WorkOutcome { posted: None, next: WorkStep::DecodeFile },
    }
}

/// Why a download failed.
pub struct NetworkError {
    pub message: String,
    pub code: i32,
    pub cancelled: bool,
}

/// The decode error a network error turns into: a cancellation stays one.
pub open spec fn network_decode_error(error: NetworkError) -> ErrorModel {
    if error.cancelled {
        image::cancelled_error()
    } else {
        ErrorModel {
            code: error.code,
            message: error.message@,
            store_codec_names: Seq::empty(),
        }
    }
}

pub fn decode_error_from_network(error: NetworkError) -> (reported: DecodeError)
    ensures
        reported@ == network_decode_error(error),
{
    if error.cancelled {
        DecodeError::cancelled()
    } else {
        let reported = DecodeError {
            code: error.code,
            message: error.message,
            store_codec_names: Vec::new(),
        };
        assert(reported@ =~= network_decode_error(error));
        reported
    }
}

/// What the bytes of a member decoded to, or why there are none.
pub open spec fn member_outcome(
    read: Result<Result<ImageModel, ErrorModel>, ArchiveErrorModel>,
) -> Result<ImageModel, ErrorModel> {
    match read {
        Ok(decoded) => decoded,
        Err(error) => Err(archive::archive_decode_error(error)),
    }
}

pub open spec fn decode_model(result: Result<DecodedImage, DecodeError>) -> Result<
    ImageModel,
    ErrorModel,
> {
    match result {
        Ok(decoded) => Ok(decoded@),
        Err(error) => Err(error@),
    }
}

pub fn member_result(read: Result<Result<DecodedImage, DecodeError>, ArchiveError>) -> (result:
    Result<DecodedImage, DecodeError>)
    ensures
        decode_model(result) == member_outcome(
            match read {
                Ok(decoded) => Ok(decode_model(decoded)),
                Err(error) => Err(error@),
            },
        ),
{
    match read {
        Ok(decoded) => decoded,
        Err(error) => Err(decode_error_from_archive(error)),
    }
}

/// What a download decoded to, or why it failed; bytes that are no image get a plain message.
pub fn url_result(read: Result<Result<DecodedImage, DecodeError>, NetworkError>) -> (result: Result<
    DecodedImage,
    DecodeError,
>)
    ensures
        decode_model(result) == (match read {
            Ok(Ok(decoded)) => Ok(decoded@),
            Ok(Err(error)) => Err(image::url_error(error@)),
            Err(error) => Err(network_decode_error(error)),
        }),
{
    match read {
        Ok(Ok(decoded)) => Ok(decoded),
        Ok(Err(error)) => Err(url_decode_error(error)),
        Err(error) => Err(decode_error_from_network(error)),
    }
}

/// The facts of a downloaded item: the remote size becomes known with the bytes.
pub fn downloaded_metadata(metadata: ItemMetadata, received_bytes: u64) -> (known: ItemMetadata)
    ensures
        known == (ItemMetadata { file_size: received_bytes, ..metadata }),
{
    ItemMetadata { file_size: received_bytes, modified: metadata.modified }
}

/// What a finished decode posts: where a texture holds the pixels, the image keeps none.
pub open spec fn final_post(
    location: Place,
    metadata: ItemMetadata,
    result: Result<ImageModel, ErrorModel>,
    texture: Option<UploadedTexture>,
) -> CompletionModel {
    CompletionModel {
        location,
        metadata,
        stage: DecodeStage::Final,
        result: match result {
            Ok(decoded) => Ok(
                if texture is Some {
                    decoded.without_pixels()
                } else {
                    decoded
                },
            ),
            Err(error) => Err(error),
        },
        texture,
    }
}

pub fn final_completion(
    location: ItemLocation,
    metadata: ItemMetadata,
    result: Result<DecodedImage, DecodeError>,
    texture: Option<UploadedTexture>,
) -> (completion: DecodeCompletion)
    ensures
        completion@ == final_post(location@, metadata, decode_model(result), texture),
{
    let posted = match result {
        Ok(decoded) => {
            if texture.is_some() {
                Ok(Arc::new(decoded.without_pixels()))
            } else {
                Ok(Arc::new(decoded))
            }
        },
        Err(error) => Err(error),
    };
    DecodeCompletion { location, metadata, stage: DecodeStage::Final, result: posted, texture }
}

/// What a probe reads.
#[derive(Clone, Copy, PartialEq, Eq, Structural, Debug)]
pub enum ProbeStep {
    /// Nothing: report this at once.
    Report { cancelled: bool },
    /// The file's header.
    ReadFile,
    /// The whole member; only the pixel work is saved.
    ReadMember,
}

/// A probe that was cancelled before it began reads nothing; URLs are never listed, never probed.
pub fn probe_step(job: &DecodeJob, cancelled: bool) -> (step: ProbeStep)
    ensures
        step == (if cancelled {
            ProbeStep::Report { cancelled: true }
        } else {
            match job@.location {
                Place::File(_) => ProbeStep::ReadFile,
                Place::ArchiveMember { .. } => ProbeStep::ReadMember,
                Place::Url(_) => ProbeStep::Report { cancelled: false },
            }
        }),
{
    if cancelled {
        return ProbeStep::Report { cancelled: true };
    }
    match &job.location {
        ItemLocation::File(_) => ProbeStep::ReadFile,
        ItemLocation::ArchiveMember { .. } => ProbeStep::ReadMember,
        ItemLocation::Url(_) => ProbeStep::Report { cancelled: false },
    }
}

/// What a probe of a member reports: a member that could not be read has no weight.
pub fn member_probe(read: Result<Option<u64>, ArchiveError>) -> (found: (bool, Option<u64>))
    ensures
        found == (match read {
            Ok(weight) => (false, weight),
            Err(error) => (error@.cancelled, None),
        }),
{
    match read {
        Ok(weight) => (false, weight),
        Err(error) => (error.cancelled, None),
    }
}

pub fn probe_completion(job: &DecodeJob, cancelled: bool, weight: Option<u64>) -> (completion:
    ProbeCompletion)
    ensures
        completion.location@ == job@.location,
        completion.cancelled == cancelled,
        completion.weight == weight,
{
    ProbeCompletion { location: job.location.clone(), cancelled, weight }
}

/// Nanoseconds that pass between two progress reports of a download.
pub const DOWNLOAD_PROGRESS_INTERVAL: u64 = 100_000_000;

/// Whether a download reports its progress now, this long after its last report.
pub fn reports_progress(nanoseconds_since_last: Option<u64>) -> (reported: bool)
    ensures
        reported == (nanoseconds_since_last matches Some(elapsed) ==> elapsed
            >= DOWNLOAD_PROGRESS_INTERVAL),
{
    match nanoseconds_since_last {
        Some(elapsed) => elapsed >= DOWNLOAD_PROGRESS_INTERVAL,
        None => true,
    }
}

/// The most threads that decode at once.
pub const MAXIMUM_WORKERS: usize = 8;

/// The threads there are where the machine does not say how many it runs at once.
pub const DEFAULT_WORKERS: usize = 2;

/// How many threads decode, on a machine that runs this many at once.
pub fn worker_count(parallelism: Option<usize>) -> (workers: usize)
    ensures
        workers == (match parallelism {
            Some(count) => if count < MAXIMUM_WORKERS {
                count
            } else {
                MAXIMUM_WORKERS
            },
            None => DEFAULT_WORKERS,
        }),
{
    match parallelism {
        Some(count) => {
            if count < MAXIMUM_WORKERS {
                count
            } else {
                MAXIMUM_WORKERS
            }
        },
        None => DEFAULT_WORKERS,
    }
}

/// A job posts one completion that ends it: after a last preview nothing more is decoded, and after
/// any other the full decode follows.
pub proof fn lemma_one_completion_ends_the_job(job: JobModel, found: Option<ImageModel>)
    ensures
        ({
            let outcome = past_preview(job, found);
            outcome.next == WorkStep::Done <==> (outcome.posted matches Some(completion)
                && completion.stage == DecodeStage::PreviewFinal)
        }),
        ({
            let outcome = past_first_frame(job, found);
            outcome.next == WorkStep::Done <==> (outcome.posted matches Some(completion)
                && completion.stage == DecodeStage::PreviewFinal)
        }),
        past_first_frame(job, found).next != WorkStep::Done ==> past_first_frame(job, found).next
            == WorkStep::DecodeFile,
{
}

/// A guess never decodes an animation past its first frame, and a full decode that is no guess
/// searches for neither preview nor first frame.
pub proof fn lemma_guesses_stay_cheap(job: JobModel, first_frame: ImageModel)
    ensures
        job.speculative ==> past_first_frame(job, Some(first_frame)).next == WorkStep::Done,
        job.speculative && job.location is File ==> first_work(job) != WorkStep::DecodeFile,
        !job.speculative && job.kind == JobKind::Full && job.location is File ==> first_work(job)
            == WorkStep::DecodeFile,
{
}

} // verus!
