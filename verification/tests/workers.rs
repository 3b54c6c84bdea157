use riv::archive::{ArchiveError, FILETIME_UNIX_EPOCH};
use riv::compositor::FrameDisposal;
use riv::decode::{
    after_bundled, after_gain_map, after_wic, begin_decode, bits_per_channel, device_limit,
    frame_weight, metadata_text, opening_frame, opens_early, orientation_turn, probe_route, subresolution_step,
    taken_time, with_scaled_frame, DecodeStep, LimitStep, OpeningFrame, ProbeRoute,
    SubresolutionStep,
};
use riv::frame_pipeline::{
    still_image, FrameEvent, FramePipeline, FrameStep, PeakSource, PixelTarget, PrimariesSource,
};
use riv::gif::{
    declared_canvas, frame_delay, frame_disposal, AnimationReading, AnimationStep, FrameMetadata,
};
use riv::hdr::{HdrEncoding, HdrPrimaries, HdrTransfer};
use riv::image::{
    is_missing_codec_error, uncoded_error, DecodeError, DecodedImage, PixelStorage,
    CODEC_NOT_FOUND_CODE, COMPONENT_INITIALIZE_FAILURE_CODE, COMPONENT_NOT_FOUND_CODE,
};
use riv::listing::{name_ranks, ItemMetadata};
use riv::location::ItemLocation;
use riv::path::FilePath;
use riv::registry::{FrameSemantics, ImageFormat};
use riv::scan::file_time;
use riv::session_model::{DecodeStage, JobKind};
use riv::session_parts::DecodeJob;
use riv::worker::{
    after_first_frame, after_preview, decode_error_from_network, downloaded_metadata,
    final_completion, first_step, member_probe, member_result, probe_completion, probe_step,
    reports_progress, url_result, worker_count, NetworkError, ProbeStep, WorkStep,
};

fn job(location: ItemLocation, kind: JobKind, speculative: bool) -> DecodeJob {
    DecodeJob {
        ticket: 7,
        location,
        metadata: ItemMetadata {
            file_size: 10,
            modified: Some(3),
        },
        kind,
        speculative,
    }
}

fn file(name: &str) -> ItemLocation {
    ItemLocation::File(FilePath::from_text(name))
}

fn picture(width: u32, height: u32) -> DecodedImage {
    still_image(
        (width, height),
        (width, height),
        "PNG",
        None,
        None,
        PixelStorage::Bgra8,
        8,
        None,
        None,
        vec![0; width as usize * height as usize * 4],
    )
}

#[test]
fn a_job_begins_with_the_cheapest_step_it_may_end_on() {
    assert_eq!(
        first_step(&job(file("C:\\a.png"), JobKind::Probe, false)),
        WorkStep::Probe
    );
    assert_eq!(
        first_step(&job(file("C:\\a.dng"), JobKind::Preview, false)),
        WorkStep::Preview
    );
    assert_eq!(
        first_step(&job(
            ItemLocation::Url("https://a.com/b.png".to_string()),
            JobKind::Preview,
            false
        )),
        WorkStep::DecodeUrl
    );
    assert_eq!(
        first_step(&job(
            ItemLocation::ArchiveMember {
                archive: FilePath::from_text("C:\\a.zip"),
                member: "b.png".to_string()
            },
            JobKind::Full,
            false
        )),
        WorkStep::DecodeMember
    );
}

#[test]
fn a_preview_ends_a_preview_job() {
    let work = job(file("C:\\a.dng"), JobKind::Preview, false);
    let outcome = after_preview(&work, Some(picture(2, 2)));
    let posted = outcome.posted.expect("posted");
    assert_eq!(posted.stage, DecodeStage::PreviewFinal);
    assert_eq!(outcome.next, WorkStep::Done);
    let outcome = after_preview(&work, None);
    assert!(outcome.posted.is_none());
    assert_ne!(outcome.next, WorkStep::Done);
}

#[test]
fn a_guess_stops_at_the_first_frame() {
    let work = job(file("C:\\a.gif"), JobKind::Full, true);
    let outcome = after_first_frame(&work, Some(picture(2, 2)));
    assert_eq!(outcome.next, WorkStep::Done);
    assert_eq!(
        outcome.posted.expect("posted").stage,
        DecodeStage::PreviewFinal
    );
    let outcome = after_first_frame(&work, None);
    assert!(outcome.posted.is_none());
    assert_eq!(outcome.next, WorkStep::DecodeFile);
}

#[test]
fn failures_of_the_source_are_decode_errors() {
    let error = decode_error_from_network(NetworkError {
        message: "no route".to_string(),
        code: 7,
        cancelled: false,
    });
    assert_eq!((error.code, error.message.as_str()), (7, "no route"));
    assert!(decode_error_from_network(NetworkError {
        message: "stopped".to_string(),
        code: 42,
        cancelled: true,
    })
    .is_cancelled());
    assert!(member_result(Err(ArchiveError::cancelled()))
        .err()
        .expect("failed")
        .is_cancelled());
    assert_eq!(
        member_result(Err(ArchiveError::new("damaged")))
            .err()
            .expect("failed")
            .message,
        "damaged"
    );
    assert!(member_result(Ok(Ok(picture(1, 1)))).is_ok());
    let unknown = DecodeError {
        code: COMPONENT_NOT_FOUND_CODE,
        message: "component not found".to_string(),
        store_codec_names: vec![],
    };
    assert_eq!(
        url_result(Ok(Err(unknown))).err().expect("failed").message,
        "No image at this URL"
    );
}

#[test]
fn a_download_weighs_what_it_received() {
    let known = downloaded_metadata(
        ItemMetadata {
            file_size: 0,
            modified: None,
        },
        99,
    );
    assert_eq!(known.file_size, 99);
    let completion = final_completion(file("C:\\a.png"), known, Ok(picture(1, 1)), None);
    assert_eq!(completion.stage, DecodeStage::Final);
    assert!(completion.result.is_ok());
}

#[test]
fn probes_read_files_and_members_only() {
    let probe = job(file("C:\\a.png"), JobKind::Probe, false);
    assert_eq!(probe_step(&probe, false), ProbeStep::ReadFile);
    assert_eq!(probe_step(&probe, true), ProbeStep::Report { cancelled: true });
    let url = job(
        ItemLocation::Url("https://a.com/b.png".to_string()),
        JobKind::Probe,
        false,
    );
    assert_eq!(probe_step(&url, false), ProbeStep::Report { cancelled: false });
    assert_eq!(member_probe(Ok(Some(5))), (false, Some(5)));
    assert_eq!(member_probe(Err(ArchiveError::cancelled())), (true, None));
    assert_eq!(member_probe(Err(ArchiveError::new("x"))), (false, None));
    let completion = probe_completion(&probe, false, Some(5));
    assert_eq!(completion.weight, Some(5));
    assert!(completion.location == file("C:\\a.png"));
}

#[test]
fn progress_is_reported_ten_times_a_second() {
    assert!(reports_progress(None));
    assert!(reports_progress(Some(100_000_000)));
    assert!(!reports_progress(Some(99_999_999)));
}

#[test]
fn a_decode_asks_the_platform_or_a_bundled_decoder() {
    assert!(matches!(
        begin_decode(true, Some(ImageFormat::Png)),
        DecodeStep::Done(Err(error)) if error.is_cancelled()
    ));
    assert!(matches!(
        begin_decode(false, Some(ImageFormat::Png)),
        DecodeStep::Wic(FrameSemantics::Single)
    ));
    assert!(matches!(begin_decode(false, Some(ImageFormat::Apng)), DecodeStep::Apng));
    assert!(matches!(begin_decode(false, Some(ImageFormat::Svg)), DecodeStep::Svg));
    assert!(matches!(begin_decode(false, Some(ImageFormat::Exr)), DecodeStep::Exr));
    assert!(matches!(begin_decode(false, None), DecodeStep::Wic(_)));
}

#[test]
fn a_refused_heif_goes_to_the_bundled_decoder() {
    assert!(matches!(
        after_wic(Some(ImageFormat::Heif), Err(uncoded_error("no codec"))),
        DecodeStep::Heif
    ));
    assert!(matches!(
        after_wic(Some(ImageFormat::Png), Err(uncoded_error("broken"))),
        DecodeStep::Done(Err(_))
    ));
    assert!(matches!(
        after_bundled(Err(uncoded_error("broken"))),
        DecodeStep::Done(Err(_))
    ));
    assert!(matches!(
        after_gain_map(picture(1, 1), None),
        DecodeStep::Done(Ok(_)) | DecodeStep::Limit(_)
    ));
}

#[test]
fn a_missing_codec_is_told_by_its_code() {
    assert!(is_missing_codec_error(COMPONENT_NOT_FOUND_CODE));
    assert!(is_missing_codec_error(COMPONENT_INITIALIZE_FAILURE_CODE));
    assert!(is_missing_codec_error(CODEC_NOT_FOUND_CODE));
    assert!(!is_missing_codec_error(0));
}

#[test]
fn only_an_oversized_image_is_scaled() {
    assert!(matches!(device_limit(&picture(2, 2)), LimitStep::Keep));
    let mut wide = picture(2, 2);
    wide.pixel_width = 20000;
    wide.pixel_height = 1;
    assert!(matches!(
        device_limit(&wide),
        LimitStep::Scale { width: 16384, height: 1, stride: 80000 }
    ));
    wide.frames.clear();
    assert!(matches!(
        device_limit(&wide),
        LimitStep::Refuse(error) if error.message == "Image has no frames"
    ));
    wide.pixel_width = u32::MAX;
    assert!(matches!(
        device_limit(&wide),
        LimitStep::Refuse(error) if error.message == "Image stride exceeds the addressable range"
    ));
    let scaled = with_scaled_frame(picture(2, 2), vec![1, 2, 3, 4], 1, 1);
    assert_eq!((scaled.pixel_width, scaled.pixel_height), (1, 1));
    assert_eq!(scaled.frames[0].pixels, [1, 2, 3, 4]);
}

#[test]
fn an_opening_frame_exists_for_animations_alone() {
    assert_eq!(opening_frame(Some(ImageFormat::Gif)), Some(OpeningFrame::Composed));
    assert_eq!(
        opening_frame(Some(ImageFormat::Apng)),
        Some(OpeningFrame::DefaultImage)
    );
    assert_eq!(
        opening_frame(Some(ImageFormat::AnimatedWebP)),
        Some(OpeningFrame::Bundled)
    );
    assert_eq!(
        opening_frame(Some(ImageFormat::AnimatedAvif)),
        Some(OpeningFrame::Sequence)
    );
    assert_eq!(opening_frame(Some(ImageFormat::Avif)), None);
    assert_eq!(opening_frame(Some(ImageFormat::Png)), None);
    assert_eq!(opening_frame(None), None);
    assert!(opens_early(2));
    assert!(!opens_early(1));
    assert!(!opens_early(0));
}

#[test]
fn a_probe_goes_the_way_of_the_decode() {
    assert_eq!(
        probe_route(Some(ImageFormat::Ico)),
        Some(ProbeRoute::Wic(FrameSemantics::SizeVariants))
    );
    assert_eq!(probe_route(Some(ImageFormat::Svg)), Some(ProbeRoute::Svg));
    assert_eq!(
        probe_route(Some(ImageFormat::AnimatedWebP)),
        Some(ProbeRoute::WebP)
    );
    assert_eq!(
        probe_route(Some(ImageFormat::AnimatedAvif)),
        Some(ProbeRoute::AvifSequence)
    );
    assert!(matches!(
        begin_decode(false, Some(ImageFormat::AnimatedAvif)),
        DecodeStep::AvifSequence
    ));
    assert_eq!(probe_route(None), None);
    assert_eq!(bits_per_channel(48, 3), 16);
    assert_eq!(bits_per_channel(48, 0), 8);
    assert_eq!(frame_weight(10, 10, 16), 800);
    assert_eq!(frame_weight(10, 10, 8), 400);
}

#[test]
fn a_preview_is_copied_where_the_decoder_scales() {
    assert_eq!(
        subresolution_step((100, 50), (100, 50), 24, false),
        SubresolutionStep::SingleStage
    );
    assert_eq!(
        subresolution_step((100, 50), (25, 12), 24, true),
        SubresolutionStep::Cancelled
    );
    assert_eq!(
        subresolution_step((100, 50), (25, 12), 1, false),
        SubresolutionStep::Copy {
            stride: 4,
            bytes: 48
        }
    );
}

#[test]
fn photo_facts_read_as_declared() {
    assert!(orientation_turn(1).is_none());
    assert_eq!(orientation_turn(6).map(|turn| turn.quarter_turns), Some(1));
    assert_eq!(orientation_turn(3).map(|turn| turn.quarter_turns), Some(2));
    assert_eq!(orientation_turn(8).map(|turn| turn.quarter_turns), Some(3));
    assert!(orientation_turn(2).expect("mirrored").flip_horizontal);
    assert!(orientation_turn(9).is_none());
    assert_eq!(taken_time(0, 0), None);
    assert_eq!(taken_time(1, 2), None);
    assert_eq!(
        taken_time(0x019D_B1DE, 0xD53E_8000),
        Some(116_444_736_000_000_000)
    );
    assert_eq!(metadata_text(" Camera\n ").as_deref(), Some("Camera"));
    assert_eq!(metadata_text("  "), None);
}

#[test]
fn an_ordinary_frame_converts_and_copies() {
    let mut pipeline = FramePipeline::begin(8, false, None, 100, 100);
    assert_eq!(pipeline.step, FrameStep::Convert(PixelTarget::Pbgra));
    assert_eq!(pipeline.storage, PixelStorage::Bgra8);
    let mut steps = 0;
    while pipeline.step != FrameStep::Copy && steps < 8 {
        pipeline.advance(FrameEvent::Accepted);
        steps += 1;
    }
    assert_eq!(pipeline.step, FrameStep::Copy);
    assert_eq!(pipeline.source_bits_per_channel(), 8);
    assert_eq!(pipeline.peak_source(), PeakSource::Absent);
}

#[test]
fn a_coded_frame_is_linearized() {
    let encoding = HdrEncoding {
        transfer: HdrTransfer::PerceptualQuantizer,
        primaries: HdrPrimaries::Bt2020,
    };
    let pipeline = FramePipeline::begin(16, false, Some(encoding), 100, 100);
    assert_eq!(pipeline.step, FrameStep::Convert(PixelTarget::Rgba64));
    assert_eq!(pipeline.storage, PixelStorage::RgbaHalf);
    assert_eq!(
        pipeline.primaries_source(),
        PrimariesSource::Encoding(HdrPrimaries::Bt2020)
    );
    assert_eq!(pipeline.peak_source(), PeakSource::Linearized);
    assert_eq!(
        encoding.source_primaries().0,
        (0.708f32.to_bits(), 0.292f32.to_bits())
    );
    let wide = HdrEncoding {
        primaries: HdrPrimaries::DisplayP3,
        ..encoding
    };
    assert_eq!(
        wide.source_primaries(),
        (
            (0.680f32.to_bits(), 0.320f32.to_bits()),
            (0.265f32.to_bits(), 0.690f32.to_bits()),
            (0.150f32.to_bits(), 0.060f32.to_bits())
        )
    );
}

#[test]
fn a_gif_reads_frame_after_frame() {
    let mut reading = AnimationReading::begin(2, 1, 2).expect("canvas");
    assert_eq!(reading.next_step(false), AnimationStep::Read(0));
    let whole = FrameMetadata {
        left: None,
        top: None,
        delay_centiseconds: Some(7),
        disposal: None,
    };
    reading.add_frame(&[1, 0, 0, 255, 2, 0, 0, 255], 2, 1, whole, None);
    assert_eq!(reading.next_step(false), AnimationStep::Read(1));
    let right = FrameMetadata {
        left: Some(1),
        top: Some(0),
        delay_centiseconds: None,
        disposal: Some(2),
    };
    reading.add_frame(&[9, 0, 0, 255], 1, 1, right, None);
    assert_eq!(reading.next_step(false), AnimationStep::Finish);
    let image = reading.finish("GIF");
    assert_eq!(image.frames.len(), 2);
    assert_eq!(image.frames[0].delay_milliseconds, 70);
    assert_eq!(image.frames[1].pixels, [1, 0, 0, 255, 9, 0, 0, 255]);
}

#[test]
fn gif_facts_have_defaults() {
    assert_eq!(frame_delay(Some(7)), 70);
    assert_eq!(frame_delay(None), 100);
    assert_eq!(frame_disposal(Some(2)), FrameDisposal::Background);
    assert_eq!(frame_disposal(Some(3)), FrameDisposal::Previous);
    assert_eq!(frame_disposal(None), FrameDisposal::Keep);
    assert_eq!(declared_canvas(Some(3), Some(4)), Some((3, 4)));
    assert_eq!(declared_canvas(Some(3), None), None);
    assert!(AnimationReading::begin(65535, 65535, 2).is_none());
    assert!(AnimationReading::on_canvas(None, 2).is_none());
    assert!(AnimationReading::begin(0, 1, 2).is_some());
    let mut reading = AnimationReading::begin(1, 1, 2).expect("canvas");
    assert_eq!(reading.next_step(true), AnimationStep::Cancelled);
}

#[test]
fn names_rank_as_they_sort() {
    // The third name sorts first, then the first and the second, which nothing tells apart.
    assert_eq!(
        name_ranks(&vec![2, 0, 1], &vec![false, false, true]),
        [1, 1, 0]
    );
    assert!(name_ranks(&vec![], &vec![]).is_empty());
}

#[test]
fn times_count_on_both_sides_of_the_epoch() {
    assert_eq!(file_time(true, 250), Some(FILETIME_UNIX_EPOCH + 2));
    assert_eq!(file_time(false, 250), Some(FILETIME_UNIX_EPOCH - 2));
    assert_eq!(file_time(true, u128::MAX), None);
    assert_eq!(file_time(false, u128::MAX), None);
    assert_eq!(file_time(false, u128::from(FILETIME_UNIX_EPOCH) * 100), Some(0));
}

#[test]
fn a_machine_has_as_many_workers_as_it_runs() {
    assert_eq!(worker_count(Some(4)), 4);
    assert_eq!(worker_count(Some(32)), 8);
    assert_eq!(worker_count(None), 2);
}
