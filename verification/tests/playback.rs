use riv::actions::{Action, ActionRequirement, SatisfiedRequirements, RECENT_FILES_LIMIT};
use riv::animation::Animation;
use riv::display::{
    driving_path, output_depth, reported_nits, AdvancedColorKind, DisplayCapabilities,
    DisplayGamut, DisplayLabels,
};
use riv::formats::sorted_format_groups;
use riv::image::{DecodedImage, Frame, PixelStorage};

fn animation(delays: &[u32]) -> DecodedImage {
    DecodedImage {
        width: 1,
        height: 1,
        pixel_width: 1,
        pixel_height: 1,
        format_name: "GIF",
        icc_profile: None,
        exif: None,
        storage: PixelStorage::Bgra8,
        source_bits_per_channel: 8,
        peak_luminance_nits: None,
        source_primaries: None,
        frames: delays
            .iter()
            .map(|delay| Frame {
                pixels: vec![0; 4],
                delay_milliseconds: *delay,
            })
            .collect(),
        frames_truncated: false,
        gain_map: None,
        gain_map_plane: None,
    }
}

#[test]
fn frames_come_round_both_ways() {
    let mut playback = Animation::new(&animation(&[10, 20, 30])).expect("animation");
    assert_eq!(playback.frame_count(), 3);
    assert_eq!(playback.next_frame(), 1);
    assert_eq!(playback.next_frame(), 2);
    assert_eq!(playback.next_frame(), 0);
    assert_eq!(playback.previous_frame(), 2);
    assert_eq!(playback.next_frame(), 0);
}

#[test]
fn a_still_image_does_not_play() {
    assert!(Animation::new(&animation(&[10])).is_none());
}

#[test]
fn speed_moves_in_steps_within_its_bounds() {
    let mut playback = Animation::new(&animation(&[100, 100])).expect("animation");
    assert_eq!(playback.current_delay_milliseconds(), 100);
    playback.adjust_speed(true);
    assert_eq!(playback.speed_percent(), 125);
    assert_eq!(playback.current_delay_milliseconds(), 80);
    playback.adjust_speed(false);
    assert_eq!(playback.speed_percent(), 100);
    for _ in 0..20 {
        playback.adjust_speed(false);
    }
    assert_eq!(playback.speed_percent(), 50);
    for _ in 0..20 {
        playback.adjust_speed(true);
    }
    assert_eq!(playback.speed_percent(), 300);
    playback.reset_speed();
    assert_eq!(playback.speed_percent(), 100);
}

#[test]
fn requirements_are_answered_one_by_one() {
    let mut snapshot =
        SatisfiedRequirements::evaluate(|requirement| requirement == ActionRequirement::Image);
    assert!(snapshot.satisfied(ActionRequirement::Image));
    assert!(!snapshot.satisfied(ActionRequirement::Animation));
    snapshot.set(ActionRequirement::Animation, true);
    assert!(snapshot.satisfied(ActionRequirement::Animation));
    assert!(snapshot.satisfied(ActionRequirement::Image));
}

#[test]
fn recent_files_have_actions_of_their_own() {
    assert_eq!(RECENT_FILES_LIMIT, 10);
    let first = Action::Recent(0);
    assert_eq!(Action::from_name(first.name()), Some(first));
    assert_eq!(first.requirement(), ActionRequirement::Window);
    assert_eq!(
        Action::ClearRecents.requirement(),
        ActionRequirement::RecentFiles
    );
}

#[test]
fn panning_has_a_direction() {
    assert_eq!(Action::PanUp.pan_direction().map(|(x, _)| x), Some(0));
    assert_eq!(
        Action::PanLeft.pan_direction().map(|(x, y)| (-x, y)),
        Action::PanRight.pan_direction()
    );
    assert_eq!(Action::Open.pan_direction(), None);
}

#[test]
fn groups_stand_by_name() {
    let groups = sorted_format_groups();
    let names: Vec<&str> = groups.iter().map(|(name, _)| *name).collect();
    let mut ordered = names.clone();
    ordered.sort();
    assert_eq!(names, ordered);
    assert!(groups
        .iter()
        .any(|(name, extensions)| *name == "PNG" && *extensions == ["png"]));
}

#[test]
fn a_display_says_what_it_can() {
    let hdr = DisplayCapabilities::from_snapshot(
        Some(AdvancedColorKind::HighDynamicRange),
        Some(10),
        Some(1000.0f32.to_bits()),
        None,
        Some(2.5f32.to_bits()),
    );
    assert!(hdr.hdr);
    assert!(hdr.advanced_color);
    assert_eq!(hdr.color_mode_label(), "HDR");
    assert_eq!(hdr.sdr_white_boost_for(true), 2.5f32.to_bits());
    assert_eq!(hdr.sdr_white_boost_for(false), 1.0f32.to_bits());
    let plain = DisplayCapabilities::from_snapshot(None, None, None, None, None);
    assert!(!plain.hdr);
    assert_eq!(plain.bits_per_color, 8);
    assert_eq!(plain.color_mode_label(), "SDR");
    assert_eq!(reported_nits(Some(0)), None);
    assert_eq!(reported_nits(Some((-5.0f32).to_bits())), None);
    assert_eq!(
        reported_nits(Some(400.0f32.to_bits())),
        Some(400.0f32.to_bits())
    );
}

#[test]
fn labels_describe_the_display() {
    let plain = DisplayCapabilities::from_snapshot(None, None, None, None, None);
    let labels = DisplayLabels::new(&plain, Some("DCI-P3"));
    assert!(labels.display_description().contains("DCI-P3"));
    assert!(labels.display_description().contains('8'));
}

#[test]
fn zeros_are_no_gamut() {
    let unknown = DisplayGamut {
        red: (0, 0),
        green: (0, 0x8000_0000),
        blue: (0, 0),
    };
    assert!(!unknown.is_known());
    assert!(DisplayGamut {
        blue: (0, 0.06f32.to_bits()),
        ..unknown
    }
    .is_known());
}

#[test]
fn a_display_is_found_by_its_device() {
    let names = vec![None, Some(vec![0x61, 0x62]), Some(vec![0x63])];
    assert_eq!(driving_path(&names, &vec![0x63]), Some(2));
    assert_eq!(driving_path(&names, &vec![0x64]), None);
    assert_eq!(output_depth(&vec![(1, 8), (2, 10)], 2), Some(10));
    assert_eq!(output_depth(&vec![(1, 8)], 3), None);
}

#[test]
fn tone_mapping_aims_at_what_the_display_reaches() {
    let reported = DisplayCapabilities::from_snapshot(
        Some(AdvancedColorKind::HighDynamicRange),
        None,
        Some(1000.0f32.to_bits()),
        Some(400.0f32.to_bits()),
        None,
    );
    assert_eq!(
        reported.tone_map_targets(),
        (1000.0f32.to_bits(), 400.0f32.to_bits())
    );
    assert_eq!(reported.gain_map_ceiling(), Some(400.0f32.to_bits()));
    // A peak of zero is no report.
    let silent = DisplayCapabilities::from_snapshot(
        Some(AdvancedColorKind::HighDynamicRange),
        None,
        Some(0.0f32.to_bits()),
        None,
        None,
    );
    assert_eq!(
        silent.tone_map_targets(),
        (600.0f32.to_bits(), 600.0f32.to_bits())
    );
    assert_eq!(silent.gain_map_ceiling(), None);
    let plain = DisplayCapabilities::from_snapshot(None, None, None, None, None);
    assert_eq!(
        plain.tone_map_targets(),
        (203.0f32.to_bits(), 203.0f32.to_bits())
    );
}
