use riv::bundled::premultiply_bgra_in_place;
use riv::compositor::{FrameBlend, FrameCompositor, FrameDisposal, FrameRegion};
use riv::pixels::{
    animation_budget_exceeded, blend_over, clear_rectangle, copy_rectangle, over_channel,
    pixels_to_premultiplied_bgra_into, premultiply, try_zeroed_buffer, zeroed_on, ColorType,
};
use riv::weight::{
    decoded_weight, device_limited_size, largest_frame_index, maximum_resource_bytes,
    parallel_block_bytes, probe_webp_weight, strip_rows, strips, subresolution_target_size,
    MonitorSize,
};

/// Deterministic straight BGRA with frequent fully transparent and opaque pixels.
fn random_pixels(count: usize, mut state: u32) -> Vec<u8> {
    let mut pixels = Vec::with_capacity(count * 4);
    for _ in 0..count {
        state = state.wrapping_mul(1_664_525).wrapping_add(1_013_904_223);
        for shift in [0u32, 8, 16] {
            pixels.push((state >> shift) as u8);
        }
        pixels.push(match state >> 30 {
            0 => 0,
            1 => 255,
            _ => (state >> 8) as u8,
        });
    }
    pixels
}

/// Deterministic premultiplied BGRA with frequent fully transparent and opaque pixels.
fn premultiplied_pixels(count: usize, mut state: u32) -> Vec<u8> {
    let mut pixels = Vec::with_capacity(count * 4);
    for _ in 0..count {
        state = state.wrapping_mul(1_664_525).wrapping_add(1_013_904_223);
        let alpha = match state >> 30 {
            0 => 0,
            1 => 255,
            _ => (state >> 8) as u8,
        };
        for shift in [0u32, 8, 16] {
            let straight = (state >> shift) as u8;
            pixels.push((u16::from(straight) * u16::from(alpha) / 255) as u8);
        }
        pixels.push(alpha);
    }
    pixels
}

fn blend_over_reference(canvas: &mut [u8], source: &[u8]) {
    for (canvas_pixel, source_pixel) in canvas.chunks_exact_mut(4).zip(source.chunks_exact(4)) {
        let alpha = u32::from(source_pixel[3]);
        if alpha == 0 {
            continue;
        }
        if alpha == 255 {
            canvas_pixel.copy_from_slice(source_pixel);
            continue;
        }
        for channel in 0..4 {
            let blended = u32::from(source_pixel[channel])
                + (u32::from(canvas_pixel[channel]) * (255 - alpha) + 127) / 255;
            canvas_pixel[channel] = blended.min(255) as u8;
        }
    }
}

/// One opaque pixel of the given blue, in the premultiplied BGRA the compositor takes.
fn blue_pixel(blue: u8) -> Vec<u8> {
    vec![blue, 0, 0, 255]
}

fn region(pixels: &[u8], disposal: FrameDisposal) -> FrameRegion<'_> {
    FrameRegion {
        pixels,
        left: 0,
        top: 0,
        width: 1,
        height: 1,
        blend: FrameBlend::Replace,
        disposal,
        delay_milliseconds: 40,
    }
}

#[test]
fn frames_placed_past_the_canvas_edge_are_clipped_without_panicking() {
    // left past the width with a bottom row still visible used to index past the end.
    let mut canvas = vec![0u8; 10 * 10 * 4];
    let source = vec![255u8; 4];
    blend_over(&mut canvas, 10, 10, &source, 1, 1, 15, 9);
    copy_rectangle(&mut canvas, 10, 10, &source, 1, 1, 15, 9);
    clear_rectangle(&mut canvas, 10, 10, 15, 9, 1, 1);
    assert!(canvas.iter().all(|&byte| byte == 0), "nothing is visible");
}

#[test]
fn keeping_the_canvas_carries_a_frame_into_the_next() {
    let mut compositor = FrameCompositor::new(2, 1).expect("canvas");
    compositor.add_frame(region(&blue_pixel(10), FrameDisposal::Keep));
    compositor.add_frame(FrameRegion {
        left: 1,
        ..region(&blue_pixel(20), FrameDisposal::Keep)
    });
    let (frames, truncated) = compositor.finish();
    assert!(!truncated);
    assert_eq!(frames[0].pixels[0], 10);
    // The second frame still shows the first, which nothing disposed of.
    assert_eq!(frames[1].pixels[0], 10);
    assert_eq!(frames[1].pixels[4], 20);
    assert_eq!(frames[1].delay_milliseconds, 40);
}

#[test]
fn disposing_to_the_background_clears_only_that_region() {
    let mut compositor = FrameCompositor::new(2, 1).expect("canvas");
    compositor.add_frame(FrameRegion {
        left: 1,
        ..region(&blue_pixel(20), FrameDisposal::Keep)
    });
    compositor.add_frame(region(&blue_pixel(10), FrameDisposal::Background));
    compositor.add_frame(FrameRegion {
        width: 0,
        ..region(&[], FrameDisposal::Keep)
    });
    let (frames, _) = compositor.finish();
    assert_eq!(frames[1].pixels[0], 10, "the frame is kept as it was shown");
    assert_eq!(frames[2].pixels[0], 0, "its own region is cleared");
    assert_eq!(frames[2].pixels[4], 20, "the rest of the canvas stands");
}

#[test]
fn disposing_to_previous_restores_what_the_frame_covered() {
    let mut compositor = FrameCompositor::new(1, 1).expect("canvas");
    compositor.add_frame(region(&blue_pixel(10), FrameDisposal::Keep));
    compositor.add_frame(region(&blue_pixel(20), FrameDisposal::Previous));
    compositor.add_frame(FrameRegion {
        width: 0,
        ..region(&[], FrameDisposal::Keep)
    });
    let (frames, _) = compositor.finish();
    assert_eq!(frames[1].pixels[0], 20, "the frame is kept as it was shown");
    assert_eq!(frames[2].pixels[0], 10, "the canvas goes back to before it");
}

#[test]
fn blending_over_keeps_what_a_transparent_frame_does_not_cover() {
    let mut compositor = FrameCompositor::new(1, 1).expect("canvas");
    compositor.add_frame(region(&blue_pixel(10), FrameDisposal::Keep));
    compositor.add_frame(FrameRegion {
        blend: FrameBlend::Over,
        ..region(&[0, 0, 0, 0], FrameDisposal::Keep)
    });
    let (frames, _) = compositor.finish();
    assert_eq!(frames[1].pixels[0], 10, "a clear frame leaves the canvas");
}

#[test]
fn frames_past_the_byte_budget_collapse_to_the_first() {
    // One frame of this canvas is a quarter of the budget, so the fifth is refused.
    let side = 8192;
    let mut compositor = FrameCompositor::new(side, side).expect("canvas");
    for _ in 0..4 {
        assert!(compositor.accepts_one_more());
        compositor.add_frame(region(&blue_pixel(10), FrameDisposal::Keep));
    }
    assert!(!compositor.accepts_one_more());
    let (frames, truncated) = compositor.finish();
    assert_eq!(frames.len(), 1);
    assert!(truncated);
}

#[test]
fn a_canvas_over_the_budget_is_refused() {
    assert!(FrameCompositor::new(65535, 65535).is_none());
}

#[test]
fn a_buffer_is_zeroed_whole() {
    assert_eq!(try_zeroed_buffer(0), Some(Vec::new()));
    assert_eq!(try_zeroed_buffer(3), Some(vec![0, 0, 0]));
    assert_eq!(try_zeroed_buffer(usize::MAX), None);
    assert_eq!(zeroed_on(Some(Vec::new()), 2), Some(vec![0, 0]));
    assert_eq!(zeroed_on(None, 2), None);
}

#[test]
fn a_canvas_without_pixels_is_always_had() {
    assert!(FrameCompositor::new(0, u32::MAX).is_some());
    assert!(FrameCompositor::new(u32::MAX, 0).is_some());
}

#[test]
fn blend_over_matches_the_scalar_reference() {
    let source = premultiplied_pixels(64 * 64, 7);
    let mut canvas = premultiplied_pixels(64 * 64, 1234);
    let mut expected = canvas.clone();
    blend_over_reference(&mut expected, &source);
    blend_over(&mut canvas, 64, 64, &source, 64, 64, 0, 0);
    assert_eq!(canvas, expected);
}

#[test]
fn blend_over_clips_an_offset_frame_to_the_canvas() {
    let source = premultiplied_pixels(8 * 8, 42);
    let mut canvas = premultiplied_pixels(16 * 16, 9);
    let mut expected = canvas.clone();
    // Rows 0..4 of the visible 4x4 window, blended one pixel at a time.
    for row in 0..4usize {
        for column in 0..4usize {
            let canvas_start = ((12 + row) * 16 + 12 + column) * 4;
            let source_start = (row * 8 + column) * 4;
            blend_over_reference(
                &mut expected[canvas_start..canvas_start + 4],
                &source[source_start..source_start + 4],
            );
        }
    }
    blend_over(&mut canvas, 16, 16, &source, 8, 8, 12, 12);
    assert_eq!(canvas, expected);
}

#[test]
fn rgba_conversion_matches_the_scalar_reference() {
    let rgba = random_pixels(64 * 64, 3);
    let mut converted = Vec::new();
    let converted_ok =
        pixels_to_premultiplied_bgra_into(&rgba, ColorType::Rgba, 64, 64, &mut converted);
    assert!(converted_ok.is_ok(), "conversion failed");
    let mut expected = Vec::new();
    for pixel in rgba.chunks_exact(4) {
        let alpha = u16::from(pixel[3]);
        expected.push((u16::from(pixel[2]) * alpha / 255) as u8);
        expected.push((u16::from(pixel[1]) * alpha / 255) as u8);
        expected.push((u16::from(pixel[0]) * alpha / 255) as u8);
        expected.push(pixel[3]);
    }
    assert_eq!(converted, expected);
}

#[test]
fn rgb_conversion_matches_the_scalar_reference() {
    let rgb: Vec<u8> = random_pixels(64 * 64, 11)
        .chunks_exact(4)
        .flat_map(|pixel| [pixel[0], pixel[1], pixel[2]])
        .collect();
    let mut converted = Vec::new();
    let converted_ok =
        pixels_to_premultiplied_bgra_into(&rgb, ColorType::Rgb, 64, 64, &mut converted);
    assert!(converted_ok.is_ok(), "conversion failed");
    let mut expected = Vec::new();
    for pixel in rgb.chunks_exact(3) {
        expected.extend_from_slice(&[pixel[2], pixel[1], pixel[0], 255]);
    }
    assert_eq!(converted, expected);
}

#[test]
fn a_color_type_without_three_channels_is_refused() {
    let mut converted = Vec::new();
    let refused =
        pixels_to_premultiplied_bgra_into(&[7, 8], ColorType::Grayscale, 2, 1, &mut converted);
    assert_eq!(
        refused.err().expect("refused").message,
        "Unsupported PNG color type after normalization: Grayscale"
    );
    let refused =
        pixels_to_premultiplied_bgra_into(&[0], ColorType::Indexed, 1, 1, &mut converted);
    assert_eq!(
        refused.err().expect("refused").message,
        "Unsupported PNG color type after normalization: Indexed"
    );
}

#[test]
fn premultiply_matches_the_scalar_reference() {
    let mut pixels = random_pixels(64 * 64, 13);
    let mut expected = pixels.clone();
    for pixel in expected.chunks_exact_mut(4) {
        let alpha = u16::from(pixel[3]);
        if alpha == 255 {
            continue;
        }
        for channel in &mut pixel[..3] {
            *channel = (u16::from(*channel) * alpha / 255) as u8;
        }
    }
    premultiply_bgra_in_place(&mut pixels);
    assert_eq!(pixels, expected);
}

#[test]
fn blending_at_the_ends_takes_or_leaves_the_source() {
    assert_eq!(over_channel(9, 200, 255), 9);
    assert_eq!(over_channel(0, 200, 0), 200);
    assert_eq!(over_channel(60, 100, 128), 110);
    assert_eq!(premultiply(200, 51), 40);
}

#[test]
fn the_animation_budget_is_a_gigabyte_of_frames() {
    assert!(!animation_budget_exceeded(4, 1 << 28));
    assert!(animation_budget_exceeded(5, 1 << 28));
    assert!(animation_budget_exceeded(u64::MAX, u64::MAX));
}

#[test]
fn a_single_frame_weighs_its_pixel_bytes() {
    assert_eq!(decoded_weight(6000, 4000, 4, 1), 96_000_000);
    assert_eq!(decoded_weight(6000, 4000, 8, 1), 192_000_000);
}

#[test]
fn an_oversized_single_downscales_before_weighing() {
    // 17000x6000 exceeds the texture limit; the decode lands at 16384x5782.
    let expected = 16384u64 * (6000 * 16384 / 17000) * 8;
    assert_eq!(decoded_weight(17000, 6000, 8, 1), expected);
}

#[test]
fn an_animation_within_the_cap_counts_every_frame() {
    let frame_bytes = 748u64 * 418 * 4;
    assert_eq!(decoded_weight(748, 418, 4, 400), frame_bytes * 400);
}

#[test]
fn an_animation_past_the_cap_weighs_its_first_frame() {
    let frame_bytes = 1920u64 * 1080 * 4;
    assert_eq!(decoded_weight(1920, 1080, 4, 2000), frame_bytes);
}

#[test]
fn a_claimed_first_frame_past_the_cap_keeps_its_claimed_size() {
    // A forged canvas is never capped: the weight blocks speculation instead.
    let frame_bytes = 60000u64 * 60000 * 4;
    assert_eq!(decoded_weight(60000, 60000, 4, 10), frame_bytes);
}

#[test]
fn a_limited_size_is_limited_once() {
    let (width, height) = device_limited_size(40000, 10);
    assert_eq!((width, height), (16384, 4));
    assert_eq!(device_limited_size(width, height), (width, height));
    assert_eq!(device_limited_size(1, 40000), (1, 16384));
    assert_eq!(device_limited_size(300, 200), (300, 200));
}

#[test]
fn the_largest_frame_stands_for_the_sizes() {
    assert_eq!(largest_frame_index(&vec![(16, 16), (256, 256), (48, 48)]), 1);
    assert_eq!(largest_frame_index(&vec![(32, 32), (32, 32)]), 0);
    assert_eq!(largest_frame_index(&vec![]), 0);
}

#[test]
fn a_webp_header_gives_the_weight_of_its_canvas() {
    let mut header = b"RIFF\0\0\0\0WEBPVP8X".to_vec();
    header.extend_from_slice(&[10, 0, 0, 0, 2, 0, 0, 0]);
    header.extend_from_slice(&[99, 0, 0, 49, 0, 0]);
    assert_eq!(probe_webp_weight(&header), Some(100 * 50 * 4));
    assert_eq!(probe_webp_weight(b"RIFF"), None);
}

#[test]
fn a_preview_is_cut_to_the_monitor() {
    assert_eq!(subresolution_target_size(8000, 4000, false, 2000), (2000, 1000));
    assert_eq!(subresolution_target_size(100, 50, false, 2000), (50, 25));
    assert_eq!(subresolution_target_size(100, 50, true, 2000), (25, 12));
    assert_eq!(subresolution_target_size(1, 0, true, 2000), (1, 1));
}

#[test]
fn a_strip_ends_with_the_image() {
    assert_eq!(strips(600), [0, 256, 512]);
    assert_eq!(strip_rows(0, 600), 256);
    assert_eq!(strip_rows(512, 600), 88);
    assert!(strips(0).is_empty());
}

#[test]
fn blocks_split_only_what_is_worth_it() {
    let small = parallel_block_bytes(4096 * 8, 8, 8);
    assert!(small >= 4096 * 8);
    let large = parallel_block_bytes(8_000_000 * 8, 8, 8);
    assert!(large < 8_000_000 * 8 && large % 8 == 0);
}

#[test]
fn a_resource_may_take_a_share_of_video_memory() {
    assert!(maximum_resource_bytes(0) >= 1);
    assert!(maximum_resource_bytes(u64::MAX) >= maximum_resource_bytes(1 << 30));
}

#[test]
fn the_monitor_size_is_kept_until_it_expires() {
    let mut size = MonitorSize::new();
    let first = size.largest_monitor_long_side(&vec![(0, 0, 1920, 1080), (1920, 0, 4480, 1440)]);
    assert_eq!(first, 2560);
    assert_eq!(size.largest_monitor_long_side(&vec![(0, 0, 800, 600)]), 2560);
    size.invalidate_monitor_size();
    assert_eq!(size.largest_monitor_long_side(&vec![(0, 0, 800, 600)]), 800);
}
