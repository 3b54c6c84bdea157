use riv::apng::{decode_apng, frame_delay, information_weight, probe_apng_frames, probe_apng_weight};
use riv::image::CANCELLED_CODE;
use std::sync::atomic::AtomicBool;

/// CRC-32 over an APNG/PNG chunk's type and data (polynomial 0xEDB88320).
fn png_chunk_crc(bytes: &[u8]) -> u32 {
    let mut crc = 0xFFFF_FFFFu32;
    for &byte in bytes {
        crc ^= u32::from(byte);
        for _ in 0..8 {
            crc = if crc & 1 != 0 {
                (crc >> 1) ^ 0xEDB8_8320
            } else {
                crc >> 1
            };
        }
    }
    crc ^ 0xFFFF_FFFF
}

fn still_png() -> Vec<u8> {
    let mut png = Vec::new();
    let mut encoder = png::Encoder::new(&mut png, 1, 1);
    encoder.set_color(png::ColorType::Rgba);
    encoder.set_depth(png::BitDepth::Eight);
    let mut writer = encoder.write_header().expect("header");
    writer.write_image_data(&[200, 100, 50, 51]).expect("pixels");
    writer.finish().expect("end");
    png
}

/// Two frames on a canvas of two pixels: a whole one, then one pixel at the right.
fn animated_png() -> Vec<u8> {
    let mut png = Vec::new();
    let mut encoder = png::Encoder::new(&mut png, 2, 1);
    encoder.set_color(png::ColorType::Rgba);
    encoder.set_depth(png::BitDepth::Eight);
    encoder.set_animated(2, 0).expect("animation");
    encoder.set_frame_delay(1, 10).expect("delay");
    let mut writer = encoder.write_header().expect("header");
    writer
        .write_image_data(&[10, 20, 30, 255, 40, 50, 60, 255])
        .expect("first frame");
    writer.set_frame_dimension(1, 1).expect("size");
    writer.set_frame_position(1, 0).expect("place");
    writer.set_blend_op(png::BlendOp::Source).expect("blend");
    writer.write_image_data(&[7, 8, 9, 255]).expect("second frame");
    writer.finish().expect("end");
    png
}

#[test]
fn an_oversized_apng_header_is_refused_without_aborting() {
    // A real 1x1 PNG with its IHDR rewritten to an oversized canvas; the decode must refuse it.
    let mut png = Vec::new();
    {
        let mut encoder = png::Encoder::new(&mut png, 1, 1);
        encoder.set_color(png::ColorType::Rgba);
        encoder.set_depth(png::BitDepth::Eight);
        let mut writer = encoder.write_header().expect("header");
        writer.write_image_data(&[0, 0, 0, 0]).expect("pixels");
    }
    // IHDR data begins after the 8-byte signature and the length+type fields.
    png[16..20].copy_from_slice(&60000u32.to_be_bytes());
    png[20..24].copy_from_slice(&60000u32.to_be_bytes());
    let crc = png_chunk_crc(&png[12..29]);
    png[29..33].copy_from_slice(&crc.to_be_bytes());
    let decoded = decode_apng(png, "PNG", &AtomicBool::new(false));
    assert!(decoded.is_err(), "oversized canvas must fail closed");
}

#[test]
fn a_still_png_decodes_to_premultiplied_pixels() {
    let decoded = decode_apng(still_png(), "APNG", &AtomicBool::new(false))
        .ok()
        .expect("image");
    assert_eq!((decoded.width, decoded.height), (1, 1));
    assert_eq!(decoded.frames.len(), 1);
    assert_eq!(decoded.frames[0].pixels, [10, 20, 40, 51]);
    assert_eq!(decoded.format_name, "APNG");
}

#[test]
fn an_animation_composes_its_frames() {
    let decoded = decode_apng(animated_png(), "APNG", &AtomicBool::new(false))
        .ok()
        .expect("image");
    assert_eq!(decoded.frames.len(), 2);
    assert!(!decoded.frames_truncated);
    assert_eq!(decoded.frames[0].pixels, [30, 20, 10, 255, 60, 50, 40, 255]);
    assert_eq!(decoded.frames[1].pixels, [30, 20, 10, 255, 9, 8, 7, 255]);
    assert_eq!(decoded.frames[0].delay_milliseconds, 100);
}

#[test]
fn a_cancelled_decode_says_so() {
    let error = decode_apng(animated_png(), "APNG", &AtomicBool::new(true))
        .err()
        .expect("cancelled");
    assert_eq!(error.code, CANCELLED_CODE);
}

#[test]
fn bytes_that_are_no_png_are_refused() {
    let error = decode_apng(b"plain text".to_vec(), "APNG", &AtomicBool::new(false))
        .err()
        .expect("refused");
    assert_eq!(error.code, 0);
    assert!(!error.message.is_empty());
    assert_eq!(probe_apng_weight(b"plain text"), None);
}

#[test]
fn a_png_weighs_its_frames() {
    assert_eq!(probe_apng_weight(&animated_png()), Some(2 * 4 * 2));
    assert_eq!(probe_apng_weight(&still_png()), Some(4));
    assert_eq!(probe_apng_frames(&animated_png()), Some(2));
    assert_eq!(probe_apng_frames(&still_png()), Some(1));
    assert_eq!(probe_apng_frames(b"plain text"), None);
    assert_eq!(information_weight(100, 50, Some(3)), 100 * 50 * 4 * 3);
    assert_eq!(information_weight(100, 50, None), 100 * 50 * 4);
}

#[test]
fn a_delay_without_a_denominator_counts_hundredths() {
    assert_eq!(frame_delay(10, 0), 100);
    assert_eq!(frame_delay(1, 2), 500);
    assert_eq!(frame_delay(1, 10), 100);
}
