use riv::half::{float_bits_to_half, half_to_float_bits};
use riv::hdr::{
    channel_maxima_from_half_pixels, cicp_hdr_encoding, depth_maximum, full_range_expansion,
    icc_hdr_encoding, peak_from_half_pixels, positive_normal_half_bits, source_depth, HdrPrimaries,
    HdrTransfer, Peak, PEAK_HISTOGRAM_BINS,
};

const SDR_REFERENCE_WHITE_NITS: f32 = 80.0;

fn f32_to_half(value: f32) -> u16 {
    float_bits_to_half(value.to_bits())
}

fn half_to_f32(bits: u16) -> f32 {
    f32::from_bits(half_to_float_bits(bits))
}

fn perceptual_quantizer_code(nits: f32) -> f32 {
    let powered = (nits / 10000.0).max(0.0).powf(0.159_301_76);
    ((0.835_937_5 + 18.851_563 * powered) / (1.0 + 18.687_5 * powered)).powf(78.84375)
}

fn perceptual_quantizer_nits(code: f32) -> f32 {
    let powered = code.max(0.0).powf(1.0 / 78.84375);
    let linear = (powered - 0.835_937_5).max(0.0) / (18.851_563 - 18.687_5 * powered);
    10000.0 * linear.powf(1.0 / 0.159_301_76)
}

fn bin_table() -> Vec<u16> {
    (0..=u16::MAX)
        .map(|bits| {
            let code = perceptual_quantizer_code(half_to_f32(bits) * SDR_REFERENCE_WHITE_NITS);
            ((code.clamp(0.0, 1.0) * (PEAK_HISTOGRAM_BINS - 1) as f32) as usize)
                .min(PEAK_HISTOGRAM_BINS - 1) as u16
        })
        .collect()
}

fn peak_luminance(pixels: &[u8]) -> Option<f32> {
    peak_from_half_pixels(pixels, &bin_table()).map(|peak| match peak {
        Peak::Half(bits) => half_to_f32(bits) * SDR_REFERENCE_WHITE_NITS,
        Peak::Bin(bin) => {
            let code = (bin as f32 + 1.0) / PEAK_HISTOGRAM_BINS as f32;
            perceptual_quantizer_nits(code.min(1.0))
        }
    })
}

fn half_pixels(values: &[(f32, f32, f32)]) -> Vec<u8> {
    let mut pixels = Vec::new();
    for (red, green, blue) in values {
        for value in [*red, *green, *blue, 1.0] {
            pixels.extend_from_slice(&f32_to_half(value).to_le_bytes());
        }
    }
    pixels
}

#[test]
fn sdr_content_short_circuits_to_maximum() {
    let pixels = half_pixels(&[(0.25, 0.5, 0.125); 64]);
    let peak = peak_luminance(&pixels).unwrap();
    assert!(
        (peak - 0.5 * SDR_REFERENCE_WHITE_NITS).abs() < 0.1,
        "peak={peak}"
    );
}

#[test]
fn hdr_percentile_rejects_outliers_full_scan() {
    // Below the subsample floor the scan is exhaustive: aligned outliers still get rejected.
    let mut values = vec![(2.5f32, 2.5f32, 2.5f32); 4000];
    values[100] = (60.0, 60.0, 60.0);
    values[2000] = (60.0, 60.0, 60.0);
    let pixels = half_pixels(&values);
    let peak = peak_luminance(&pixels).unwrap();
    assert!((peak - 200.0).abs() < 5.0, "peak={peak}");
}

#[test]
fn hdr_percentile_rejects_aligned_outliers_when_subsampled() {
    // Bright pixels on a fixed 8000 period: jittered subsampling must not alias past 0.1%.
    let mut values = vec![(2.5f32, 2.5f32, 2.5f32); 4_000_000];
    for index in (0..values.len()).step_by(8000) {
        values[index] = (60.0, 60.0, 60.0);
    }
    let pixels = half_pixels(&values);
    let peak = peak_luminance(&pixels).unwrap();
    assert!((peak - 200.0).abs() < 5.0, "peak={peak}");
}

#[test]
fn few_samples_count_whole() {
    let peak = peak_luminance(&half_pixels(&[(2.5, 2.5, 2.5)])).unwrap();
    assert!((peak - 200.0).abs() < 5.0, "peak={peak}");
    // Of two samples the brighter one is needed to reach 99.9 percent.
    let peak = peak_luminance(&half_pixels(&[(2.5, 2.5, 2.5), (1.5, 0.0, 0.0)])).unwrap();
    assert!((peak - 200.0).abs() < 5.0, "peak={peak}");
}

#[test]
fn empty_input_yields_none() {
    assert!(peak_luminance(&[]).is_none());
}

#[test]
fn halves_come_back_from_floats() {
    for half in [0x0400u16, 0x3C00, 0x3C01, 0x7BFF] {
        assert_eq!(float_bits_to_half(half_to_float_bits(half)), half);
    }
    assert_eq!(half_to_f32(0x3C00), 1.0);
    assert_eq!(half_to_f32(0xBC00), 0.0);
    assert_eq!(f32_to_half(1.0), 0x3C00);
    assert_eq!(f32_to_half(-2.0), 0xC000);
    assert_eq!(f32_to_half(1.0e9), 0x7BFF);
    assert_eq!(f32_to_half(f32::NAN), 0);
    assert_eq!(f32_to_half(5.960_464_5e-8), 1);
    assert_eq!(f32_to_half(1.000_488_3), 0x3C00); // halfway rounds to even
    assert_eq!(f32_to_half(1.001_464_8), 0x3C02);
    assert_eq!(f32_to_half(f32::from_bits(0x3300_0000)), 0); // half of the smallest
    assert_eq!(f32_to_half(f32::from_bits(0x3300_0001)), 1);
    assert_eq!(f32_to_half(f32::from_bits(0x33C0_0000)), 2); // one and a half of it
    assert_eq!(f32_to_half(f32::from_bits(0x3420_0000)), 2); // two and a half of it
    assert_eq!(f32_to_half(f32::from_bits(0x387F_FFFF)), 0x0400);
}

#[test]
fn only_positive_normal_halves_count() {
    assert_eq!(positive_normal_half_bits(0x3C00), 0x3C00);
    assert_eq!(positive_normal_half_bits(0xBC00), 0);
    assert_eq!(positive_normal_half_bits(0x0001), 0);
    assert_eq!(positive_normal_half_bits(0x7C00), 0);
}

#[test]
fn channel_maxima_stay_apart() {
    let pixels = half_pixels(&[(0.5, 2.0, 0.25), (1.0, 0.5, 0.125)]);
    assert_eq!(
        channel_maxima_from_half_pixels(&pixels),
        [
            f32_to_half(1.0),
            f32_to_half(2.0),
            f32_to_half(0.25),
            f32_to_half(1.0)
        ]
    );
}

#[test]
fn coding_points_name_the_encoding() {
    let quantizer = cicp_hdr_encoding(9, 16).expect("encoding");
    assert_eq!(quantizer.transfer, HdrTransfer::PerceptualQuantizer);
    assert_eq!(quantizer.primaries, HdrPrimaries::Bt2020);
    let hybrid = cicp_hdr_encoding(12, 18).expect("encoding");
    assert_eq!(hybrid.transfer, HdrTransfer::HybridLogGamma);
    assert_eq!(hybrid.primaries, HdrPrimaries::DisplayP3);
    assert!(cicp_hdr_encoding(9, 13).is_none());
    assert!(icc_hdr_encoding(&[0u8; 16]).is_none());
}

/// Rewrites 16-bit little-endian codes through the expansion table, code for code.
fn expand_to_full_range(source: &[u8], output: &mut [u8], table: &[u16]) {
    for (code, expanded) in source.chunks_exact(2).zip(output.chunks_exact_mut(2)) {
        let value = table[usize::from(u16::from_le_bytes([code[0], code[1]]))];
        expanded.copy_from_slice(&value.to_le_bytes());
    }
}

#[test]
fn the_declared_depth_maps_onto_the_whole_16_bit_range() {
    let table = full_range_expansion(10);
    assert_eq!(table[0], 0);
    assert_eq!(table[1023], u16::MAX);
    // Scaling, not a shift: half the source range lands on half the full range.
    assert_eq!(table[512], 32800);
    assert!(table.windows(2).take(1024).all(|pair| pair[0] <= pair[1]));
}

#[test]
fn sixteen_bit_sources_pass_through_untouched() {
    let table = full_range_expansion(16);
    assert!(table
        .iter()
        .enumerate()
        .all(|(code, expanded)| usize::from(*expanded) == code));
}

#[test]
fn codes_above_the_declared_depth_clamp_to_white() {
    // A broken decoder writing past the range must not wrap around to black.
    let table = full_range_expansion(10);
    assert_eq!(table[1024], u16::MAX);
    assert_eq!(table[65535], u16::MAX);
}

#[test]
fn expansion_rewrites_little_endian_lanes_in_place_order() {
    let table = full_range_expansion(10);
    let source = [0x00, 0x00, 0xFF, 0x03, 0x00, 0x02, 0xFF, 0x03];
    let mut output = [0u8; 8];
    expand_to_full_range(&source, &mut output, &table);
    assert_eq!(output, [0x00, 0x00, 0xFF, 0xFF, 0x20, 0x80, 0xFF, 0xFF]);
}

#[test]
fn a_claimed_depth_is_taken_for_one_there_is() {
    assert_eq!([0, 1, 10, 16, 32].map(source_depth), [1, 1, 10, 16, 16]);
    assert_eq!([1, 8, 10, 16].map(depth_maximum), [1, 255, 1023, 65535]);
}
