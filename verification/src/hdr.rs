//! High dynamic range content: how it is encoded, and how bright its half-float pixels get.

use vstd::prelude::*;

use crate::bytes::reads_word_at;
use crate::image::PrimaryBits;
use crate::icc;
use crate::icc::tag_offset;

verus! {

#[derive(Clone, Copy, PartialEq, Eq, Structural, Debug)]
pub enum HdrTransfer {
    PerceptualQuantizer,
    HybridLogGamma,
}

#[derive(Clone, Copy, PartialEq, Eq, Structural, Debug)]
pub enum HdrPrimaries {
    Bt709,
    Bt2020,
    DisplayP3,
}

#[derive(Clone, Copy, PartialEq, Eq, Structural, Debug)]
pub struct HdrEncoding {
    pub transfer: HdrTransfer,
    pub primaries: HdrPrimaries,
}

/// Red, green and blue of BT.709, which sRGB shares, in xy.
pub const BT709_PRIMARIES: PrimaryBits = (
    (0x3F23_D70A, 0x3EA8_F5C3),
    (0x3E99_999A, 0x3F19_999A),
    (0x3E19_999A, 0x3D75_C28F),
);

/// Red, green and blue of Display P3, in xy.
pub const DISPLAY_P3_PRIMARIES: PrimaryBits = (
    (0x3F2E_147B, 0x3EA3_D70A),
    (0x3E87_AE14, 0x3F30_A3D7),
    (0x3E19_999A, 0x3D75_C28F),
);

/// Red, green and blue of BT.2020, in xy.
pub const BT2020_PRIMARIES: PrimaryBits = (
    (0x3F35_3F7D, 0x3E95_8106),
    (0x3E2E_147B, 0x3F4C_0831),
    (0x3E06_24DD, 0x3D3C_6A7F),
);

impl HdrEncoding {
    /// The primaries the linearized pixels keep.
    pub fn source_primaries(self) -> (primaries: PrimaryBits)
        ensures
            primaries == match self.primaries {
                HdrPrimaries::Bt709 => BT709_PRIMARIES,
                HdrPrimaries::Bt2020 => BT2020_PRIMARIES,
                HdrPrimaries::DisplayP3 => DISPLAY_P3_PRIMARIES,
            },
    {
        match self.primaries {
            HdrPrimaries::Bt709 => BT709_PRIMARIES,
            HdrPrimaries::Bt2020 => BT2020_PRIMARIES,
            HdrPrimaries::DisplayP3 => DISPLAY_P3_PRIMARIES,
        }
    }
}

/// The HDR encoding these CICP code points name.
pub open spec fn encoding_of(primaries: u8, transfer: u8) -> Option<HdrEncoding> {
    let curve = if transfer == 16 {
        Some(HdrTransfer::PerceptualQuantizer)
    } else if transfer == 18 {
        Some(HdrTransfer::HybridLogGamma)
    } else {
        None
    };
    let gamut = if primaries == 1 {
        Some(HdrPrimaries::Bt709)
    } else if primaries == 9 {
        Some(HdrPrimaries::Bt2020)
    } else if primaries == 12 {
        Some(HdrPrimaries::DisplayP3)
    } else {
        None
    };
    match (curve, gamut) {
        (Some(transfer), Some(primaries)) => Some(HdrEncoding { transfer, primaries }),
        _ => None,
    }
}

/// The HDR encoding these CICP code points name; None for every SDR or unknown combination.
pub fn cicp_hdr_encoding(primaries: u8, transfer: u8) -> (encoding: Option<HdrEncoding>)
    ensures
        encoding == encoding_of(primaries, transfer),
{
    let transfer = match transfer {
        16 => HdrTransfer::PerceptualQuantizer,
        18 => HdrTransfer::HybridLogGamma,
        _ => {
            return None;
        },
    };
    let primaries = match primaries {
        1 => HdrPrimaries::Bt709,
        9 => HdrPrimaries::Bt2020,
        12 => HdrPrimaries::DisplayP3,
        _ => {
            return None;
        },
    };
    Some(HdrEncoding { transfer, primaries })
}

/// The HDR encoding a profile's 'cicp' tag names.
pub open spec fn profile_encoding(profile: Seq<u8>) -> Option<HdrEncoding> {
    match icc::tag_place(profile, (0x63, 0x69, 0x63, 0x70)) {
        Some(offset) => if icc::signed_at(profile, offset as int, (0x63, 0x69, 0x63, 0x70)) && offset
            + 10 <= profile.len() {
            encoding_of(profile[offset + 8], profile[offset + 9])
        } else {
            None
        },
        None => None,
    }
}

/// ICC 'cicp' tag as an HDR encoding.
pub fn icc_hdr_encoding(profile: &[u8]) -> (encoding: Option<HdrEncoding>)
    ensures
        encoding == profile_encoding(profile@),
{
    match tag_offset(profile, (0x63, 0x69, 0x63, 0x70)) {
        Some(offset) => if reads_word_at(profile, offset, 0x63, 0x69, 0x63, 0x70)
            && profile.len() >= 10 && offset <= profile.len() - 10 {
            cicp_hdr_encoding(profile[offset + 8], profile[offset + 9])
        } else {
            None
        },
        None => None,
    }
}

/// Bits of a positive normal half; every other pattern counts as 0.
pub open spec fn normal_bits(bits: u16) -> u16 {
    if 0x0400 <= bits < 0x7C00 {
        bits
    } else {
        0
    }
}

/// Bits of a positive normal half (others map to 0); valid bits order like their values.
pub fn positive_normal_half_bits(bits: u16) -> (kept: u16)
    ensures
        kept == normal_bits(bits),
{
    if 0x0400 <= bits && bits < 0x7C00 {
        bits
    } else {
        0
    }
}

/// The half at a channel of a pixel, little-endian.
pub open spec fn half_at(pixels: Seq<u8>, pixel: int, channel: int) -> u16 {
    (pixels[pixel * 8 + channel * 2] + pixels[pixel * 8 + channel * 2 + 1] * 0x100) as u16
}

fn read_half(pixels: &[u8], pixel: usize, channel: usize) -> (bits: u16)
    requires
        pixel * 8 + 8 <= pixels@.len(),
        channel < 4,
    ensures
        bits == half_at(pixels@, pixel as int, channel as int),
{
    assert(pixels.len() <= usize::MAX);
    let place: usize = pixel * 8 + channel * 2;
    pixels[place] as u16 + pixels[place + 1] as u16 * 0x100
}

/// The greatest normal half of a channel among the first `count` pixels.
pub open spec fn channel_maximum(pixels: Seq<u8>, channel: int, count: int) -> u16
    decreases count,
{
    if count <= 0 {
        0
    } else {
        let earlier = channel_maximum(pixels, channel, count - 1);
        let bits = normal_bits(half_at(pixels, count - 1, channel));
        if bits > earlier {
            bits
        } else {
            earlier
        }
    }
}

fn greater(first: u16, second: u16) -> (greatest: u16)
    ensures
        greatest == (if second > first {
            second
        } else {
            first
        }),
{
    if second > first {
        second
    } else {
        first
    }
}

/// Per-channel maxima over the whole pixels; alpha comes last.
pub fn channel_maxima_from_half_pixels(pixels: &[u8]) -> (maxima: [u16; 4])
    ensures
        forall|channel: int|
            0 <= channel < 4 ==> #[trigger] maxima@[channel] == channel_maximum(
                pixels@,
                channel,
                pixels@.len() as int / 8,
            ),
{
    let count: usize = pixels.len() / 8;
    let mut red: u16 = 0;
    let mut green: u16 = 0;
    let mut blue: u16 = 0;
    let mut alpha: u16 = 0;
    let mut pixel: usize = 0;
    while pixel < count
        invariant
            pixel <= count,
            count == pixels@.len() / 8,
            red == channel_maximum(pixels@, 0, pixel as int),
            green == channel_maximum(pixels@, 1, pixel as int),
            blue == channel_maximum(pixels@, 2, pixel as int),
            alpha == channel_maximum(pixels@, 3, pixel as int),
        decreases count - pixel,
    {
        red = greater(red, positive_normal_half_bits(read_half(pixels, pixel, 0)));
        green = greater(green, positive_normal_half_bits(read_half(pixels, pixel, 1)));
        blue = greater(blue, positive_normal_half_bits(read_half(pixels, pixel, 2)));
        alpha = greater(alpha, positive_normal_half_bits(read_half(pixels, pixel, 3)));
        pixel += 1;
    }
    [red, green, blue, alpha]
}

/// A channel maximum is at least every normal half of the channel, and one of them or 0.
pub proof fn lemma_channel_maximum_bounds(pixels: Seq<u8>, channel: int, count: int, pixel: int)
    requires
        0 <= pixel < count,
    ensures
        normal_bits(half_at(pixels, pixel, channel)) <= channel_maximum(pixels, channel, count),
    decreases count,
{
    if pixel < count - 1 {
        lemma_channel_maximum_bounds(pixels, channel, count - 1, pixel);
    }
}

/// Peak-scan histogram resolution in PQ code space.
pub const PEAK_HISTOGRAM_BINS: usize = 4096;

/// From this many pixels on the scan samples some of them.
pub const SUBSAMPLE_MINIMUM_PIXELS: usize = 4000000;

/// The state the sampling jitter starts from.
pub const JITTER_SEED: u32 = 0x9E37_79B9;

/// The next state of the sampling jitter.
pub open spec fn next_jitter(state: u32) -> u32 {
    ((state * 1664525 + 1013904223) % 0x1_0000_0000) as u32
}

fn advance_jitter(state: u32) -> (next: u32)
    ensures
        next == next_jitter(state),
{
    ((state as u64 * 1664525 + 1013904223) % 0x1_0000_0000) as u32
}

/// The greatest normal half among a pixel's colors.
pub open spec fn pixel_maximum(pixels: Seq<u8>, pixel: int) -> u16 {
    let red = normal_bits(half_at(pixels, pixel, 0));
    let green = normal_bits(half_at(pixels, pixel, 1));
    let blue = normal_bits(half_at(pixels, pixel, 2));
    let both = if green > red {
        green
    } else {
        red
    };
    if blue > both {
        blue
    } else {
        both
    }
}

/// The histogram bins of the sampled pixels from `pixel` on; a jittered step skips up to seven.
pub open spec fn sampled_bins(
    pixels: Seq<u8>,
    bins: Seq<u16>,
    subsample: bool,
    pixel: int,
    state: u32,
) -> Seq<u16>
    decreases
            if pixel < pixels.len() / 8 {
                pixels.len() / 8 - pixel
            } else {
                0
            },
{
    if pixel < 0 || pixel >= pixels.len() / 8 {
        Seq::empty()
    } else {
        let bin = bins[pixel_maximum(pixels, pixel) as int];
        let next = next_jitter(state);
        if subsample {
            seq![bin] + sampled_bins(
                pixels,
                bins,
                subsample,
                pixel + 1 + next as int / 0x2000_0000,
                next,
            )
        } else {
            seq![bin] + sampled_bins(pixels, bins, subsample, pixel + 1, state)
        }
    }
}

/// How many samples fall into a bin.
pub open spec fn count_in(samples: Seq<u16>, bin: int) -> int
    decreases samples.len(),
{
    if samples.len() == 0 {
        0
    } else {
        count_in(samples.drop_last(), bin) + if samples.last() == bin {
            1int
        } else {
            0
        }
    }
}

/// How many samples fall into this bin or a lower one.
pub open spec fn count_up_to(samples: Seq<u16>, bin: int) -> int
    decreases bin + 1,
{
    if bin < 0 {
        0
    } else {
        count_up_to(samples, bin - 1) + count_in(samples, bin)
    }
}

/// The lowest bin from `bin` on below which, itself counted, the threshold of samples lies; the last
/// one where none does earlier.
pub open spec fn percentile_from(samples: Seq<u16>, threshold: int, bin: int) -> int
    decreases PEAK_HISTOGRAM_BINS - bin,
{
    if bin >= PEAK_HISTOGRAM_BINS - 1 || count_up_to(samples, bin) >= threshold {
        bin
    } else {
        percentile_from(samples, threshold, bin + 1)
    }
}

/// How many of the samples 99.9 percent of them are, a part of one counted whole.
pub open spec fn percentile_rank(sample_count: int) -> int {
    (sample_count * 999 + 999) / 1000
}

/// What a peak is read from.
#[derive(Clone, Copy, PartialEq, Eq, Structural, Debug)]
pub enum Peak {
    /// Bits of the greatest half: the content lies within SDR white.
    Half(u16),
    /// The 99.9th percentile's histogram bin.
    Bin(usize),
}

/// The samples of the pixels.
pub open spec fn samples_of(pixels: Seq<u8>, bins: Seq<u16>) -> Seq<u16> {
    sampled_bins(
        pixels,
        bins,
        pixels.len() / 8 >= SUBSAMPLE_MINIMUM_PIXELS,
        0,
        JITTER_SEED,
    )
}

/// The peak of linear halves with this greatest half: none without a pixel, the greatest half itself
/// up to 1.0, the percentile above it.
pub open spec fn peak_of(pixels: Seq<u8>, maximum_bits: u16, bins: Seq<u16>) -> Option<Peak> {
    let samples = samples_of(pixels, bins);
    if pixels.len() < 8 {
        None
    } else if normal_bits(maximum_bits) <= 0x3C00 {
        Some(Peak::Half(maximum_bits))
    } else {
        Some(Peak::Bin(percentile_from(samples, percentile_rank(samples.len() as int), 0) as usize))
    }
}

proof fn lemma_one_sample_more(samples: Seq<u16>, sample: u16, bin: int)
    ensures
        count_in(samples.push(sample), bin) == count_in(samples, bin) + if sample == bin {
            1int
        } else {
            0
        },
{
    assert(samples.push(sample).drop_last() =~= samples);
}

proof fn lemma_one_sample_more_up_to(samples: Seq<u16>, sample: u16, bin: int)
    ensures
        count_up_to(samples.push(sample), bin) == count_up_to(samples, bin) + if sample <= bin {
            1int
        } else {
            0
        },
    decreases bin + 1,
{
    if bin >= 0 {
        lemma_one_sample_more_up_to(samples, sample, bin - 1);
        lemma_one_sample_more(samples, sample, bin);
    }
}

proof fn lemma_every_sample_counts(samples: Seq<u16>)
    requires
        forall|index: int| 0 <= index < samples.len() ==> samples[index] < PEAK_HISTOGRAM_BINS,
    ensures
        count_up_to(samples, PEAK_HISTOGRAM_BINS - 1) == samples.len(),
    decreases samples.len(),
{
    if samples.len() == 0 {
        lemma_no_sample_counts(samples, PEAK_HISTOGRAM_BINS - 1);
    } else {
        lemma_every_sample_counts(samples.drop_last());
        lemma_one_sample_more_up_to(samples.drop_last(), samples.last(), PEAK_HISTOGRAM_BINS - 1);
        assert(samples.drop_last().push(samples.last()) =~= samples);
    }
}

proof fn lemma_no_sample_counts(samples: Seq<u16>, bin: int)
    requires
        samples.len() == 0,
    ensures
        count_up_to(samples, bin) == 0,
    decreases bin + 1,
{
    if bin >= 0 {
        lemma_no_sample_counts(samples, bin - 1);
    }
}

proof fn lemma_percentile_is_lowest(samples: Seq<u16>, threshold: int, bin: int)
    requires
        0 <= bin < PEAK_HISTOGRAM_BINS,
        bin > 0 ==> count_up_to(samples, bin - 1) < threshold,
        threshold <= count_up_to(samples, PEAK_HISTOGRAM_BINS - 1),
    ensures
        ({
            let found = percentile_from(samples, threshold, bin);
            &&& bin <= found < PEAK_HISTOGRAM_BINS
            &&& count_up_to(samples, found) >= threshold
            &&& found > 0 ==> count_up_to(samples, found - 1) < threshold
        }),
    decreases PEAK_HISTOGRAM_BINS - bin,
{
    if bin < PEAK_HISTOGRAM_BINS - 1 && count_up_to(samples, bin) < threshold {
        lemma_percentile_is_lowest(samples, threshold, bin + 1);
    }
}

/// The bin a peak is read from is the lowest that, with those below it, holds 99.9 percent of the samples.
pub proof fn lemma_peak_bin_is_the_percentile(samples: Seq<u16>)
    requires
        forall|index: int| 0 <= index < samples.len() ==> samples[index] < PEAK_HISTOGRAM_BINS,
    ensures
        ({
            let bin = percentile_from(samples, percentile_rank(samples.len() as int), 0);
            &&& 0 <= bin < PEAK_HISTOGRAM_BINS
            &&& count_up_to(samples, bin) * 1000 >= samples.len() * 999
            &&& bin > 0 ==> count_up_to(samples, bin - 1) * 1000 < samples.len() * 999
        }),
{
    lemma_every_sample_counts(samples);
    lemma_percentile_is_lowest(samples, percentile_rank(samples.len() as int), 0);
}

/// Peak from a known channel maximum, skipping the scan that would recompute it. `bin_table` holds
/// the histogram bin of every half pattern.
pub fn peak_with_maximum_bits(pixels: &[u8], maximum_bits: u16, bin_table: &Vec<u16>) -> (peak:
    Option<Peak>)
    requires
        bin_table@.len() == 65536,
        forall|index: int|
            0 <= index < 65536 ==> (#[trigger] bin_table@[index]) < PEAK_HISTOGRAM_BINS,
    ensures
        peak == peak_of(pixels@, maximum_bits, bin_table@),
{
    if pixels.len() < 8 {
        return None;
    }
    if positive_normal_half_bits(maximum_bits) <= 0x3C00 {
        return Some(Peak::Half(maximum_bits));
    }
    let pixel_count: usize = pixels.len() / 8;
    let subsample: bool = pixel_count >= SUBSAMPLE_MINIMUM_PIXELS;
    let ghost all = samples_of(pixels@, bin_table@);
    let ghost mut seen: Seq<u16> = Seq::empty();
    let mut histogram: Vec<u64> = Vec::new();
    histogram.resize(PEAK_HISTOGRAM_BINS, 0);
    let mut sample_count: u64 = 0;
    let mut jitter_state: u32 = JITTER_SEED;
    let mut index: usize = 0;
    assert(seen + all =~= all);
    while index < pixel_count
        invariant
            pixel_count == pixels@.len() / 8,
            pixels@.len() <= usize::MAX,
            bin_table@.len() == 65536,
            forall|index: int|
                0 <= index < 65536 ==> (#[trigger] bin_table@[index]) < PEAK_HISTOGRAM_BINS,
            histogram@.len() == PEAK_HISTOGRAM_BINS,
            all == samples_of(pixels@, bin_table@),
            all == seen + sampled_bins(
                pixels@,
                bin_table@,
                subsample,
                index as int,
                jitter_state,
            ),
            sample_count == seen.len(),
            seen.len() <= index,
            forall|bin: int|
                0 <= bin < PEAK_HISTOGRAM_BINS ==> #[trigger] histogram@[bin] == count_in(
                    seen,
                    bin,
                ) && histogram@[bin] <= seen.len(),
        decreases pixel_count - index,
    {
        let red = positive_normal_half_bits(read_half(pixels, index, 0));
        let green = positive_normal_half_bits(read_half(pixels, index, 1));
        let blue = positive_normal_half_bits(read_half(pixels, index, 2));
        let brightest: u16 = greater(greater(red, green), blue);
        let bin: u16 = bin_table[brightest as usize];
        let ghost before = seen;
        let ghost counts = histogram@;
        let counted: u64 = histogram[bin as usize];
        histogram.set(bin as usize, counted + 1);
        sample_count += 1;
        proof {
            seen = seen.push(bin);
            assert forall|other: int| 0 <= other < PEAK_HISTOGRAM_BINS implies #[trigger]
                histogram@[other] == count_in(seen, other) && histogram@[other] <= seen.len() by {
                lemma_one_sample_more(before, bin, other);
                assert(counts[other] == count_in(before, other));
            }
        }
        if subsample {
            jitter_state = advance_jitter(jitter_state);
            let skipped: usize = (jitter_state / 0x2000_0000) as usize;
            assert(skipped <= 7);
            proof {
                let after = sampled_bins(
                    pixels@,
                    bin_table@,
                    subsample,
                    index + 1 + skipped,
                    jitter_state,
                );
                assert(before + (seq![bin] + after) =~= seen + after);
            }
            if skipped >= pixel_count - index {
                proof {
                    assert(sampled_bins(
                        pixels@,
                        bin_table@,
                        subsample,
                        index + 1 + skipped,
                        jitter_state,
                    ) =~= Seq::empty());
                    assert(sampled_bins(
                        pixels@,
                        bin_table@,
                        subsample,
                        pixel_count as int,
                        jitter_state,
                    ) =~= Seq::empty());
                }
                index = pixel_count;
            } else {
                index = index + 1 + skipped;
            }
        } else {
            proof {
                let after = sampled_bins(
                    pixels@,
                    bin_table@,
                    subsample,
                    index + 1,
                    jitter_state,
                );
                assert(before + (seq![bin] + after) =~= seen + after);
            }
            index += 1;
        }
    }
    assert(all =~= seen);
    let threshold: u64 = ((sample_count as u128 * 999 + 999) / 1000) as u64;
    let mut accumulated: u128 = 0;
    let mut bin: usize = 0;
    while bin < PEAK_HISTOGRAM_BINS - 1
        invariant_except_break
            accumulated == count_up_to(all, bin - 1),
            accumulated <= bin * u64::MAX,
        invariant
            bin < PEAK_HISTOGRAM_BINS,
            histogram@.len() == PEAK_HISTOGRAM_BINS,
            threshold == percentile_rank(all.len() as int),
            forall|other: int|
                0 <= other < PEAK_HISTOGRAM_BINS ==> #[trigger] histogram@[other] == count_in(
                    all,
                    other,
                ),
            percentile_from(all, threshold as int, 0) == percentile_from(
                all,
                threshold as int,
                bin as int,
            ),
        ensures
            bin == percentile_from(all, threshold as int, 0),
        decreases PEAK_HISTOGRAM_BINS - bin,
    {
        accumulated = accumulated + histogram[bin] as u128;
        if accumulated >= threshold as u128 {
            break;
        }
        bin += 1;
    }
    Some(Peak::Bin(bin))
}

/// Content peak of linear halves: the greatest half within SDR white, the 99.9th-percentile maximum
/// channel above it.
pub fn peak_from_half_pixels(pixels: &[u8], bin_table: &Vec<u16>) -> (peak: Option<Peak>)
    requires
        bin_table@.len() == 65536,
        forall|index: int|
            0 <= index < 65536 ==> (#[trigger] bin_table@[index]) < PEAK_HISTOGRAM_BINS,
    ensures
        ({
            let count = pixels@.len() as int / 8;
            let red = channel_maximum(pixels@, 0, count);
            let green = channel_maximum(pixels@, 1, count);
            let blue = channel_maximum(pixels@, 2, count);
            let both = if green > red {
                green
            } else {
                red
            };
            peak == peak_of(
                pixels@,
                if blue > both {
                    blue
                } else {
                    both
                },
                bin_table@,
            )
        }),
{
    let maxima = channel_maxima_from_half_pixels(pixels);
    peak_with_maximum_bits(pixels, greater(greater(maxima[0], maxima[1]), maxima[2]), bin_table)
}

/// The depths a coded pixel can have, in bits per channel.
pub open spec fn is_depth(source_bits: u32) -> bool {
    1 <= source_bits <= 16
}

/// The depth a decoder's claim is taken for.
pub fn source_depth(claimed_bits: u32) -> (source_bits: u32)
    ensures
        is_depth(source_bits),
        is_depth(claimed_bits) ==> source_bits == claimed_bits,
        claimed_bits < 1 ==> source_bits == 1,
        claimed_bits > 16 ==> source_bits == 16,
{
    if claimed_bits < 1 {
        1
    } else if claimed_bits > 16 {
        16
    } else {
        claimed_bits
    }
}

/// The greatest code of this many bits.
pub open spec fn greatest_code(source_bits: int) -> int
    decreases source_bits,
{
    if source_bits <= 0 {
        0
    } else {
        2 * greatest_code(source_bits - 1) + 1
    }
}

proof fn lemma_greatest_code_fits(source_bits: int)
    requires
        0 <= source_bits <= 16,
    ensures
        0 <= greatest_code(source_bits) <= 65535,
        source_bits >= 1 ==> greatest_code(source_bits) >= 1,
        source_bits == 16 ==> greatest_code(source_bits) == 65535,
{
    reveal_with_fuel(greatest_code, 17);
}

pub fn depth_maximum(source_bits: u32) -> (maximum: u16)
    requires
        is_depth(source_bits),
    ensures
        maximum == greatest_code(source_bits as int),
        maximum >= 1,
{
    let mut maximum: u16 = 0;
    let mut bits: u32 = 0;
    while bits < source_bits
        invariant
            bits <= source_bits,
            is_depth(source_bits),
            maximum == greatest_code(bits as int),
        decreases source_bits - bits,
    {
        proof {
            lemma_greatest_code_fits(bits + 1);
        }
        maximum = maximum * 2 + 1;
        bits += 1;
    }
    proof {
        lemma_greatest_code_fits(source_bits as int);
    }
    maximum
}

/// A code of this depth on the full 16-bit range, to the nearest; codes past the depth are white.
pub open spec fn full_range(code: int, source_bits: int) -> int {
    let maximum = greatest_code(source_bits);
    if code > maximum {
        65535
    } else {
        (code * 65535 + maximum / 2) / maximum
    }
}

proof fn lemma_scaled_within(code: int, maximum: int)
    requires
        0 <= code <= maximum,
        1 <= maximum <= 65535,
    ensures
        0 <= (code * 65535 + maximum / 2) / maximum <= 65535,
        (maximum * 65535 + maximum / 2) / maximum == 65535,
{
    let scaled = code * 65535 + maximum / 2;
    assert(scaled < 65536 * maximum) by (nonlinear_arith)
        requires
            scaled == code * 65535 + maximum / 2,
            code <= maximum,
            1 <= maximum,
    ;
    assert(scaled / maximum < 65536) by (nonlinear_arith)
        requires
            scaled < 65536 * maximum,
            1 <= maximum,
    ;
    assert(0 <= scaled / maximum) by (nonlinear_arith)
        requires
            0 <= scaled,
            1 <= maximum,
    ;
    vstd::arithmetic::div_mod::lemma_fundamental_div_mod_converse(
        maximum * 65535 + maximum / 2,
        maximum,
        65535,
        maximum / 2,
    );
}

/// The full-range code for every code of a depth; codes past the depth clamp rather than wrap.
pub fn full_range_expansion(source_bits: u32) -> (table: Vec<u16>)
    requires
        is_depth(source_bits),
    ensures
        table@.len() == 65536,
        forall|code: int|
            0 <= code < 65536 ==> #[trigger] table@[code] == full_range(code, source_bits as int),
{
    let maximum: u32 = depth_maximum(source_bits) as u32;
    let mut table: Vec<u16> = Vec::new();
    let mut code: u32 = 0;
    while code < 65536
        invariant
            code <= 65536,
            1 <= maximum <= 65535,
            maximum == greatest_code(source_bits as int),
            table@.len() == code,
            forall|earlier: int|
                0 <= earlier < code ==> #[trigger] table@[earlier] == full_range(
                    earlier,
                    source_bits as int,
                ),
        decreases 65536 - code,
    {
        if code > maximum {
            table.push(0xFFFF);
        } else {
            proof {
                lemma_scaled_within(code as int, maximum as int);
            }
            table.push(((code * 65535 + maximum / 2) / maximum) as u16);
        }
        code += 1;
    }
    table
}

/// A brighter code is no darker on the full range.
pub proof fn lemma_full_range_keeps_order(first: int, second: int, source_bits: int)
    requires
        1 <= source_bits <= 16,
        0 <= first <= second,
    ensures
        0 <= full_range(first, source_bits) <= full_range(second, source_bits) <= 65535,
{
    let maximum = greatest_code(source_bits);
    lemma_greatest_code_fits(source_bits);
    if first <= maximum {
        lemma_scaled_within(first, maximum);
    }
    if second <= maximum {
        lemma_scaled_within(second, maximum);
        vstd::arithmetic::div_mod::lemma_div_is_ordered(
            first * 65535 + maximum / 2,
            second * 65535 + maximum / 2,
            maximum,
        );
    }
}

/// Black stays black, and the depth's white and all past it are white.
pub proof fn lemma_full_range_spans(code: int, source_bits: int)
    requires
        1 <= source_bits <= 16,
        code >= greatest_code(source_bits),
    ensures
        full_range(0, source_bits) == 0,
        full_range(code, source_bits) == 65535,
{
    let maximum = greatest_code(source_bits);
    lemma_greatest_code_fits(source_bits);
    lemma_scaled_within(maximum, maximum);
    assert(maximum / 2 / maximum == 0) by (nonlinear_arith)
        requires
            maximum >= 1,
    ;
}

/// Codes of sixteen bits are on the full range already.
pub proof fn lemma_sixteen_bits_pass_through(code: int)
    requires
        0 <= code <= 65535,
    ensures
        full_range(code, 16) == code,
{
    lemma_greatest_code_fits(16);
    assert((code * 65535 + 32767) / 65535 == code);
}

} // verus!
