//! The single-frame pipeline: which pixel format a still frame is converted to, what happens where a
//! conversion or the scaler refuses, and what the finished image says of its pixels.

use vstd::prelude::*;

use crate::hdr::{HdrEncoding, HdrPrimaries};
use crate::image::{
    DecodedImage, ExifMetadata, ExifModel, Frame, FrameModel, ImageModel, PixelStorage, PrimaryBits,
};
use crate::pixels::MAXIMUM_TEXTURE_DIMENSION;

verus! {

/// A pixel format a source is converted to.
#[derive(Clone, Copy, PartialEq, Eq, Structural, Debug)]
pub enum PixelTarget {
    /// 8-bit premultiplied BGRA.
    Pbgra,
    /// 16-bit integer RGBA.
    Rgba64,
    /// Premultiplied half-float RGBA.
    Half,
}

/// What the pipeline does next.
#[derive(Clone, Copy, PartialEq, Eq, Structural, Debug)]
pub enum FrameStep {
    /// Convert the frame to this format.
    Convert(PixelTarget),
    /// Orient the frame, then scale it under the texture limit.
    Scale,
    /// Convert the oriented frame to 8 bits; the scaler refused its format.
    ConvertForScaling,
    /// Scale the 8-bit frame under the texture limit.
    ScaleFallback,
    /// Convert the scaled frame to this format.
    ConvertScaled(PixelTarget),
    /// Copy the pixels out.
    Copy,
    /// The frame cannot be decoded; the last error stands.
    Refuse,
}

/// What a step came to.
#[derive(Clone, Copy, PartialEq, Eq, Structural, Debug)]
pub enum FrameEvent {
    Accepted,
    Refused,
}

/// A frame on its way through the pipeline.
#[derive(Clone, Copy, PartialEq, Eq, Structural, Debug)]
pub struct FramePipeline {
    pub native_bits: u32,
    pub float_native: bool,
    /// PQ/HLG integers bypass the platform's float conversion, which assumes sRGB.
    pub encoding: Option<HdrEncoding>,
    /// Oversized integers scale first and convert to half after; the scaler rejects halves.
    pub deferred_half: bool,
    pub storage: PixelStorage,
    pub step: FrameStep,
}

/// The pipeline of a frame of this depth, representation, profile encoding and size.
pub open spec fn started(
    native_bits: u32,
    float_native: bool,
    profile_encoding: Option<HdrEncoding>,
    width: u32,
    height: u32,
) -> FramePipeline {
    let high_depth = native_bits > 8;
    let encoding = if float_native {
        None
    } else {
        profile_encoding
    };
    let oversized = width > MAXIMUM_TEXTURE_DIMENSION || height > MAXIMUM_TEXTURE_DIMENSION;
    let deferred_half = high_depth && !float_native && encoding is None && oversized;
    FramePipeline {
        native_bits,
        float_native,
        encoding: if high_depth {
            encoding
        } else {
            None
        },
        deferred_half,
        storage: if high_depth {
            PixelStorage::RgbaHalf
        } else {
            PixelStorage::Bgra8
        },
        step: FrameStep::Convert(
            if !high_depth {
                PixelTarget::Pbgra
            } else if encoding is Some || deferred_half {
                PixelTarget::Rgba64
            } else {
                PixelTarget::Half
            },
        ),
    }
}

impl FramePipeline {
    /// The frame in 8 bits: the PQ/HLG code values are lost along with the depth.
    pub open spec fn in_eight_bits(self, step: FrameStep) -> FramePipeline {
        FramePipeline { storage: PixelStorage::Bgra8, encoding: None, step, ..self }
    }

    /// The pipeline after a step came to this.
    pub open spec fn after(self, event: FrameEvent) -> FramePipeline {
        match (self.step, event) {
            (FrameStep::Convert(_), FrameEvent::Accepted) => FramePipeline {
                step: FrameStep::Scale,
                ..self
            },
            (FrameStep::Convert(PixelTarget::Pbgra), FrameEvent::Refused) => FramePipeline {
                step: FrameStep::Refuse,
                ..self
            },
            (FrameStep::Convert(_), FrameEvent::Refused) => self.in_eight_bits(
                FrameStep::Convert(PixelTarget::Pbgra),
            ),
            (FrameStep::Scale, FrameEvent::Accepted) => FramePipeline {
                step: if self.deferred_half && self.storage == PixelStorage::RgbaHalf {
                    FrameStep::ConvertScaled(PixelTarget::Half)
                } else {
                    FrameStep::Copy
                },
                ..self
            },
            // Refused formats fall back to 8 bits; PQ/HLG keeps the error to avoid false colors.
            (FrameStep::Scale, FrameEvent::Refused) => FramePipeline {
                step: if self.storage == PixelStorage::RgbaHalf && self.encoding is None {
                    FrameStep::ConvertForScaling
                } else {
                    FrameStep::Refuse
                },
                ..self
            },
            (FrameStep::ConvertForScaling, FrameEvent::Accepted) => self.in_eight_bits(
                FrameStep::ScaleFallback,
            ),
            (FrameStep::ScaleFallback, FrameEvent::Accepted) => FramePipeline {
                step: FrameStep::Copy,
                ..self
            },
            (FrameStep::ConvertScaled(_), FrameEvent::Accepted) => FramePipeline {
                step: FrameStep::Copy,
                ..self
            },
            (FrameStep::ConvertScaled(PixelTarget::Half), FrameEvent::Refused) => {
                self.in_eight_bits(FrameStep::ConvertScaled(PixelTarget::Pbgra))
            },
            (FrameStep::Copy, FrameEvent::Accepted) => self,
            (_, FrameEvent::Refused) => FramePipeline { step: FrameStep::Refuse, ..self },
            (FrameStep::Refuse, _) => self,
        }
    }

    pub fn begin(
        native_bits: u32,
        float_native: bool,
        profile_encoding: Option<HdrEncoding>,
        width: u32,
        height: u32,
    ) -> (pipeline: Self)
        ensures
            pipeline == started(native_bits, float_native, profile_encoding, width, height),
    {
        let high_depth: bool = native_bits > 8;
        let encoding = if float_native {
            None
        } else {
            profile_encoding
        };
        let oversized: bool = width > MAXIMUM_TEXTURE_DIMENSION || height
            > MAXIMUM_TEXTURE_DIMENSION;
        let deferred_half: bool = high_depth && !float_native && encoding.is_none() && oversized;
        let target = if !high_depth {
            PixelTarget::Pbgra
        } else if encoding.is_some() || deferred_half {
            PixelTarget::Rgba64
        } else {
            PixelTarget::Half
        };
        FramePipeline {
            native_bits,
            float_native,
            encoding: if high_depth {
                encoding
            } else {
                None
            },
            deferred_half,
            storage: if high_depth {
                PixelStorage::RgbaHalf
            } else {
                PixelStorage::Bgra8
            },
            step: FrameStep::Convert(target),
        }
    }

    /// Takes in what a step came to.
    pub fn advance(&mut self, event: FrameEvent)
        ensures
            *final(self) == old(self).after(event),
    {
        match (self.step, event) {
            (FrameStep::Convert(_), FrameEvent::Accepted) => {
                self.step = FrameStep::Scale;
            },
            (FrameStep::Convert(PixelTarget::Pbgra), FrameEvent::Refused) => {
                self.step = FrameStep::Refuse;
            },
            (FrameStep::Convert(_), FrameEvent::Refused) => {
                self.fall_back(FrameStep::Convert(PixelTarget::Pbgra));
            },
            (FrameStep::Scale, FrameEvent::Accepted) => {
                self.step = if self.deferred_half && self.storage == PixelStorage::RgbaHalf {
                    FrameStep::ConvertScaled(PixelTarget::Half)
                } else {
                    FrameStep::Copy
                };
            },
            (FrameStep::Scale, FrameEvent::Refused) => {
                self.step = if self.storage == PixelStorage::RgbaHalf && self.encoding.is_none() {
                    FrameStep::ConvertForScaling
                } else {
                    FrameStep::Refuse
                };
            },
            (FrameStep::ConvertForScaling, FrameEvent::Accepted) => {
                self.fall_back(FrameStep::ScaleFallback);
            },
            (FrameStep::ScaleFallback, FrameEvent::Accepted) => {
                self.step = FrameStep::Copy;
            },
            (FrameStep::ConvertScaled(_), FrameEvent::Accepted) => {
                self.step = FrameStep::Copy;
            },
            (FrameStep::ConvertScaled(PixelTarget::Half), FrameEvent::Refused) => {
                self.fall_back(FrameStep::ConvertScaled(PixelTarget::Pbgra));
            },
            (FrameStep::Copy, FrameEvent::Accepted) => {},
            (_, FrameEvent::Refused) => {
                self.step = FrameStep::Refuse;
            },
            (FrameStep::Refuse, _) => {},
        }
    }

    fn fall_back(&mut self, step: FrameStep)
        ensures
            *final(self) == old(self).in_eight_bits(step),
    {
        self.storage = PixelStorage::Bgra8;
        self.encoding = None;
        self.step = step;
    }

    /// Steps a pipeline can still take before it copies or refuses, at most.
    pub open spec fn steps_left(self) -> int {
        match self.step {
            FrameStep::Convert(PixelTarget::Pbgra) => 6,
            FrameStep::Convert(_) => 7,
            FrameStep::Scale => 5,
            FrameStep::ConvertForScaling => 2,
            FrameStep::ScaleFallback => 1,
            FrameStep::ConvertScaled(PixelTarget::Half) => 2,
            FrameStep::ConvertScaled(_) => 1,
            FrameStep::Copy => 0,
            FrameStep::Refuse => 0,
        }
    }

    /// Meaningful bits per channel of the pixels; an 8-bit fallback truncates whatever the native
    /// format held.
    pub open spec fn meaningful_bits(self) -> u32 {
        if self.storage == PixelStorage::RgbaHalf {
            self.native_bits
        } else {
            8
        }
    }

    pub fn source_bits_per_channel(&self) -> (bits: u32)
        ensures
            bits == self.meaningful_bits(),
    {
        if self.storage == PixelStorage::RgbaHalf {
            self.native_bits
        } else {
            8
        }
    }

    /// Where the source primaries come from.
    pub open spec fn primaries_from(self) -> PrimariesSource {
        match self.encoding {
            Some(encoding) => PrimariesSource::Encoding(encoding.primaries),
            None => if self.storage == PixelStorage::RgbaHalf && !self.float_native {
                PrimariesSource::Profile
            } else {
                PrimariesSource::Unknown
            },
        }
    }

    /// Where the source primaries come from: only a conversion driven here keeps them, a float native
    /// is scRGB already.
    pub fn primaries_source(&self) -> (source: PrimariesSource)
        ensures
            source == self.primaries_from(),
    {
        match self.encoding {
            Some(encoding) => PrimariesSource::Encoding(encoding.primaries),
            None => if self.storage == PixelStorage::RgbaHalf && !self.float_native {
                PrimariesSource::Profile
            } else {
                PrimariesSource::Unknown
            },
        }
    }

    /// How the peak luminance is found: half-stored pixels are linear light whatever the route.
    pub fn peak_source(&self) -> (source: PeakSource)
        ensures
            source == (if self.storage != PixelStorage::RgbaHalf {
                PeakSource::Absent
            } else if self.encoding is Some {
                PeakSource::Linearized
            } else {
                PeakSource::Scan
            }),
    {
        if self.storage != PixelStorage::RgbaHalf {
            PeakSource::Absent
        } else if self.encoding.is_some() {
            PeakSource::Linearized
        } else {
            PeakSource::Scan
        }
    }
}

/// Where the source primaries come from.
#[derive(Clone, Copy, PartialEq, Eq, Structural, Debug)]
pub enum PrimariesSource {
    Encoding(HdrPrimaries),
    Profile,
    Unknown,
}

/// How the peak luminance is found.
#[derive(Clone, Copy, PartialEq, Eq, Structural, Debug)]
pub enum PeakSource {
    /// 8-bit pixels have none.
    Absent,
    /// From the maximum the linearization wrote.
    Linearized,
    /// From a scan of the pixels.
    Scan,
}

/// Every step brings the pipeline nearer its end, whatever it comes to.
pub proof fn lemma_pipeline_ends(pipeline: FramePipeline, event: FrameEvent)
    ensures
        pipeline.steps_left() > 0 ==> 0 <= pipeline.after(event).steps_left()
            < pipeline.steps_left(),
{
}

/// What holds of a pipeline on its way: an encoding goes with half storage, with integers wider than 8
/// bits and with no deferral; a deferral is of an integer source wider than 8 bits; a step that
/// converts to 8 bits, or follows one, stores 8 bits.
pub open spec fn on_its_way(pipeline: FramePipeline) -> bool {
    &&& pipeline.encoding is Some ==> pipeline.storage == PixelStorage::RgbaHalf
        && !pipeline.float_native && !pipeline.deferred_half
    &&& pipeline.deferred_half ==> !pipeline.float_native && pipeline.native_bits > 8
    &&& pipeline.storage == PixelStorage::RgbaHalf ==> pipeline.native_bits > 8
    &&& pipeline.step == FrameStep::Convert(PixelTarget::Pbgra) || pipeline.step
        == FrameStep::ScaleFallback || pipeline.step == FrameStep::ConvertScaled(
        PixelTarget::Pbgra,
    ) ==> pipeline.storage == PixelStorage::Bgra8
    &&& pipeline.step == FrameStep::ConvertForScaling ==> pipeline.encoding is None
    &&& pipeline.step == FrameStep::ConvertScaled(PixelTarget::Half) ==> pipeline.deferred_half
        && pipeline.storage == PixelStorage::RgbaHalf
}

/// A pipeline starts on its way and stays on it.
pub proof fn lemma_pipeline_stays_on_its_way(
    pipeline: FramePipeline,
    event: FrameEvent,
    native_bits: u32,
    float_native: bool,
    profile_encoding: Option<HdrEncoding>,
    width: u32,
    height: u32,
)
    ensures
        on_its_way(started(native_bits, float_native, profile_encoding, width, height)),
        on_its_way(pipeline) ==> on_its_way(pipeline.after(event)),
{
}

/// A source of 8 bits or fewer stays in 8 bits, and false colors are never shown: PQ/HLG content that
/// the scaler refuses is refused.
pub proof fn lemma_pipeline_shows_no_false_colors(pipeline: FramePipeline)
    requires
        on_its_way(pipeline),
    ensures
        pipeline.native_bits <= 8 ==> pipeline.storage == PixelStorage::Bgra8
            && pipeline.meaningful_bits() == 8,
        pipeline.step == FrameStep::Scale && pipeline.encoding is Some ==> pipeline.after(
            FrameEvent::Refused,
        ).step == FrameStep::Refuse,
{
}

/// A still image as the pipeline leaves it.
pub open spec fn still(
    size: (u32, u32),
    pixel_size: (u32, u32),
    format_name: Seq<char>,
    icc_profile: Option<Seq<u8>>,
    exif: Option<ExifModel>,
    storage: PixelStorage,
    source_bits_per_channel: u32,
    peak_luminance_nits: Option<u32>,
    source_primaries: Option<PrimaryBits>,
    pixels: Seq<u8>,
) -> ImageModel {
    ImageModel {
        width: size.0,
        height: size.1,
        pixel_width: pixel_size.0,
        pixel_height: pixel_size.1,
        format_name,
        icc_profile,
        exif,
        storage,
        source_bits_per_channel,
        peak_luminance_nits,
        source_primaries,
        frames: seq![FrameModel { pixels, delay_milliseconds: 0 }],
        frames_truncated: false,
        gain_map: None,
        gain_map_plane: None,
    }
}

/// Puts a still image together.
pub fn still_image(
    size: (u32, u32),
    pixel_size: (u32, u32),
    format_name: &'static str,
    icc_profile: Option<Vec<u8>>,
    exif: Option<ExifMetadata>,
    storage: PixelStorage,
    source_bits_per_channel: u32,
    peak_luminance_nits: Option<u32>,
    source_primaries: Option<PrimaryBits>,
    pixels: Vec<u8>,
) -> (image: DecodedImage)
    ensures
        image@ == still(
            size,
            pixel_size,
            format_name@,
            crate::image::optional_bytes(icc_profile),
            match exif {
                Some(facts) => Some(facts@),
                None => None,
            },
            storage,
            source_bits_per_channel,
            peak_luminance_nits,
            source_primaries,
            pixels@,
        ),
{
    let frame = Frame { pixels, delay_milliseconds: 0 };
    let ghost shown = frame@;
    let mut frames: Vec<Frame> = Vec::new();
    frames.push(frame);
    assert(crate::image::frames_model(frames@) =~= seq![shown]);
    DecodedImage {
        width: size.0,
        height: size.1,
        pixel_width: pixel_size.0,
        pixel_height: pixel_size.1,
        format_name,
        icc_profile,
        exif,
        storage,
        source_bits_per_channel,
        peak_luminance_nits,
        source_primaries,
        frames,
        frames_truncated: false,
        gain_map: None,
        gain_map_plane: None,
    }
}

} // verus!
