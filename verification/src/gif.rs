//! Animations whose frames the platform decodes one by one: where each frame goes on the canvas, how
//! long it shows, and when to stop reading.

use vstd::prelude::*;

use crate::compositor;
use crate::compositor::{
    finish_animation, CompositionModel, FrameBlend, FrameCompositor, FrameDisposal, FrameRegion,
    RegionModel,
};
use crate::image;
use crate::image::DecodedImage;

verus! {

/// What a frame's own metadata says; None where it says nothing.
#[derive(Clone, Copy, PartialEq, Eq, Debug)]
pub struct FrameMetadata {
    pub left: Option<u32>,
    pub top: Option<u32>,
    pub delay_centiseconds: Option<u32>,
    pub disposal: Option<u32>,
}

/// The canvas a container declares: None where it has no logical screen and the first frame sets the
/// size.
pub fn declared_canvas(width: Option<u32>, height: Option<u32>) -> (size: Option<(u32, u32)>)
    ensures
        size == (match (width, height) {
            (Some(across), Some(down)) => if across > 0 && down > 0 {
                Some((across, down))
            } else {
                None
            },
            _ => None,
        }),
{
    match (width, height) {
        (Some(across), Some(down)) => {
            if across > 0 && down > 0 {
                Some((across, down))
            } else {
                None
            }
        },
        _ => None,
    }
}

/// How long a frame shows: 100 ms unless it asks for at least 20.
pub open spec fn delay_of(centiseconds: Option<u32>) -> int {
    match centiseconds {
        Some(count) => if count * 10 >= 20 {
            count * 10
        } else {
            100
        },
        None => 100,
    }
}

pub fn frame_delay(centiseconds: Option<u32>) -> (milliseconds: u32)
    requires
        delay_of(centiseconds) <= u32::MAX,
    ensures
        milliseconds == delay_of(centiseconds),
{
    match centiseconds {
        Some(count) => {
            if count >= 2 {
                count * 10
            } else {
                100
            }
        },
        None => 100,
    }
}

/// What happens to a frame once it has shown.
pub open spec fn disposal_of(code: Option<u32>) -> FrameDisposal {
    match code {
        Some(2) => FrameDisposal::Background,
        Some(3) => FrameDisposal::Previous,
        _ => FrameDisposal::Keep,
    }
}

pub fn frame_disposal(code: Option<u32>) -> (disposal: FrameDisposal)
    ensures
        disposal == disposal_of(code),
{
    match code {
        Some(2) => FrameDisposal::Background,
        Some(3) => FrameDisposal::Previous,
        _ => FrameDisposal::Keep,
    }
}

pub open spec fn coordinate_of(declared: Option<u32>) -> u32 {
    match declared {
        Some(place) => place,
        None => 0,
    }
}

fn coordinate(declared: Option<u32>) -> (place: u32)
    ensures
        place == coordinate_of(declared),
{
    match declared {
        Some(place) => place,
        None => 0,
    }
}

/// A frame where its metadata places it: a sub-rectangle that composites over the canvas.
pub open spec fn placed(metadata: FrameMetadata, pixels: Seq<u8>, width: u32, height: u32) -> RegionModel {
    RegionModel {
        pixels,
        left: coordinate_of(metadata.left),
        top: coordinate_of(metadata.top),
        width,
        height,
        blend: FrameBlend::Over,
        disposal: disposal_of(metadata.disposal),
        delay_milliseconds: delay_of(metadata.delay_centiseconds) as u32,
    }
}

/// What the animation asks for next.
#[derive(Clone, Copy, PartialEq, Eq, Structural, Debug)]
pub enum AnimationStep {
    /// Read this frame.
    Read(u32),
    /// The decode was cancelled.
    Cancelled,
    /// There is nothing more to read.
    Finish,
}

/// An animation being read frame by frame.
pub struct AnimationReading {
    pub compositor: FrameCompositor,
    pub frame_count: u32,
    /// Frames read so far.
    pub index: u32,
    /// The first frame's profile stands for the animation.
    pub icc_profile: Option<Vec<u8>>,
}

#[verifier::ext_equal]
pub struct ReadingModel {
    pub composition: CompositionModel,
    pub frame_count: u32,
    pub index: u32,
    pub icc_profile: Option<Seq<u8>>,
}

impl View for AnimationReading {
    type V = ReadingModel;

    open spec fn view(&self) -> ReadingModel {
        ReadingModel {
            composition: self.compositor@,
            frame_count: self.frame_count,
            index: self.index,
            icc_profile: image::optional_bytes(self.icc_profile),
        }
    }
}

impl ReadingModel {
    /// Every frame read is on the composition, and no more than there are.
    pub open spec fn sound(self) -> bool {
        &&& self.composition.sound()
        &&& self.index <= self.frame_count
        &&& self.composition.frames.len() == self.index
    }

    /// What comes next.
    pub open spec fn step(self, cancelled: bool) -> AnimationStep {
        if self.index >= self.frame_count {
            AnimationStep::Finish
        } else if cancelled {
            AnimationStep::Cancelled
        } else if self.composition.accepts(self.frame_count as int) {
            AnimationStep::Read(self.index)
        } else {
            AnimationStep::Finish
        }
    }

    /// The reading once it has said what comes next: a frame that does not fit marks it cut short.
    pub open spec fn stepped(self, cancelled: bool) -> ReadingModel {
        if self.index < self.frame_count && !cancelled {
            ReadingModel {
                composition: self.composition.asked(self.frame_count as int),
                ..self
            }
        } else {
            self
        }
    }

    /// The reading with one more frame on the canvas.
    pub open spec fn with_frame(self, region: RegionModel, icc_profile: Option<Seq<u8>>) -> ReadingModel {
        ReadingModel {
            composition: self.composition.with_frame(region),
            index: (self.index + 1) as u32,
            icc_profile: if self.index == 0 {
                icc_profile
            } else {
                self.icc_profile
            },
            ..self
        }
    }
}

impl AnimationReading {
    /// Begins on a canvas; None where there is none.
    pub fn on_canvas(canvas: Option<FrameCompositor>, frame_count: u32) -> (reading: Option<Self>)
        ensures
            match (canvas, reading) {
                (Some(compositor), Some(begun)) => begun@ == (ReadingModel {
                    composition: compositor@,
                    frame_count,
                    index: 0,
                    icc_profile: None,
                }),
                (None, None) => true,
                _ => false,
            },
    {
        match canvas {
            Some(compositor) => Some(
                AnimationReading { compositor, frame_count, index: 0, icc_profile: None },
            ),
            None => None,
        }
    }

    /// Begins on a canvas of this size; None where it is past the budget or the machine has no memory
    /// for it, which a canvas without pixels needs none of.
    pub fn begin(width: u32, height: u32, frame_count: u32) -> (reading: Option<Self>)
        ensures
            reading matches Some(begun) ==> begun@ == (ReadingModel {
                composition: compositor::blank_composition(width, height),
                frame_count,
                index: 0,
                icc_profile: None,
            }) && begun@.sound(),
            compositor::canvas_bytes(width, height) > crate::pixels::MAXIMUM_ANIMATION_FRAMES_BYTES
                ==> reading is None,
            width == 0 || height == 0 ==> reading is Some,
    {
        AnimationReading::on_canvas(FrameCompositor::new(width, height), frame_count)
    }

    /// Says what comes next. The container's frame count is real, so the budget is known after the
    /// first frame.
    pub fn next_step(&mut self, cancelled: bool) -> (step: AnimationStep)
        requires
            old(self)@.sound(),
        ensures
            step == old(self)@.step(cancelled),
            final(self)@ == old(self)@.stepped(cancelled),
            final(self)@.sound(),
    {
        if self.index >= self.frame_count {
            AnimationStep::Finish
        } else if cancelled {
            AnimationStep::Cancelled
        } else if self.compositor.accepts_another(self.frame_count as u64) {
            AnimationStep::Read(self.index)
        } else {
            AnimationStep::Finish
        }
    }

    /// Puts the frame just read on the canvas.
    pub fn add_frame(
        &mut self,
        pixels: &[u8],
        width: u32,
        height: u32,
        metadata: FrameMetadata,
        icc_profile: Option<Vec<u8>>,
    )
        requires
            old(self)@.sound(),
            old(self)@.index < old(self)@.frame_count,
            pixels@.len() == width * height * 4,
            delay_of(metadata.delay_centiseconds) <= u32::MAX,
        ensures
            final(self)@ == old(self)@.with_frame(
                placed(metadata, pixels@, width, height),
                image::optional_bytes(icc_profile),
            ),
            final(self)@.sound(),
    {
        let region = FrameRegion {
            pixels,
            left: coordinate(metadata.left),
            top: coordinate(metadata.top),
            width,
            height,
            blend: FrameBlend::Over,
            disposal: frame_disposal(metadata.disposal),
            delay_milliseconds: frame_delay(metadata.delay_centiseconds),
        };
        proof {
            assert(region@ =~= placed(metadata, pixels@, width, height));
            compositor::lemma_region_is_held(self.compositor@, region@);
        }
        self.compositor.add_frame(region);
        if self.index == 0 {
            self.icc_profile = icc_profile;
        }
        self.index += 1;
    }

    /// The animation as an image.
    pub fn finish(self, format_name: &'static str) -> (image: DecodedImage)
        ensures
            image@ == compositor::composed_image(
                self@.composition,
                self@.icc_profile,
                format_name@,
            ),
    {
        finish_animation(self.compositor, self.icc_profile, format_name)
    }
}

/// A reading ends: each step that reads brings it nearer the declared count.
pub proof fn lemma_reading_ends(
    reading: ReadingModel,
    region: RegionModel,
    icc_profile: Option<Seq<u8>>,
)
    requires
        reading.step(false) is Read,
    ensures
        reading.step(false) == AnimationStep::Read(reading.index),
        reading.stepped(false).with_frame(region, icc_profile).index == reading.index + 1,
        reading.stepped(false).with_frame(region, icc_profile).index <= reading.frame_count,
{
}

/// An animation past the budget is read up to its first frame and keeps that frame alone.
pub proof fn lemma_oversized_animation_keeps_its_first_frame(reading: ReadingModel)
    requires
        reading.sound(),
        reading.frame_count > 1,
        crate::pixels::past_animation_budget(
            reading.frame_count as int,
            reading.composition.canvas.len() as int,
        ),
    ensures
        reading.index == 0 ==> reading.step(false) == AnimationStep::Read(0),
        reading.index == 1 ==> reading.step(false) == AnimationStep::Finish && reading.stepped(
            false,
        ).composition.kept_frames() == reading.composition.frames && reading.stepped(
            false,
        ).composition.truncated,
{
}

} // verus!
