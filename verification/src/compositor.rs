//! The canvas an animation composes onto; GIF, APNG, and WebP share these rules.

use vstd::prelude::*;

use crate::image;
use crate::image::{DecodedImage, Frame, FrameModel, ImageModel, PixelStorage};
use crate::pixels;
use crate::pixels::{
    animation_budget_exceeded, blend_over, clear_rectangle, copy_rectangle, try_zeroed_buffer,
    MAXIMUM_ANIMATION_FRAMES_BYTES,
};

verus! {

#[derive(Clone, Copy, PartialEq, Eq, Structural, Debug)]
pub enum FrameBlend {
    Over,
    Replace,
}

/// What the canvas keeps once the frame has been shown.
#[derive(Clone, Copy, PartialEq, Eq, Structural, Debug)]
pub enum FrameDisposal {
    Keep,
    Background,
    Previous,
}

/// One frame as its container places it on the canvas.
pub struct FrameRegion<'pixels> {
    pub pixels: &'pixels [u8],
    pub left: u32,
    pub top: u32,
    pub width: u32,
    pub height: u32,
    pub blend: FrameBlend,
    pub disposal: FrameDisposal,
    pub delay_milliseconds: u32,
}

#[verifier::ext_equal]
pub struct RegionModel {
    pub pixels: Seq<u8>,
    pub left: u32,
    pub top: u32,
    pub width: u32,
    pub height: u32,
    pub blend: FrameBlend,
    pub disposal: FrameDisposal,
    pub delay_milliseconds: u32,
}

impl<'pixels> View for FrameRegion<'pixels> {
    type V = RegionModel;

    open spec fn view(&self) -> RegionModel {
        RegionModel {
            pixels: self.pixels@,
            left: self.left,
            top: self.top,
            width: self.width,
            height: self.height,
            blend: self.blend,
            disposal: self.disposal,
            delay_milliseconds: self.delay_milliseconds,
        }
    }
}

/// An animation under composition.
pub struct FrameCompositor {
    pub canvas: Vec<u8>,
    pub width: u32,
    pub height: u32,
    pub frames: Vec<Frame>,
    pub truncated: bool,
}

#[verifier::ext_equal]
pub struct CompositionModel {
    pub canvas: Seq<u8>,
    pub width: u32,
    pub height: u32,
    pub frames: Seq<FrameModel>,
    pub truncated: bool,
}

impl View for FrameCompositor {
    type V = CompositionModel;

    open spec fn view(&self) -> CompositionModel {
        CompositionModel {
            canvas: self.canvas@,
            width: self.width,
            height: self.height,
            frames: image::frames_model(self.frames@),
            truncated: self.truncated,
        }
    }
}

/// Bytes of a canvas of this size.
pub open spec fn canvas_bytes(width: u32, height: u32) -> int {
    width * height * 4
}

/// An animation with nothing composed yet, on a clear canvas.
pub open spec fn blank_composition(width: u32, height: u32) -> CompositionModel {
    CompositionModel {
        canvas: Seq::new(canvas_bytes(width, height) as nat, |index: int| 0u8),
        width,
        height,
        frames: Seq::empty(),
        truncated: false,
    }
}

impl CompositionModel {
    /// The canvas is as large as its size says, every frame is as large as the canvas, and one
    /// frame fits the budget.
    pub open spec fn sound(self) -> bool {
        &&& self.canvas.len() == canvas_bytes(self.width, self.height)
        &&& canvas_bytes(self.width, self.height) <= MAXIMUM_ANIMATION_FRAMES_BYTES
        &&& forall|index: int|
            0 <= index < self.frames.len() ==> (#[trigger] self.frames[index]).pixels.len()
                == self.canvas.len()
    }

    /// A region's buffer holds every row of it that shows.
    pub open spec fn holds(self, region: RegionModel) -> bool {
        pixels::covers_visible(
            region.pixels.len() as int,
            self.width,
            self.height,
            region.width,
            region.height,
            region.left,
            region.top,
        )
    }

    /// The canvas with a region on it.
    pub open spec fn composed(self, region: RegionModel) -> Seq<u8> {
        match region.blend {
            FrameBlend::Over => pixels::blended_over(
                self.canvas,
                self.width,
                self.height,
                region.pixels,
                region.width,
                region.height,
                region.left,
                region.top,
            ),
            FrameBlend::Replace => pixels::copied_onto(
                self.canvas,
                self.width,
                self.height,
                region.pixels,
                region.width,
                region.height,
                region.left,
                region.top,
            ),
        }
    }

    /// The composed canvas kept as a frame, then disposed of as the region says.
    pub open spec fn with_frame(self, region: RegionModel) -> CompositionModel {
        let composed = self.composed(region);
        CompositionModel {
            canvas: match region.disposal {
                FrameDisposal::Keep => composed,
                FrameDisposal::Background => pixels::cleared(
                    composed,
                    self.width,
                    self.height,
                    region.left,
                    region.top,
                    region.width,
                    region.height,
                ),
                FrameDisposal::Previous => self.canvas,
            },
            frames: self.frames.push(
                FrameModel {
                    pixels: composed,
                    delay_milliseconds: region.delay_milliseconds,
                },
            ),
            ..self
        }
    }

    /// Whether this many frames still fit the budget; the first one always does.
    pub open spec fn accepts(self, declared_frames: int) -> bool {
        self.frames.len() == 0 || !pixels::past_animation_budget(
            declared_frames,
            self.canvas.len() as int,
        )
    }

    /// The composition after a question whether this many frames fit; a refusal marks it.
    pub open spec fn asked(self, declared_frames: int) -> CompositionModel {
        CompositionModel {
            truncated: self.truncated || !self.accepts(declared_frames),
            ..self
        }
    }

    /// Over the budget the animation collapses to its first frame.
    pub open spec fn kept_frames(self) -> Seq<FrameModel> {
        if self.truncated && self.frames.len() > 1 {
            self.frames.take(1)
        } else {
            self.frames
        }
    }
}

proof fn lemma_canvas_holds_any_rectangle(
    width: u32,
    height: u32,
    left: u32,
    top: u32,
    region_width: u32,
    region_height: u32,
)
    ensures
        pixels::canvas_holds(
            canvas_bytes(width, height),
            width,
            height,
            region_width,
            region_height,
            left,
            top,
        ),
{
    let across = pixels::visible_extent(width as int, region_width as int, left as int);
    let down = pixels::visible_extent(height as int, region_height as int, top as int);
    if across > 0 && down > 0 {
        assert((top + down - 1) * width + width <= height * width) by (nonlinear_arith)
            requires
                top + down <= height,
                0 <= width,
        ;
        assert(height * width == width * height) by (nonlinear_arith);
    } else {
        assert(0 <= width * height) by (nonlinear_arith);
    }
}

impl FrameCompositor {
    /// A composition on a canvas of this size: None when the canvas alone exceeds the frame budget
    /// or no zeroed buffer for it could be had.
    pub fn on_buffer(width: u32, height: u32, buffer: Option<Vec<u8>>) -> (compositor: Option<Self>)
        requires
            buffer matches Some(zeroed) ==> zeroed@ == Seq::new(
                canvas_bytes(width, height) as nat,
                |index: int| 0u8,
            ),
        ensures
            match compositor {
                Some(blank) => blank@ == blank_composition(width, height) && blank@.sound()
                    && buffer is Some && canvas_bytes(width, height)
                    <= MAXIMUM_ANIMATION_FRAMES_BYTES,
                None => buffer is None || canvas_bytes(width, height)
                    > MAXIMUM_ANIMATION_FRAMES_BYTES,
            },
    {
        match buffer {
            Some(canvas) => {
                if animation_budget_exceeded(1, canvas.len() as u64) {
                    assert(canvas@.len() == canvas_bytes(width, height)) by {
                        assert(0 <= width * height) by (nonlinear_arith);
                    }
                    return None;
                }
                assert(canvas@.len() == canvas_bytes(width, height)) by {
                    assert(0 <= width * height) by (nonlinear_arith);
                }
                let blank = FrameCompositor {
                    canvas,
                    width,
                    height,
                    frames: Vec::new(),
                    truncated: false,
                };
                assert(blank@ =~= blank_composition(width, height));
                Some(blank)
            },
            None => None,
        }
    }

    /// None when the canvas alone exceeds the frame budget or cannot be reserved. A canvas without pixels
    /// needs no memory and is always had.
    pub fn new(width: u32, height: u32) -> (compositor: Option<Self>)
        ensures
            compositor matches Some(blank) ==> blank@ == blank_composition(width, height)
                && blank@.sound(),
            canvas_bytes(width, height) > MAXIMUM_ANIMATION_FRAMES_BYTES ==> compositor is None,
            width == 0 || height == 0 ==> compositor is Some,
    {
        assert(width * height <= u32::MAX * u32::MAX) by (nonlinear_arith)
            requires
                width <= u32::MAX,
                height <= u32::MAX,
        ;
        assert(0 <= width * height) by (nonlinear_arith);
        assert(width == 0 || height == 0 ==> width * height == 0) by (nonlinear_arith);
        let pixel_count: u64 = width as u64 * height as u64;
        // Four bytes a pixel past the limit means more than a quarter of it in pixels.
        if pixel_count > 268435456 {
            return None;
        }
        let bytes: usize = pixel_count as usize * 4;
        FrameCompositor::on_buffer(width, height, try_zeroed_buffer(bytes))
    }

    pub fn frames_so_far(&self) -> (count: usize)
        ensures
            count == self@.frames.len(),
    {
        self.frames.len()
    }

    /// Whether one frame more fits the budget; a refusal marks the animation truncated.
    pub fn accepts_one_more(&mut self) -> (accepted: bool)
        requires
            old(self)@.sound(),
        ensures
            accepted == old(self)@.accepts(old(self)@.frames.len() as int + 1),
            final(self)@ == old(self)@.asked(old(self)@.frames.len() as int + 1),
            final(self)@.sound(),
    {
        assert(self@.frames.len() == self.frames@.len());
        self.accepts_frames(self.frames.len() as u128 + 1)
    }

    /// Whether `declared_frames` still fit the budget; a refusal marks the animation truncated.
    pub fn accepts_another(&mut self, declared_frames: u64) -> (accepted: bool)
        requires
            old(self)@.sound(),
        ensures
            accepted == old(self)@.accepts(declared_frames as int),
            final(self)@ == old(self)@.asked(declared_frames as int),
            final(self)@.sound(),
    {
        self.accepts_frames(declared_frames as u128)
    }

    fn accepts_frames(&mut self, declared_frames: u128) -> (accepted: bool)
        requires
            old(self)@.sound(),
            declared_frames <= 0x1_0000_0000_0000_0000,
        ensures
            accepted == old(self)@.accepts(declared_frames as int),
            final(self)@ == old(self)@.asked(declared_frames as int),
            final(self)@.sound(),
    {
        assert(self@.frames.len() == self.frames@.len());
        let length: u128 = self.canvas.len() as u128;
        assert(declared_frames * length <= 0x1_0000_0000_0000_0000 * 0x1_0000_0000)
            by (nonlinear_arith)
            requires
                declared_frames <= 0x1_0000_0000_0000_0000,
                length <= 0x1_0000_0000,
        ;
        if self.frames.len() > 0 && declared_frames * length
            > MAXIMUM_ANIMATION_FRAMES_BYTES as u128 {
            self.truncated = true;
            return false;
        }
        true
    }

    /// Composes the region, keeps the result as a frame, then applies the disposal.
    pub fn add_frame(&mut self, region: FrameRegion<'_>)
        requires
            old(self)@.sound(),
            old(self)@.holds(region@),
        ensures
            final(self)@ == old(self)@.with_frame(region@),
            final(self)@.sound(),
    {
        let ghost before = self@;
        proof {
            lemma_canvas_holds_any_rectangle(
                self.width,
                self.height,
                region.left,
                region.top,
                region.width,
                region.height,
            );
        }
        let mut composed: Vec<u8> = self.canvas.clone();
        assert(composed@ =~= self.canvas@);
        match region.blend {
            FrameBlend::Over => blend_over(
                &mut composed,
                self.width,
                self.height,
                region.pixels,
                region.width,
                region.height,
                region.left,
                region.top,
            ),
            FrameBlend::Replace => copy_rectangle(
                &mut composed,
                self.width,
                self.height,
                region.pixels,
                region.width,
                region.height,
                region.left,
                region.top,
            ),
        }
        assert(composed@ == before.composed(region@));
        match region.disposal {
            FrameDisposal::Previous => {},
            FrameDisposal::Keep => {
                self.canvas = composed.clone();
                assert(self.canvas@ =~= composed@);
            },
            FrameDisposal::Background => {
                let mut canvas: Vec<u8> = composed.clone();
                assert(canvas@ =~= composed@);
                clear_rectangle(
                    &mut canvas,
                    self.width,
                    self.height,
                    region.left,
                    region.top,
                    region.width,
                    region.height,
                );
                self.canvas = canvas;
            },
        }
        let frame = Frame { pixels: composed, delay_milliseconds: region.delay_milliseconds };
        self.frames.push(frame);
        proof {
            assert(self@.frames =~= before.frames.push(frame@));
            assert(self@ =~= before.with_frame(region@));
            assert forall|index: int| 0 <= index < self@.frames.len() implies (
            #[trigger] self@.frames[index]).pixels.len() == self@.canvas.len() by {
                if index < before.frames.len() {
                    assert(before.frames[index].pixels.len() == before.canvas.len());
                }
            }
        }
    }

    /// The frames and whether the animation was cut short: over the budget it collapses to its first
    /// frame, the same for every format.
    pub fn finish(self) -> (finished: (Vec<Frame>, bool))
        ensures
            image::frames_model(finished.0@) == self@.kept_frames(),
            finished.1 == self@.truncated,
    {
        let mut frames = self.frames;
        let ghost all = image::frames_model(frames@);
        assert(all.len() == frames@.len());
        if self.truncated {
            frames.truncate(1);
            proof {
                if all.len() > 1 {
                    assert(image::frames_model(frames@) =~= all.take(1));
                }
            }
        }
        (frames, self.truncated)
    }
}

/// A frame shown over the canvas and disposed to what was there before leaves the canvas as it was;
/// one that is kept leaves the canvas as shown.
pub proof fn lemma_disposal_decides_the_canvas(composition: CompositionModel, region: RegionModel)
    ensures
        region.disposal == FrameDisposal::Previous ==> composition.with_frame(region).canvas
            == composition.canvas,
        region.disposal == FrameDisposal::Keep ==> composition.with_frame(region).canvas
            == composition.with_frame(region).frames.last().pixels,
        composition.with_frame(region).frames.drop_last() == composition.frames,
{
    assert(composition.with_frame(region).frames.drop_last() =~= composition.frames);
}

/// A composition that is asked before each frame never holds frames past the budget, but for the
/// first.
pub proof fn lemma_composition_stays_in_budget(composition: CompositionModel)
    requires
        composition.sound(),
        composition.accepts(composition.frames.len() as int + 1),
    ensures
        (composition.frames.len() + 1) * composition.canvas.len()
            <= MAXIMUM_ANIMATION_FRAMES_BYTES,
{
    if composition.frames.len() == 0 {
        assert(1 * composition.canvas.len() == composition.canvas.len()) by (nonlinear_arith);
    }
}

/// An animation that was cut short keeps one frame at most.
pub proof fn lemma_truncated_animation_keeps_one_frame(composition: CompositionModel)
    ensures
        composition.truncated ==> composition.kept_frames().len() <= 1,
        !composition.truncated ==> composition.kept_frames() == composition.frames,
        composition.frames.len() > 0 ==> composition.kept_frames().len() > 0
            && composition.kept_frames()[0] == composition.frames[0],
{
}

/// A composed animation as an image.
pub open spec fn composed_image(
    composition: CompositionModel,
    icc_profile: Option<Seq<u8>>,
    format_name: Seq<char>,
) -> ImageModel {
    ImageModel {
        width: composition.width,
        height: composition.height,
        pixel_width: composition.width,
        pixel_height: composition.height,
        format_name,
        icc_profile,
        exif: None,
        storage: PixelStorage::Bgra8,
        source_bits_per_channel: 8,
        peak_luminance_nits: None,
        source_primaries: None,
        frames: composition.kept_frames(),
        frames_truncated: composition.truncated,
        gain_map: None,
        gain_map_plane: None,
    }
}

/// A region whose buffer is as large as its size says holds every row of it that shows.
pub proof fn lemma_region_is_held(composition: CompositionModel, region: RegionModel)
    requires
        region.pixels.len() == region.width * region.height * 4,
    ensures
        composition.holds(region),
{
    let across = pixels::visible_extent(
        composition.width as int,
        region.width as int,
        region.left as int,
    );
    let down = pixels::visible_extent(
        composition.height as int,
        region.height as int,
        region.top as int,
    );
    if across > 0 && down > 0 {
        assert((down - 1) * region.width + region.width <= region.height * region.width)
            by (nonlinear_arith)
            requires
                down <= region.height,
        ;
        assert(region.height * region.width == region.width * region.height) by (nonlinear_arith);
        assert((0 + down - 1) * region.width == (down - 1) * region.width);
    } else {
        assert(0 <= region.width * region.height) by (nonlinear_arith);
    }
}

/// A composed animation as an image.
pub fn finish_animation(
    compositor: FrameCompositor,
    icc_profile: Option<Vec<u8>>,
    format_name: &'static str,
) -> (image: DecodedImage)
    ensures
        image@ == composed_image(compositor@, image::optional_bytes(icc_profile), format_name@),
{
    let width = compositor.width;
    let height = compositor.height;
    let (frames, frames_truncated) = compositor.finish();
    let image = DecodedImage {
        width,
        height,
        pixel_width: width,
        pixel_height: height,
        format_name,
        icc_profile,
        exif: None,
        storage: PixelStorage::Bgra8,
        source_bits_per_channel: 8,
        peak_luminance_nits: None,
        source_primaries: None,
        frames,
        frames_truncated,
        gain_map: None,
        gain_map_plane: None,
    };
    assert(image@ =~= composed_image(
        compositor@,
        image::optional_bytes(icc_profile),
        format_name@,
    ));
    image
}

} // verus!
