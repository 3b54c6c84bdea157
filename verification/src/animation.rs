//! Animation frame scheduler state; the window drives the timer.

use vstd::prelude::*;

use crate::image::{DecodedImage, FrameModel};

verus! {

pub const SPEED_MINIMUM_PERCENT: u32 = 50;

pub const SPEED_MAXIMUM_PERCENT: u32 = 300;

pub const SPEED_STEP_PERCENT: u32 = 25;

pub const SPEED_DEFAULT_PERCENT: u32 = 100;

/// An animation on screen: which frame shows, and how fast the frames go by.
pub struct Animation {
    pub frame_delays_milliseconds: Vec<u32>,
    pub frame_index: usize,
    pub paused: bool,
    pub speed_percent: u32,
}

#[verifier::ext_equal]
pub struct PlaybackModel {
    pub delays: Seq<u32>,
    pub frame: int,
    pub paused: bool,
    pub speed: int,
}

impl View for Animation {
    type V = PlaybackModel;

    open spec fn view(&self) -> PlaybackModel {
        PlaybackModel {
            delays: self.frame_delays_milliseconds@,
            frame: self.frame_index as int,
            paused: self.paused,
            speed: self.speed_percent as int,
        }
    }
}

/// An animation that just opened: the first frame, playing at normal speed.
pub open spec fn opened(frames: Seq<FrameModel>) -> PlaybackModel {
    PlaybackModel {
        delays: frames.map_values(|frame: FrameModel| frame.delay_milliseconds),
        frame: 0,
        paused: false,
        speed: SPEED_DEFAULT_PERCENT as int,
    }
}

impl PlaybackModel {
    /// There is more than one frame, one of them shows, and the speed is one of the steps between the
    /// slowest and the fastest.
    pub open spec fn sound(self) -> bool {
        &&& self.delays.len() > 1
        &&& 0 <= self.frame < self.delays.len()
        &&& SPEED_MINIMUM_PERCENT <= self.speed <= SPEED_MAXIMUM_PERCENT
        &&& self.speed % SPEED_STEP_PERCENT as int == 0
    }

    /// The delay of the frame on screen, a millisecond at least.
    pub open spec fn own_delay(self) -> int {
        if self.delays[self.frame] < 1 {
            1
        } else {
            self.delays[self.frame] as int
        }
    }

    /// How long the frame shows at this speed, a millisecond at least.
    pub open spec fn delay(self) -> int {
        let scaled = self.own_delay() * 100 / self.speed;
        if scaled < 1 {
            1
        } else {
            scaled
        }
    }

    /// The frame after the one on screen; behind the last comes the first.
    pub open spec fn forward(self) -> PlaybackModel {
        PlaybackModel {
            frame: if self.frame + 1 == self.delays.len() {
                0
            } else {
                self.frame + 1
            },
            ..self
        }
    }

    /// The frame before the one on screen; before the first comes the last.
    pub open spec fn backward(self) -> PlaybackModel {
        PlaybackModel {
            frame: if self.frame == 0 {
                self.delays.len() - 1
            } else {
                self.frame - 1
            },
            ..self
        }
    }

    /// One step faster or slower, within the limits.
    pub open spec fn adjusted(self, increase: bool) -> PlaybackModel {
        PlaybackModel {
            speed: if increase {
                if self.speed + SPEED_STEP_PERCENT > SPEED_MAXIMUM_PERCENT {
                    SPEED_MAXIMUM_PERCENT as int
                } else {
                    self.speed + SPEED_STEP_PERCENT
                }
            } else if self.speed - SPEED_STEP_PERCENT < SPEED_MINIMUM_PERCENT {
                SPEED_MINIMUM_PERCENT as int
            } else {
                self.speed - SPEED_STEP_PERCENT
            },
            ..self
        }
    }
}

impl Animation {
    /// None for an image that does not move.
    pub fn new(image: &DecodedImage) -> (animation: Option<Self>)
        ensures
            animation is Some <==> image@.frames.len() > 1,
            animation matches Some(started) ==> started@ == opened(image@.frames)
                && started@.sound(),
    {
        let ghost models = image@.frames;
        assert(models.len() == image.frames@.len());
        if image.frames.len() <= 1 {
            return None;
        }
        let mut delays: Vec<u32> = Vec::new();
        let mut index: usize = 0;
        while index < image.frames.len()
            invariant
                models == image@.frames,
                models.len() == image.frames@.len(),
                index <= image.frames@.len(),
                delays@.len() == index,
                forall|earlier: int|
                    0 <= earlier < index ==> delays@[earlier] == (
                    #[trigger] models[earlier]).delay_milliseconds,
            decreases image.frames@.len() - index,
        {
            assert(models[index as int] == image.frames@[index as int]@);
            delays.push(image.frames[index].delay_milliseconds);
            index += 1;
        }
        let animation = Animation {
            frame_delays_milliseconds: delays,
            frame_index: 0,
            paused: false,
            speed_percent: SPEED_DEFAULT_PERCENT,
        };
        assert(animation@ =~= opened(models));
        Some(animation)
    }

    pub fn current_delay_milliseconds(&self) -> (milliseconds: u32)
        requires
            self@.sound(),
            self@.own_delay() * 100 <= u32::MAX,
        ensures
            milliseconds == self@.delay(),
    {
        let own: u32 = self.frame_delays_milliseconds[self.frame_index];
        let delay: u32 = if own < 1 {
            1
        } else {
            own
        };
        let scaled: u32 = delay * 100 / self.speed_percent;
        if scaled < 1 {
            1
        } else {
            scaled
        }
    }

    pub fn next_frame(&mut self) -> (frame: usize)
        requires
            old(self)@.sound(),
        ensures
            final(self)@ == old(self)@.forward(),
            final(self)@.sound(),
            frame == final(self)@.frame,
    {
        if self.frame_index == self.frame_delays_milliseconds.len() - 1 {
            self.frame_index = 0;
        } else {
            self.frame_index += 1;
        }
        self.frame_index
    }

    pub fn previous_frame(&mut self) -> (frame: usize)
        requires
            old(self)@.sound(),
        ensures
            final(self)@ == old(self)@.backward(),
            final(self)@.sound(),
            frame == final(self)@.frame,
    {
        if self.frame_index == 0 {
            self.frame_index = self.frame_delays_milliseconds.len() - 1;
        } else {
            self.frame_index -= 1;
        }
        self.frame_index
    }

    pub fn frame_count(&self) -> (count: usize)
        ensures
            count == self@.delays.len(),
    {
        self.frame_delays_milliseconds.len()
    }

    pub fn adjust_speed(&mut self, increase: bool)
        requires
            old(self)@.sound(),
        ensures
            final(self)@ == old(self)@.adjusted(increase),
            final(self)@.sound(),
    {
        self.speed_percent = if increase {
            if self.speed_percent + SPEED_STEP_PERCENT > SPEED_MAXIMUM_PERCENT {
                SPEED_MAXIMUM_PERCENT
            } else {
                self.speed_percent + SPEED_STEP_PERCENT
            }
        } else if self.speed_percent - SPEED_STEP_PERCENT < SPEED_MINIMUM_PERCENT {
            SPEED_MINIMUM_PERCENT
        } else {
            self.speed_percent - SPEED_STEP_PERCENT
        };
    }

    pub fn speed_percent(&self) -> (percent: u32)
        ensures
            percent == self@.speed,
    {
        self.speed_percent
    }

    pub fn reset_speed(&mut self)
        ensures
            final(self)@ == (PlaybackModel { speed: SPEED_DEFAULT_PERCENT as int, ..old(self)@ }),
            old(self)@.sound() ==> final(self)@.sound(),
    {
        self.speed_percent = SPEED_DEFAULT_PERCENT;
    }
}

/// A step back undoes a step forward, and the other way round.
pub proof fn lemma_frame_steps_undo_each_other(playback: PlaybackModel)
    requires
        playback.sound(),
    ensures
        playback.forward().backward() == playback,
        playback.backward().forward() == playback,
{
}

/// Steps forward, this many.
pub open spec fn steps_forward(playback: PlaybackModel, count: nat) -> PlaybackModel
    decreases count,
{
    if count == 0 {
        playback
    } else {
        steps_forward(playback, (count - 1) as nat).forward()
    }
}

proof fn lemma_steps_wrap(playback: PlaybackModel, count: nat)
    requires
        playback.sound(),
        count <= playback.delays.len(),
    ensures
        steps_forward(playback, count).delays == playback.delays,
        steps_forward(playback, count).paused == playback.paused,
        steps_forward(playback, count).speed == playback.speed,
        steps_forward(playback, count).frame == (if playback.frame + count < playback.delays.len() {
            playback.frame + count
        } else {
            playback.frame + count - playback.delays.len()
        }),
    decreases count,
{
    if count > 0 {
        lemma_steps_wrap(playback, (count - 1) as nat);
    }
}

/// As many steps as there are frames lead back to where they began.
pub proof fn lemma_steps_come_round(playback: PlaybackModel)
    requires
        playback.sound(),
    ensures
        steps_forward(playback, playback.delays.len()) == playback,
{
    lemma_steps_wrap(playback, playback.delays.len());
}

/// Within the limits, a step of speed is undone by the step the other way.
pub proof fn lemma_speed_steps_undo_each_other(playback: PlaybackModel)
    requires
        playback.sound(),
    ensures
        playback.speed < SPEED_MAXIMUM_PERCENT ==> playback.adjusted(true).adjusted(false)
            == playback,
        playback.speed > SPEED_MINIMUM_PERCENT ==> playback.adjusted(false).adjusted(true)
            == playback,
{
}

} // verus!
