//! The frame timer of a looping sprite animation.
//!
//! Time is counted in whole ticks of a clock that the caller picks
//! (nanoseconds, say). A timer collects the ticks that have passed; every
//! time a frame's worth of them has come together the animation moves on by
//! one frame, wrapping round after the last, and what is left over is
//! carried into the next step.

use crate::config::ConfigError;
use vstd::arithmetic::div_mod::{
    lemma_add_mod_noop, lemma_fundamental_div_mod, lemma_fundamental_div_mod_converse,
    lemma_mod_bound, lemma_mod_twice, lemma_small_mod,
};
use vstd::prelude::*;

verus! {

/// The animations of the characters and items of the game.
#[derive(Debug, Hash, PartialEq, Eq, Clone, Copy, Structural)]
pub enum Animation {
    MaskRun,
    MaskIdle,
    MaskJump,
    MaskDoubleJump,
    MaskFall,
    Strawberry,
    NinjaRun,
    NinjaIdle,
    NinjaJump,
    NinjaDoubleJump,
    NinjaFall,
    PinkRun,
    PinkIdle,
    PinkJump,
    PinkDoubleJump,
    PinkFall,
    GuyRun,
    GuyIdle,
    GuyJump,
    GuyDoubleJump,
    GuyFall,
}

/// The number of frames of the idle loop.
pub const IDLE_FRAMES: usize = 11;

/// The time on display of each frame of the idle loop, in nanoseconds: a
/// twentieth of a second.
pub const IDLE_FRAME_NANOS: u64 = 50_000_000;

/// What a frame timer is, apart from how it is stored.
pub struct TimerView {
    /// The frame on display.
    pub frame: nat,
    /// The time collected towards the next frame.
    pub residual: nat,
    /// The number of frames in the loop.
    pub frame_count: nat,
    /// The time each frame stays on display.
    pub frame_duration: nat,
}

impl TimerView {
    /// The loop has frames, each frame takes time, the frame on display is
    /// one of the loop, and less than one frame's time is carried.
    pub open spec fn wf(self) -> bool {
        &&& self.frame_count > 0
        &&& self.frame_duration > 0
        &&& self.frame < self.frame_count
        &&& self.residual < self.frame_duration
    }

    /// A timer at the start of its loop.
    pub open spec fn start(frame_count: nat, frame_duration: nat) -> TimerView {
        TimerView { frame: 0, residual: 0, frame_count, frame_duration }
    }

    /// The number of whole frames that pass when `delta` more time is added
    /// to what the timer carries.
    pub open spec fn frames_elapsed(self, delta: nat) -> nat {
        (self.residual + delta) / self.frame_duration
    }

    /// The timer after `delta` more time: the frame moves on by the whole
    /// frames that passed, wrapping round the loop, and the rest of the time
    /// is carried.
    pub open spec fn advanced(self, delta: nat) -> TimerView {
        let frames = self.frames_elapsed(delta);
        TimerView {
            frame: (self.frame + frames) % self.frame_count,
            residual: (self.residual + delta - frames * self.frame_duration) as nat,
            ..self
        }
    }
}

/// Advancing keeps a timer well formed: the frame stays inside the loop and
/// the time carried stays below one frame's time. What is carried is the
/// remainder of the collected time by the frame's time.
pub proof fn lemma_advanced_wf(timer: TimerView, delta: nat)
    requires
        timer.wf(),
    ensures
        timer.advanced(delta).wf(),
        timer.advanced(delta).residual == (timer.residual + delta) % timer.frame_duration,
        timer.advanced(delta).frame_count == timer.frame_count,
        timer.advanced(delta).frame_duration == timer.frame_duration,
{
    let total = (timer.residual + delta) as int;
    let duration = timer.frame_duration as int;
    lemma_fundamental_div_mod(total, duration);
    lemma_mod_bound(total, duration);
    assert(duration * (total / duration) == (total / duration) * duration) by (nonlinear_arith);
    lemma_mod_bound((timer.frame + timer.frames_elapsed(delta)) as int, timer.frame_count as int);
}

/// Time adds up: two steps in a row leave the timer where one step of their
/// sum leaves it.
pub proof fn lemma_advanced_additive(timer: TimerView, first: nat, second: nat)
    requires
        timer.wf(),
    ensures
        timer.advanced(first).advanced(second) == timer.advanced(first + second),
{
    let duration = timer.frame_duration as int;
    let count = timer.frame_count as int;
    let mid = timer.advanced(first);
    let end = mid.advanced(second);
    lemma_advanced_wf(timer, first);
    lemma_advanced_wf(mid, second);
    let q1 = timer.frames_elapsed(first) as int;
    let q2 = mid.frames_elapsed(second) as int;
    lemma_fundamental_div_mod((timer.residual + first) as int, duration);
    lemma_fundamental_div_mod((mid.residual + second) as int, duration);
    assert(timer.residual + first + second == (q1 + q2) * duration + end.residual)
        by (nonlinear_arith)
        requires
            timer.residual + first == duration * q1 + mid.residual,
            mid.residual + second == duration * q2 + end.residual,
    ;
    lemma_fundamental_div_mod_converse(
        (timer.residual + first + second) as int,
        duration,
        q1 + q2,
        end.residual as int,
    );
    assert(timer.frames_elapsed(first + second) == q1 + q2);
    lemma_add_mod_noop(timer.frame + q1, q2, count);
    lemma_add_mod_noop(((timer.frame + q1) % count), q2, count);
    lemma_mod_twice(timer.frame + q1, count);
    assert(end.frame == (timer.frame + q1 + q2) % count);
    assert(timer.advanced(first + second).residual == end.residual);
}

/// A step of exactly `frames` frames' time moves the frame on by `frames`,
/// wrapping round the loop, and leaves the time carried as it was.
pub proof fn lemma_advanced_whole_frames(timer: TimerView, frames: nat)
    requires
        timer.wf(),
    ensures
        timer.advanced(frames * timer.frame_duration) == (TimerView {
            frame: (timer.frame + frames) % timer.frame_count,
            ..timer
        }),
{
    let duration = timer.frame_duration as int;
    lemma_fundamental_div_mod_converse(
        timer.residual + frames * duration,
        duration,
        frames as int,
        timer.residual as int,
    );
}

/// A step that, with what is carried, stays below one frame's time leaves
/// the frame on display and only adds to the time carried.
pub proof fn lemma_advanced_within_frame(timer: TimerView, delta: nat)
    requires
        timer.wf(),
        timer.residual + delta < timer.frame_duration,
    ensures
        timer.advanced(delta) == (TimerView { residual: timer.residual + delta, ..timer }),
{
    let duration = timer.frame_duration as int;
    assert(0 * duration == 0);
    lemma_fundamental_div_mod_converse(
        (timer.residual + delta) as int,
        duration,
        0,
        (timer.residual + delta) as int,
    );
    lemma_small_mod(timer.frame, timer.frame_count);
}

/// The frame timer of one looping animation.
#[derive(Clone, Copy, Debug)]
pub struct AnimationTimer {
    frame: usize,
    residual: u64,
    frame_count: usize,
    frame_duration: u64,
}

impl View for AnimationTimer {
    type V = TimerView;

    closed spec fn view(&self) -> TimerView {
        TimerView {
            frame: self.frame as nat,
            residual: self.residual as nat,
            frame_count: self.frame_count as nat,
            frame_duration: self.frame_duration as nat,
        }
    }
}

impl AnimationTimer {
    #[verifier::type_invariant]
    closed spec fn inv(self) -> bool {
        self@.wf()
    }

    /// A timer at the first frame of a loop of `frame_count` frames, each on
    /// display for `frame_duration` ticks. A loop without frames is
    /// rejected, and so is a frame without time.
    pub fn new(frame_count: usize, frame_duration: u64) -> (timer: Result<
        AnimationTimer,
        ConfigError,
    >)
        ensures
            frame_count == 0 ==> timer == Err::<AnimationTimer, ConfigError>(
                ConfigError::InvalidFrameCount,
            ),
            frame_count > 0 && frame_duration == 0 ==> timer == Err::<AnimationTimer, ConfigError>(
                ConfigError::InvalidFrameDuration,
            ),
            frame_count > 0 && frame_duration > 0 ==> timer is Ok && timer->Ok_0@
                == TimerView::start(frame_count as nat, frame_duration as nat),
    {
        if frame_count == 0 {
            Err(ConfigError::InvalidFrameCount)
        } else if frame_duration == 0 {
            Err(ConfigError::InvalidFrameDuration)
        } else {
            Ok(AnimationTimer { frame: 0, residual: 0, frame_count, frame_duration })
        }
    }

    /// The timer of the idle loop, on a clock that counts nanoseconds.
    pub fn idle() -> (timer: AnimationTimer)
        ensures
            timer@ == TimerView::start(IDLE_FRAMES as nat, IDLE_FRAME_NANOS as nat),
    {
        AnimationTimer {
            frame: 0,
            residual: 0,
            frame_count: IDLE_FRAMES,
            frame_duration: IDLE_FRAME_NANOS,
        }
    }

    /// The frame on display, counted from zero.
    pub fn frame(&self) -> (frame: usize)
        ensures
            frame == self@.frame,
            self@.wf(),
    {
        proof {
            use_type_invariant(self);
        }
        self.frame
    }

    /// The time collected towards the next frame; always less than one
    /// frame's time.
    pub fn residual(&self) -> (residual: u64)
        ensures
            residual == self@.residual,
            self@.wf(),
    {
        proof {
            use_type_invariant(self);
        }
        self.residual
    }

    /// The number of frames in the loop; never zero.
    pub fn frame_count(&self) -> (frame_count: usize)
        ensures
            frame_count == self@.frame_count,
            self@.wf(),
    {
        proof {
            use_type_invariant(self);
        }
        self.frame_count
    }

    /// The time each frame stays on display; never zero.
    pub fn frame_duration(&self) -> (frame_duration: u64)
        ensures
            frame_duration == self@.frame_duration,
            self@.wf(),
    {
        proof {
            use_type_invariant(self);
        }
        self.frame_duration
    }

    /// Lets `delta` more ticks pass and returns the frame then on display.
    /// Any number of frames may pass in one step.
    pub fn advance(&mut self, delta: u64) -> (frame: usize)
        ensures
            final(self)@ == old(self)@.advanced(delta as nat),
            final(self)@.wf(),
            frame == final(self)@.frame,
    {
        proof {
            use_type_invariant(&*self);
            lemma_advanced_wf(self@, delta as nat);
        }
        let total: u128 = self.residual as u128 + delta as u128;
        let duration: u128 = self.frame_duration as u128;
        let count: u128 = self.frame_count as u128;
        let frames: u128 = total / duration;
        let rest: u128 = total % duration;
        proof {
            lemma_fundamental_div_mod(total as int, duration as int);
            assert(duration * (total / duration) == (total / duration) * duration)
                by (nonlinear_arith);
            assert(frames <= total) by (nonlinear_arith)
                requires
                    total == duration * frames + rest,
                    duration >= 1,
                    rest >= 0,
                    frames >= 0,
            ;
        }
        let next: u128 = (self.frame as u128 + frames) % count;
        self.frame = next as usize;
        self.residual = rest as u64;
        self.frame
    }
}

} // verus!
