//! The sprite clock: which frame of which strip the controlled entity
//! shows.
//!
//! Time is counted in nanoseconds. Elapsed time is gathered, and every
//! full frame duration in it moves the frame on by one; what is left
//! over is kept for the next tick.

use vstd::prelude::*;
use vstd::arithmetic::div_mod::{lemma_add_mod_noop, lemma_fundamental_div_mod, lemma_small_mod};
use crate::input::{Actions, Movement};

verus! {

pub const NANOS_PER_MILLI: u64 = 1_000_000;

/// The first sprite of the idle strip.
pub const IDLE_OFFSET: i32 = 190;

/// The first sprite of the walking strip.
pub const WALK_OFFSET: i32 = 220;

/// The first sprite of the running strip.
pub const RUN_OFFSET: i32 = 200;

/// Six idle frames a second, in whole milliseconds.
pub const IDLE_FRAME_NANOS: u64 = (1000 / 6) * 1_000_000;

/// Ten walking frames a second.
pub const WALK_FRAME_NANOS: u64 = (1000 / 10) * 1_000_000;

/// Fifteen running frames a second, in whole milliseconds.
pub const RUN_FRAME_NANOS: u64 = (1000 / 15) * 1_000_000;

/// The number of frames in a strip.
pub const FRAME_COUNT: i32 = 8;

/// The most frames a strip may have, so that every sprite index fits.
pub const MAX_FRAMES: i32 = 0x7fff_ff00;

/// The first sprite of the strip for `m`.
pub open spec fn strip_offset(m: Movement) -> i32 {
    match m {
        Movement::Idle => IDLE_OFFSET,
        Movement::Walking => WALK_OFFSET,
        Movement::Running => RUN_OFFSET,
    }
}

/// How long a frame of the strip for `m` is shown, in nanoseconds.
pub open spec fn strip_frame_nanos(m: Movement) -> u64 {
    match m {
        Movement::Idle => IDLE_FRAME_NANOS,
        Movement::Walking => WALK_FRAME_NANOS,
        Movement::Running => RUN_FRAME_NANOS,
    }
}

/// The first sprite of the strip for `m`.
pub fn frame_offset(m: Movement) -> (r: i32)
    ensures
        r == strip_offset(m),
{
    match m {
        Movement::Idle => IDLE_OFFSET,
        Movement::Walking => WALK_OFFSET,
        Movement::Running => RUN_OFFSET,
    }
}

/// How long a frame of the strip for `m` is shown, in nanoseconds.
pub fn frame_duration(m: Movement) -> (r: u64)
    ensures
        r == strip_frame_nanos(m),
        r > 0,
{
    match m {
        Movement::Idle => IDLE_FRAME_NANOS,
        Movement::Walking => WALK_FRAME_NANOS,
        Movement::Running => RUN_FRAME_NANOS,
    }
}

/// The strips by the flags held: sprite 190 on, six frames a second,
/// while no direction is held; sprite 220 on, ten frames a second, while
/// a direction is held and run is not; sprite 200 on, fifteen frames a
/// second, while a direction and run are held. A frame lasts a whole
/// number of milliseconds.
pub proof fn lemma_strip_table(actions: Actions)
    ensures
        !actions.directed() ==> strip_offset(actions.movement()) == 190 && strip_frame_nanos(
            actions.movement(),
        ) == 166_000_000,
        actions.directed() && !actions.run ==> strip_offset(actions.movement()) == 220
            && strip_frame_nanos(actions.movement()) == 100_000_000,
        actions.directed() && actions.run ==> strip_offset(actions.movement()) == 200
            && strip_frame_nanos(actions.movement()) == 66_000_000,
{
}

#[derive(Clone, Copy, Debug)]
pub struct Animation {
    /// The frame shown, counted from the start of the strip.
    pub index: i32,
    /// The first sprite of the strip.
    pub offset: i32,
    /// The number of frames in the strip.
    pub max: i32,
    /// How long a frame is shown, in nanoseconds.
    pub speed: u64,
    /// The time gathered since the frame last moved on, in nanoseconds.
    pub elapsed: u64,
}

impl Animation {
    /// The frame lies in the strip, and the strip is not too long.
    pub open spec fn wf(self) -> bool {
        0 <= self.index < self.max <= MAX_FRAMES
    }

    /// The nanoseconds at hand after `delta` more have passed.
    pub open spec fn gathered(self, delta: u64) -> int {
        self.elapsed + delta
    }

    /// The clock after a tick of `delta` nanoseconds under movement `m`:
    /// offset and frame duration are those of `m`, the frame has moved on
    /// once for every full frame duration at hand, round the strip, and
    /// the rest is kept.
    pub open spec fn ticked(self, m: Movement, delta: u64) -> Animation {
        let speed = strip_frame_nanos(m);
        Animation {
            index: ((self.index + self.gathered(delta) / (speed as int)) % (self.max as int)) as i32,
            offset: strip_offset(m),
            max: self.max,
            speed,
            elapsed: (self.gathered(delta) % (speed as int)) as u64,
        }
    }

    /// The sprite to show after such a tick, where the tick changes it:
    /// where the frame moved on or the strip changed.
    pub open spec fn sprite_after(self, m: Movement, delta: u64) -> Option<i32> {
        let next = self.ticked(m, delta);
        if self.gathered(delta) >= strip_frame_nanos(m) || next.offset != self.offset {
            Some((next.offset + next.index) as i32)
        } else {
            None
        }
    }

    /// The clock at the start: the first idle frame, with one running
    /// frame's time at hand.
    pub fn new() -> (a: Animation)
        ensures
            a.wf(),
            a == (Animation {
                index: 0,
                offset: IDLE_OFFSET,
                max: FRAME_COUNT,
                speed: RUN_FRAME_NANOS,
                elapsed: RUN_FRAME_NANOS,
            }),
    {
        Animation {
            index: 0,
            offset: IDLE_OFFSET,
            max: FRAME_COUNT,
            speed: RUN_FRAME_NANOS,
            elapsed: RUN_FRAME_NANOS,
        }
    }

    /// The sprite shown now.
    pub fn sprite(&self) -> (s: i32)
        requires
            self.wf(),
            0 <= self.offset <= WALK_OFFSET,
        ensures
            s == self.offset + self.index,
    {
        self.offset + self.index
    }

    /// Lets `delta` nanoseconds pass under movement `m`. Returns the
    /// sprite to show where the tick changes it.
    pub fn tick(&mut self, m: Movement, delta: u64) -> (sprite: Option<i32>)
        requires
            old(self).wf(),
        ensures
            *final(self) == old(self).ticked(m, delta),
            final(self).wf(),
            sprite == old(self).sprite_after(m, delta),
            sprite is Some ==> sprite->0 == final(self).offset + final(self).index,
    {
        let offset = frame_offset(m);
        let speed = frame_duration(m);
        let changed = offset != self.offset;
        let total: u128 = self.elapsed as u128 + delta as u128;
        let steps: u128 = total / (speed as u128);
        let rest: u128 = total % (speed as u128);
        let turn: u128 = steps % (self.max as u128);
        let index: i64 = (self.index as i64 + turn as i64) % (self.max as i64);
        proof {
            let max = self.max as int;
            lemma_small_mod(self.index as nat, max as nat);
            lemma_add_mod_noop(self.index as int, steps as int, max);
            lemma_fundamental_div_mod(total as int, speed as int);
            assert((total as int) / (speed as int) > 0 <==> total as int >= speed as int)
                by (nonlinear_arith)
                requires
                    speed as int > 0,
                    total as int >= 0,
            ;
        }
        self.index = index as i32;
        self.offset = offset;
        self.speed = speed;
        self.elapsed = rest as u64;
        if steps > 0 || changed {
            Some(offset + self.index)
        } else {
            None
        }
    }
}

} // verus!
