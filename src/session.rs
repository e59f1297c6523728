//! The decisions of the game loop, frame by frame: when to tick, when to
//! reset, and how the turn count and the auto-run timer move.
use vstd::prelude::*;

verus! {

/// What the player did during one frame.
#[derive(Clone, Copy, Debug)]
pub struct FrameInput {
    /// Start over with a fresh world.
    pub reset: bool,
    /// Advance by one tick now.
    pub step: bool,
    /// Switch automatic ticking on or off.
    pub toggle_running: bool,
    /// Show or hide the cursor and its label.
    pub toggle_cursor: bool,
}

/// What the loop must do for a frame, in this order: rebuild the world if
/// `reset`, then tick it `ticks` times.
#[derive(Clone, Copy, Debug, PartialEq, Eq, Structural)]
pub struct FrameAction {
    pub reset: bool,
    pub ticks: u32,
}

/// The loop's own state besides the world.
#[derive(Clone, Copy, Debug)]
pub struct Session {
    pub running: bool,
    pub show_cursor: bool,
    /// Frames left until the next automatic tick.
    pub tick_counter: i32,
    /// Frames between automatic ticks.
    pub tick_interval: i32,
    /// Ticks since the world was built.
    pub turn: u32,
}

/// `v + 1`, capped at the largest `u32`.
pub open spec fn bump(v: int) -> u32 {
    if v >= u32::MAX { u32::MAX } else { (v + 1) as u32 }
}

impl Session {
    pub open spec fn wf(&self) -> bool {
        1 <= self.tick_counter <= self.tick_interval
    }

    /// A paused session at turn 0 that ticks every `interval` frames when
    /// running.
    pub fn new(interval: i32) -> (r: Session)
        requires
            interval >= 1,
        ensures
            r.wf(),
            !r.running,
            r.show_cursor,
            r.turn == 0,
            r.tick_counter == 1,
            r.tick_interval == interval,
    {
        Session { running: false, show_cursor: true, tick_counter: 1, tick_interval: interval, turn: 0 }
    }

    /// One frame: a reset pauses and zeroes the turn; a step ticks once; the
    /// run toggle flips `running`; a running session ticks once more when its
    /// counter runs out, and then rewinds the counter. Each tick counts a turn.
    pub fn update(&mut self, input: FrameInput) -> (r: FrameAction)
        requires
            old(self).wf(),
        ensures
            final(self).wf(),
            final(self).tick_interval == old(self).tick_interval,
            final(self).show_cursor == (old(self).show_cursor != input.toggle_cursor),
            final(self).running == ((old(self).running && !input.reset) != input.toggle_running),
            r.reset == input.reset,
            ({
                let auto = final(self).running && old(self).tick_counter == 1;
                &&& r.ticks == (if input.step { 1int } else { 0 }) + (if auto { 1int } else { 0 })
                &&& final(self).tick_counter == (if !final(self).running {
                    old(self).tick_counter as int
                } else if auto {
                    old(self).tick_interval as int
                } else {
                    old(self).tick_counter - 1
                })
                &&& final(self).turn == (if r.ticks == 0 {
                    (if input.reset { 0 } else { old(self).turn })
                } else if r.ticks == 1 {
                    bump(if input.reset { 0 } else { old(self).turn as int })
                } else {
                    bump(bump(if input.reset { 0 } else { old(self).turn as int }) as int)
                })
            }),
    {
        let mut ticks: u32 = 0;
        if input.reset {
            self.turn = 0;
            self.running = false;
        }
        if input.step {
            ticks = ticks + 1;
            self.turn = if self.turn == u32::MAX { u32::MAX } else { self.turn + 1 };
        }
        if input.toggle_running {
            self.running = !self.running;
        }
        if self.running {
            self.tick_counter = self.tick_counter - 1;
            if self.tick_counter == 0 {
                ticks = ticks + 1;
                self.turn = if self.turn == u32::MAX { u32::MAX } else { self.turn + 1 };
                self.tick_counter = self.tick_interval;
            }
        }
        if input.toggle_cursor {
            self.show_cursor = !self.show_cursor;
        }
        FrameAction { reset: input.reset, ticks }
    }
}

} // verus!
