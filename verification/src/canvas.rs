//! The consumer side of the pipeline: the display surface's own state and
//! cadence. The window, input events and drawing live with the caller;
//! this module decides when a fresh snapshot is due and keeps the last
//! received one, so that the render cadence is never held hostage by
//! simulation speed.

use vstd::prelude::*;

verus! {

/// Milliseconds between two polls of the snapshot slot.
pub const UPDATE_FREQ_MILLIS: u16 = 40;

/// The display surface's state: the grid dimensions it lays out, the time
/// of its last snapshot poll, and the snapshot it currently shows.
pub struct Canvas {
    pub height: u32,
    pub width: u32,
    /// When the slot was last polled, in milliseconds.
    pub last_update: u128,
    /// The alive coordinates currently on display.
    pub points: Vec<(i32, i32)>,
}

impl Canvas {
    /// A canvas for an `height` by `width` grid that has polled nothing
    /// and shows nothing yet.
    pub fn new(height: u32, width: u32) -> (c: Canvas)
        ensures
            c.height == height,
            c.width == width,
            c.last_update == 0,
            c.points@ == Seq::<(i32, i32)>::empty(),
    {
        Canvas { height, width, last_update: 0, points: Vec::new() }
    }

    /// Decides whether the poll interval has passed since the last poll;
    /// if so, the poll happens now and the clock is remembered. A clock
    /// that has not advanced (or jumped backwards) is simply not due.
    pub fn poll_due(&mut self, now: u128) -> (r: bool)
        ensures
            r == (now > old(self).last_update + UPDATE_FREQ_MILLIS),
            r ==> *final(self) == (Canvas { last_update: now, ..*old(self) }),
            !r ==> *final(self) == *old(self),
    {
        let due = now > self.last_update && now - self.last_update > UPDATE_FREQ_MILLIS as u128;
        if due {
            self.last_update = now;
        }
        due
    }

    /// Installs a freshly received snapshot; everything else, including
    /// the poll clock, stays. When no snapshot is ready the caller simply
    /// does not call this, and the previous one stays on display.
    pub fn install(&mut self, points: Vec<(i32, i32)>)
        ensures
            final(self).points@ == points@,
            final(self).height == old(self).height,
            final(self).width == old(self).width,
            final(self).last_update == old(self).last_update,
    {
        self.points = points;
    }
}

} // verus!
