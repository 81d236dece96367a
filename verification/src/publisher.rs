//! The generation publisher: drives repeated stepping of a grid and
//! decides, from the backpressure mode and the outcome of each handoff,
//! whether to keep producing. The blocking channel itself lives with the
//! caller; this module owns every decision around it, and its invariant
//! bounds how far the simulation may run ahead of the consumer.

use crate::game_of_life::GameOfLife;
use vstd::prelude::*;

verus! {

/// The backpressure policy of the handoff slot.
///
/// - `Rendezvous`: capacity 0, blocking send. The consumer misses no
///   generation; the simulation is throttled to display speed.
/// - `LatestOnly`: capacity 1, non-blocking send. The simulation never
///   stalls; the consumer sees the most recent accepted snapshot and may
///   skip generations, never out of order.
#[derive(Clone, Copy, PartialEq, Eq, Structural)]
pub enum Mode {
    Rendezvous,
    LatestOnly,
}

/// What became of one offered snapshot.
#[derive(Clone, Copy, PartialEq, Eq, Structural)]
pub enum HandoffOutcome {
    /// The handoff succeeded: in rendezvous mode the consumer took the
    /// snapshot; in latest-only mode the slot accepted it.
    Delivered,
    /// The slot still held an unconsumed snapshot, so this generation is
    /// skipped: the consumer will see a gap, never a reordering. Only a
    /// non-blocking offer can report this.
    SlotFull,
    /// The consumer side is permanently gone.
    Disconnected,
}

/// The producer side of the pipeline: the grid it steps, the mode of its
/// handoff slot, and the running counts of computed and delivered
/// generations.
pub struct Publisher {
    game: GameOfLife,
    mode: Mode,
    computed: u64,
    delivered: u64,
    stopped: bool,
}

impl Publisher {
    /// The grid in its current generation.
    pub closed spec fn game(self) -> GameOfLife {
        self.game
    }

    pub closed spec fn mode(self) -> Mode {
        self.mode
    }

    /// How many generations have been computed so far.
    pub closed spec fn computed(self) -> u64 {
        self.computed
    }

    /// How many offered snapshots the handoff has accepted.
    pub closed spec fn delivered(self) -> u64 {
        self.delivered
    }

    /// Whether the publisher has observed a disconnected consumer and
    /// ended its run.
    pub closed spec fn stopped(self) -> bool {
        self.stopped
    }

    /// The publisher's invariant. Its last clause is the rendezvous
    /// guarantee: the number of generations computed never exceeds the
    /// number of successful handoffs by more than the one in flight.
    pub open spec fn wf(self) -> bool {
        &&& self.game().wf()
        &&& self.game().width() <= i32::MAX
        &&& self.game().height() <= i32::MAX
        &&& self.delivered() <= self.computed()
        &&& self.mode() is Rendezvous ==> self.computed() <= self.delivered() + 1
    }

    /// A publisher that has computed nothing yet and owns `game`.
    pub fn new(game: GameOfLife, mode: Mode) -> (p: Publisher)
        requires
            game.wf(),
            game.width() <= i32::MAX,
            game.height() <= i32::MAX,
        ensures
            p.wf(),
            p.game() == game,
            p.mode() == mode,
            p.computed() == 0,
            p.delivered() == 0,
            !p.stopped(),
    {
        Publisher { game, mode, computed: 0, delivered: 0, stopped: false }
    }

    /// Whether the publisher may compute another generation now. In
    /// rendezvous mode that holds only once the generation in flight has
    /// been delivered.
    pub fn ready_to_compute(&self) -> (r: bool)
        ensures
            r == (!self.stopped() && self.computed() < u64::MAX && (self.mode() is Rendezvous
                ==> self.computed() == self.delivered())),
    {
        if self.stopped || self.computed == u64::MAX {
            return false;
        }
        match self.mode {
            Mode::Rendezvous => self.computed == self.delivered,
            Mode::LatestOnly => true,
        }
    }

    /// Steps the grid one generation and returns the snapshot to offer:
    /// the new generation's alive coordinates in row-major scan order.
    pub fn compute_generation(&mut self) -> (points: Vec<(i32, i32)>)
        requires
            old(self).wf(),
            !old(self).stopped(),
            old(self).computed() < u64::MAX,
            old(self).mode() is Rendezvous ==> old(self).computed() == old(self).delivered(),
        ensures
            final(self).wf(),
            final(self).mode() == old(self).mode(),
            final(self).computed() == old(self).computed() + 1,
            final(self).delivered() == old(self).delivered(),
            !final(self).stopped(),
            final(self).game().height() == old(self).game().height(),
            final(self).game().width() == old(self).game().width(),
            forall|x: int, y: int|
                old(self).game().in_bounds(x, y) ==> final(self).game().cell(x, y) == old(
                    self,
                ).game().next_cell(x, y),
            points@ == final(self).game().alive_list(),
    {
        self.game.step();
        self.computed = self.computed + 1;
        self.game.alive_cells()
    }

    /// Records what became of the offered snapshot. A disconnected
    /// consumer stops the publisher at once; a full slot in latest-only
    /// mode merely drops that generation and the run goes on. A blocking
    /// rendezvous offer never reports a full slot, and a delivery
    /// presupposes a generation in flight.
    pub fn record_outcome(&mut self, outcome: HandoffOutcome)
        requires
            old(self).wf(),
            outcome is Delivered ==> old(self).delivered() < old(self).computed(),
            old(self).mode() is Rendezvous ==> !(outcome is SlotFull),
        ensures
            final(self).wf(),
            final(self).game() == old(self).game(),
            final(self).mode() == old(self).mode(),
            final(self).computed() == old(self).computed(),
            final(self).delivered() == old(self).delivered() + (if outcome is Delivered {
                1int
            } else {
                0int
            }),
            final(self).stopped() == (old(self).stopped() || outcome is Disconnected),
    {
        match outcome {
            HandoffOutcome::Delivered => {
                self.delivered = self.delivered + 1;
            },
            HandoffOutcome::SlotFull => {},
            HandoffOutcome::Disconnected => {
                self.stopped = true;
            },
        }
    }

    /// Whether the producing loop should run another cycle.
    pub fn should_continue(&self) -> (r: bool)
        ensures
            r == !self.stopped(),
    {
        !self.stopped
    }

    /// The current grid, for a caller that wants to inspect it.
    pub fn game_ref(&self) -> (g: &GameOfLife)
        ensures
            g == self.game(),
    {
        &self.game
    }

    /// How many generations have been computed, as the caller reads it.
    pub fn generations_computed(&self) -> (n: u64)
        ensures
            n == self.computed(),
    {
        self.computed
    }

    /// How many snapshots have been delivered, as the caller reads it.
    pub fn generations_delivered(&self) -> (n: u64)
        ensures
            n == self.delivered(),
    {
        self.delivered
    }
}

/// In rendezvous mode the simulation never runs more than one generation
/// ahead of the consumer: however the producing loop interleaves its
/// steps and offers, a well-formed publisher has computed at most one
/// generation beyond those successfully handed off.
pub proof fn lemma_rendezvous_in_flight(p: Publisher)
    requires
        p.wf(),
        p.mode() is Rendezvous,
    ensures
        p.computed() <= p.delivered() + 1,
{
}

/// A disconnected consumer ends the run within the current cycle: after
/// recording the outcome of an offer, the publisher is stopped exactly
/// when it was already stopped or that outcome was a disconnect — it
/// neither retries nor spins.
pub proof fn lemma_disconnect_stops(pre: Publisher, post: Publisher, outcome: HandoffOutcome)
    requires
        post.stopped() == (pre.stopped() || outcome is Disconnected),
        !pre.stopped(),
    ensures
        post.stopped() <==> outcome is Disconnected,
{
}

} // verus!
