//! Frame slots for triple buffering.
//!
//! The CPU may prepare frames while the GPU works on earlier ones, up to a fixed number in
//! flight. A frame takes a slot when it begins and gives it back when the GPU has completed it.

use vstd::prelude::*;

verus! {

/// Frames that may be in flight at once, unless another number is asked for.
pub const DEFAULT_IN_FLIGHT: u32 = 3;

/// The slots of a command manager.
#[derive(Debug, Clone, Copy, PartialEq, Eq, Structural)]
pub struct FrameSlots {
    /// Maximum number of in-flight frames.
    pub max_in_flight: u32,
    /// Slots that no frame holds.
    pub available: u64,
}

/// Something that happens to a frame.
#[derive(Debug, Clone, Copy, PartialEq, Eq, Structural)]
pub enum FrameEvent {
    /// The CPU begins a frame.
    Begin,
    /// The GPU completes a frame.
    Complete,
}

/// Frames that are in flight after `events`.
pub open spec fn in_flight(events: Seq<FrameEvent>) -> int
    decreases events.len(),
{
    if events.len() == 0 {
        0
    } else {
        in_flight(events.drop_last()) + match events.last() {
            FrameEvent::Begin => 1int,
            FrameEvent::Complete => -1int,
        }
    }
}

/// Whether `events` can happen with `max` slots: a frame begins only when a slot is available,
/// and completes only when it is in flight.
pub open spec fn possible(events: Seq<FrameEvent>, max: u32) -> bool
    decreases events.len(),
{
    events.len() == 0 || (possible(events.drop_last(), max) && match events.last() {
        FrameEvent::Begin => max - in_flight(events.drop_last()) > 0,
        FrameEvent::Complete => in_flight(events.drop_last()) > 0,
    })
}

impl FrameSlots {
    /// Slots for triple buffering (3 in-flight frames).
    pub fn new() -> (r: FrameSlots)
        ensures
            r == (FrameSlots { max_in_flight: DEFAULT_IN_FLIGHT, available: 3 }),
    {
        Self::with_in_flight(DEFAULT_IN_FLIGHT)
    }

    /// Slots for a custom number of in-flight frames.
    pub fn with_in_flight(max_in_flight: u32) -> (r: FrameSlots)
        ensures
            r == (FrameSlots { max_in_flight, available: max_in_flight as u64 }),
    {
        FrameSlots { max_in_flight, available: max_in_flight as u64 }
    }

    /// Takes a slot for a new frame. Says whether there was one; if not, the caller has to wait
    /// until a frame is completed.
    pub fn begin_frame(&mut self) -> (r: bool)
        ensures
            r == (old(self).available > 0),
            *final(self) == (FrameSlots {
                available: (old(self).available - if r {
                    1int
                } else {
                    0
                }) as u64,
                ..*old(self)
            }),
    {
        if self.available > 0 {
            self.available = self.available - 1;
            true
        } else {
            false
        }
    }

    /// Gives back the slot of a completed frame.
    pub fn complete_frame(&mut self)
        requires
            old(self).available < u64::MAX,
        ensures
            *final(self) == (FrameSlots {
                available: (old(self).available + 1) as u64,
                ..*old(self)
            }),
    {
        self.available = self.available + 1;
    }

    /// Maximum number of in-flight frames.
    pub fn max_in_flight(&self) -> (r: u32)
        ensures
            r == self.max_in_flight,
    {
        self.max_in_flight
    }

    /// The slots after one more event.
    pub open spec fn after(self, e: FrameEvent) -> FrameSlots {
        match e {
            FrameEvent::Begin => FrameSlots {
                available: (self.available - 1) as u64,
                ..self
            },
            FrameEvent::Complete => FrameSlots {
                available: (self.available + 1) as u64,
                ..self
            },
        }
    }

    /// The slots after `events`.
    pub open spec fn after_all(self, events: Seq<FrameEvent>) -> FrameSlots
        decreases events.len(),
    {
        if events.len() == 0 {
            self
        } else {
            self.after_all(events.drop_last()).after(events.last())
        }
    }
}

/// At any time the frames in flight and the available slots together are as many as there were
/// slots at first, so never more frames are in flight than that.
pub proof fn slots_bound_frames(max: u32, events: Seq<FrameEvent>)
    requires
        possible(events, max),
    ensures
        (FrameSlots { max_in_flight: max, available: max as u64 }).after_all(events).available
            + in_flight(events) == max,
        0 <= in_flight(events) <= max,
    decreases events.len(),
{
    if events.len() > 0 {
        slots_bound_frames(max, events.drop_last());
    }
}

} // verus!
