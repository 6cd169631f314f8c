//! The coordinator's still-capture bookkeeping.
//!
//! Every press of the shutter (for a video still or for a calibration round)
//! bumps a process-wide counter.  Streaming loops watch the counter: when it
//! moves past the value they started with, they wind down so the snapshot
//! round can run.

use vstd::prelude::*;

verus! {

/// One still-capture request, identified by the counter value it was issued
/// at.
#[derive(Copy, Clone, PartialEq, Eq, Structural, Debug, Hash)]
pub struct PictureEvent(pub u32);

/// The still-capture request counter.
#[derive(Copy, Clone, PartialEq, Eq, Structural, Debug)]
pub struct PictureEventState(pub u32);

impl PictureEventState {
    /// No stills requested yet.
    pub fn new() -> (r: PictureEventState)
        ensures
            r.0 == 0,
    {
        PictureEventState(0)
    }

    /// Issues a new request: bumps the counter and returns the event the
    /// counter identified before the bump.
    pub fn request(&mut self) -> (r: PictureEvent)
        requires
            old(self).0 < u32::MAX,
        ensures
            final(self).0 == old(self).0 + 1,
            r.0 == old(self).0,
    {
        let index = self.0;
        self.0 = self.0 + 1;
        PictureEvent(index)
    }

    /// The event a request issued now would supersede.
    pub fn current_event(&self) -> (r: PictureEvent)
        ensures
            r.0 == self.0,
    {
        PictureEvent(self.0)
    }

    /// Whether a still was requested after `last_event` was observed.
    pub fn has_been_new_event_since(&self, last_event: PictureEvent) -> (r: bool)
        ensures
            r == (last_event.0 < self.0),
    {
        last_event.0 < self.0
    }
}

} // verus!
