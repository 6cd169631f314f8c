//! Process-lifetime stable device identities.
//!
//! A `DeviceId` is a surrogate key handed out the first time an OS device
//! handle is observed.  Ids are assigned monotonically increasing and are
//! never handed out twice within one run of the generator.

use vstd::prelude::*;

verus! {

/// Stable-for-this-process identifier of one capture device.
#[derive(Copy, Clone, PartialEq, Eq, Structural, Debug, Hash)]
pub struct DeviceId(pub u32);

impl DeviceId {
    /// The raw numeric value, as it travels on the wire.
    pub fn value(self) -> (r: u32)
        ensures
            r == self.0,
    {
        self.0
    }
}

/// Hands out `DeviceId`s, monotonically increasing, starting at 1.
pub struct DeviceIdGenerator(pub u32);

impl DeviceIdGenerator {
    /// A fresh generator; the first id it hands out is 1.
    pub fn new() -> (r: DeviceIdGenerator)
        ensures
            r.0 == 0,
    {
        DeviceIdGenerator(0)
    }

    /// Hands out the next id.  Every id returned is strictly larger than all
    /// ids returned before, so an id is never reused.
    pub fn next(&mut self) -> (r: DeviceId)
        requires
            old(self).0 < u32::MAX,
        ensures
            final(self).0 == old(self).0 + 1,
            r.0 == old(self).0 + 1,
    {
        self.0 += 1;
        DeviceId(self.0)
    }
}

} // verus!
