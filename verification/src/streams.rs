//! Stream identities and the coordinator's per-stream bookkeeping.
//!
//! A `StreamSource` names one camera feed fleet-wide: the node's network
//! address plus the node-local `DeviceId`.  The coordinator keeps the streams
//! in display order; a `StreamOrdinal` is a position in that order.

use crate::calibration::{Adjustment, CalibrationEvent, EulerAngles, MAX_TOTAL_WEIGHT};
use crate::device::DeviceId;
use vstd::prelude::*;

verus! {

/// A node's network address, as plain values: the IP (IPv4 mapped into the
/// low 32 bits) and the TCP port.
#[derive(Copy, Clone, PartialEq, Eq, Structural, Debug, Hash)]
pub struct NodeAddress {
    pub ip: u128,
    pub port: u16,
}

/// One camera feed as seen by the coordinator: node address plus the
/// node-assigned device id.  Unique fleet-wide as long as node addresses are
/// distinct.
#[derive(Copy, Clone, PartialEq, Eq, Structural, Debug, Hash)]
pub struct StreamSource {
    pub socket_addr: NodeAddress,
    pub device_id: DeviceId,
}

impl StreamSource {
    /// Pairs a node address with a device id.
    pub fn new(socket_addr: NodeAddress, device_id: DeviceId) -> (r: StreamSource)
        ensures
            r.socket_addr == socket_addr,
            r.device_id == device_id,
    {
        StreamSource { socket_addr, device_id }
    }
}

/// A stream's current position in the on-screen display order.
#[derive(Copy, Clone, PartialEq, Eq, Structural, Debug, Hash)]
pub struct StreamOrdinal {
    pub index: usize,
}

impl StreamOrdinal {
    /// The position as a plain index.
    pub fn index(&self) -> (r: usize)
        ensures
            r == self.index,
    {
        self.index
    }
}

/// Whether a stream's picture is turned a quarter turn (a landscape camera
/// used for a portrait feed) and/or half a turn (mounted upside down).
#[derive(Copy, Clone, PartialEq, Eq, Structural, Debug)]
pub struct FlipFlop {
    /// Quarter-turn rotation for a landscape camera feeding a portrait tile.
    pub flop: bool,
    /// Half-turn rotation for an upside-down stream.
    pub flip: bool,
}

impl FlipFlop {
    /// A landscape frame (wider than tall) starts with the quarter turn on.
    pub fn new(image_width: u32, image_height: u32) -> (r: FlipFlop)
        ensures
            r.flop == (image_width > image_height),
            !r.flip,
    {
        FlipFlop { flop: image_width > image_height, flip: false }
    }

    /// Toggles the half-turn.
    pub fn flip(&mut self)
        ensures
            final(self).flip == !old(self).flip,
            final(self).flop == old(self).flop,
    {
        self.flip = !self.flip;
    }

    /// The total cardinal rotation, in quarter turns counter-clockwise
    /// (0 to 3).
    pub fn quarter_turns(self) -> (r: u32)
        ensures
            r == self.spec_quarter_turns(),
    {
        match (self.flop, self.flip) {
            (false, false) => 0,
            (false, true) => 2,
            (true, false) => 1,
            (true, true) => 3,
        }
    }

    /// The cardinal rotation the two switches add up to.
    pub open spec fn spec_quarter_turns(self) -> u32 {
        if !self.flop && !self.flip {
            0u32
        } else if !self.flop && self.flip {
            2u32
        } else if self.flop && !self.flip {
            1u32
        } else {
            3u32
        }
    }
}

// ---------------------------------------------------------------------------
// The coordinator's stream table
// ---------------------------------------------------------------------------

/// What the coordinator keeps per stream: its identity, its cardinal
/// rotation, its latest frame's pixel dimensions, and its calibration
/// adjustment once one has been computed.
#[derive(Copy, Clone)]
pub struct StreamInfo {
    pub source: StreamSource,
    pub flip_flop: FlipFlop,
    pub adjustment: Option<Adjustment>,
    pub width: u32,
    pub height: u32,
}

/// The display position of `source`: the first entry at or after `i` that
/// carries it.
pub open spec fn spec_position(streams: Seq<StreamInfo>, source: StreamSource, i: int) -> Option<
    int,
>
    decreases streams.len() - i,
{
    if i >= streams.len() || i < 0 {
        Option::None
    } else if streams[i].source == source {
        Option::Some(i)
    } else {
        spec_position(streams, source, i + 1)
    }
}

/// A source the position scan does not find is on no entry at all.
proof fn lemma_position_none(streams: Seq<StreamInfo>, source: StreamSource, i: int)
    requires
        spec_position(streams, source, i) is None,
        0 <= i,
    ensures
        forall|j: int| i <= j < streams.len() ==> (#[trigger] streams[j]).source != source,
    decreases streams.len() - i,
{
    if i < streams.len() {
        lemma_position_none(streams, source, i + 1);
    }
}

/// All the coordinator's streams, in the order they are shown on screen,
/// together with the calibration-event history their adjustments are
/// recomputed from.
pub struct Streams {
    pub calibration_events: Vec<CalibrationEvent>,
    pub streams: Vec<StreamInfo>,
    /// The summed weights of the event history, kept to police the budget
    /// that keeps the adjustment arithmetic inside `i64`.
    pub events_weight: i64,
}

impl Streams {
    /// Sources are unique, the event history is well-formed, and the running
    /// weight matches and respects the budget.
    pub open spec fn wf(self) -> bool {
        &&& crate::calibration::events_wf(self.calibration_events@)
        &&& self.events_weight == crate::calibration::spec_total_weight(self.calibration_events@)
        &&& 0 <= self.events_weight <= MAX_TOTAL_WEIGHT
        &&& forall|i: int, j: int|
            0 <= i < j < self.streams@.len() ==> (#[trigger] self.streams@[i]).source != (
            #[trigger] self.streams@[j]).source
    }

    /// No streams, no calibration history.
    pub fn new() -> (r: Streams)
        ensures
            r.wf(),
            r.streams@.len() == 0,
            r.calibration_events@.len() == 0,
    {
        Streams { calibration_events: Vec::new(), streams: Vec::new(), events_weight: 0 }
    }

    /// How many streams are on screen.
    pub fn stream_count(&self) -> (r: usize)
        ensures
            r == self.streams@.len(),
    {
        self.streams.len()
    }

    /// The ordinal of a raw index, if a stream stands there.
    pub fn get_ordinal(&self, index: usize) -> (r: Option<StreamOrdinal>)
        ensures
            index < self.streams@.len() ==> r == Option::Some(StreamOrdinal { index }),
            index >= self.streams@.len() ==> r is None,
    {
        if index < self.streams.len() {
            Option::Some(StreamOrdinal { index })
        } else {
            Option::None
        }
    }

    /// Scans for a source's position from index `i`.
    fn position_from(&self, source: StreamSource, i: usize) -> (r: Option<usize>)
        requires
            i <= self.streams@.len(),
        ensures
            match r {
                Option::Some(p) => spec_position(self.streams@, source, i as int)
                    == Option::Some(p as int) && p < self.streams@.len(),
                Option::None => spec_position(self.streams@, source, i as int) is None,
            },
        decreases self.streams@.len() - i,
    {
        if i == self.streams.len() {
            Option::None
        } else if self.streams[i].source == source {
            Option::Some(i)
        } else {
            self.position_from(source, i + 1)
        }
    }

    /// Where the given feed is currently displayed, if it is.
    pub fn get_stream_tile(&self, source: StreamSource) -> (r: Option<StreamOrdinal>)
        ensures
            match r {
                Option::Some(t) => spec_position(self.streams@, source, 0) == Option::Some(
                    t.index as int,
                ),
                Option::None => spec_position(self.streams@, source, 0) is None,
            },
    {
        match self.position_from(source, 0) {
            Option::Some(i) => Option::Some(StreamOrdinal { index: i }),
            Option::None => Option::None,
        }
    }

    /// Stores a newly decoded preview frame: a known source keeps its place
    /// (and its rotation and adjustment) with the new dimensions; a new
    /// source is appended with a fresh rotation guess and no adjustment yet.
    pub fn register_frame(&mut self, source: StreamSource, width: u32, height: u32)
        requires
            old(self).wf(),
        ensures
            final(self).wf(),
            final(self).calibration_events@ == old(self).calibration_events@,
            match spec_position(old(self).streams@, source, 0) {
                Option::Some(i) => final(self).streams@ == old(self).streams@.update(
                    i,
                    (StreamInfo {
                        width,
                        height,
                        ..old(self).streams@[i]
                    }),
                ),
                Option::None => final(self).streams@ == old(self).streams@.push(
                    (StreamInfo {
                        source,
                        flip_flop: (FlipFlop { flop: width > height, flip: false }),
                        adjustment: Option::None,
                        width,
                        height,
                    }),
                ),
            },
    {
        match self.position_from(source, 0) {
            Option::Some(i) => {
                let mut info = self.streams.remove(i);
                info.width = width;
                info.height = height;
                self.streams.insert(i, info);
                proof {
                    assert(self.streams@ =~= old(self).streams@.update(
                        i as int,
                        (StreamInfo { width, height, ..old(self).streams@[i as int] }),
                    ));
                }
            },
            Option::None => {
                let flip_flop = FlipFlop::new(width, height);
                self.streams.push(
                    StreamInfo { source, flip_flop, adjustment: Option::None, width, height },
                );
                proof {
                    lemma_position_none(old(self).streams@, source, 0);
                }
            },
        }
    }

    /// Forgets a feed (its preview ended); the others keep their order.
    pub fn deregister_stream(&mut self, source: StreamSource)
        requires
            old(self).wf(),
        ensures
            final(self).wf(),
            final(self).calibration_events@ == old(self).calibration_events@,
            match spec_position(old(self).streams@, source, 0) {
                Option::Some(i) => final(self).streams@ == old(self).streams@.remove(i),
                Option::None => final(self).streams@ == old(self).streams@,
            },
    {
        match self.position_from(source, 0) {
            Option::Some(i) => {
                self.streams.remove(i);
            },
            Option::None => {},
        }
    }

    /// Toggles a stream's half-turn rotation.
    pub fn flip(&mut self, ordinal: StreamOrdinal)
        requires
            old(self).wf(),
        ensures
            final(self).wf(),
            final(self).calibration_events@ == old(self).calibration_events@,
            ordinal.index < old(self).streams@.len() ==> final(self).streams@ == old(
                self,
            ).streams@.update(
                ordinal.index as int,
                (StreamInfo {
                    flip_flop: (FlipFlop {
                        flop: old(self).streams@[ordinal.index as int].flip_flop.flop,
                        flip: !old(self).streams@[ordinal.index as int].flip_flop.flip,
                    }),
                    ..old(self).streams@[ordinal.index as int]
                }),
            ),
            ordinal.index >= old(self).streams@.len() ==> final(self).streams@ == old(
                self,
            ).streams@,
    {
        if ordinal.index < self.streams.len() {
            let mut info = self.streams.remove(ordinal.index);
            info.flip_flop.flip();
            self.streams.insert(ordinal.index, info);
            proof {
                assert(self.streams@ =~= old(self).streams@.update(
                    ordinal.index as int,
                    (StreamInfo {
                        flip_flop: (FlipFlop {
                            flop: old(self).streams@[ordinal.index as int].flip_flop.flop,
                            flip: !old(self).streams@[ordinal.index as int].flip_flop.flip,
                        }),
                        ..old(self).streams@[ordinal.index as int]
                    }),
                ));
            }
        }
    }

    /// Moves the stream at one position to another, shifting the ones in
    /// between: how the user drags a tile to a new place.
    pub fn remove_and_insert(&mut self, from: StreamOrdinal, to: StreamOrdinal)
        requires
            old(self).wf(),
            from.index < old(self).streams@.len(),
            to.index < old(self).streams@.len(),
        ensures
            final(self).wf(),
            final(self).calibration_events@ == old(self).calibration_events@,
            final(self).streams@ == old(self).streams@.remove(from.index as int).insert(
                to.index as int,
                old(self).streams@[from.index as int],
            ),
    {
        let info = self.streams.remove(from.index);
        self.streams.insert(to.index, info);
        proof {
            let moved = old(self).streams@[from.index as int];
            let s = self.streams@;
            assert forall|a: int, b: int| 0 <= a < b < s.len() implies (#[trigger] s[a]).source
                != (#[trigger] s[b]).source by {
                assert(exists|i: int|
                    0 <= i < old(self).streams@.len() && old(self).streams@[i] == s[a] && exists|
                        j: int,
                    | 0 <= j < old(self).streams@.len() && old(self).streams@[j] == s[b] && i != j);
            }
        }
    }

    /// Folds one snapshot round into the calibration history and recomputes
    /// every stream's adjustment from the entire history.
    pub fn calibrate(&mut self, samples: Vec<(StreamSource, EulerAngles)>)
        requires
            old(self).wf(),
            samples@.len() <= crate::calibration::MAX_STREAMS_PER_EVENT,
            crate::calibration::distinct_sources(samples@),
            forall|i: int| 0 <= i < samples@.len() ==> (#[trigger] samples@[i]).1.wf(),
            old(self).events_weight + samples@.len() <= MAX_TOTAL_WEIGHT,
        ensures
            final(self).wf(),
            final(self).calibration_events@.len() == old(self).calibration_events@.len() + 1,
            final(self).calibration_events@.drop_last() == old(self).calibration_events@,
            final(self).calibration_events@.last().samples@ == samples@,
            final(self).streams@.len() == old(self).streams@.len(),
            forall|i: int|
                0 <= i < final(self).streams@.len() ==> {
                    let info = #[trigger] final(self).streams@[i];
                    let old_info = old(self).streams@[i];
                    &&& info.source == old_info.source
                    &&& info.flip_flop == old_info.flip_flop
                    &&& info.width == old_info.width
                    &&& info.height == old_info.height
                    &&& info.adjustment is Some
                    &&& info.adjustment->0.roll_num == crate::calibration::spec_adjustment_roll_num(
                        final(self).calibration_events@,
                        info.source,
                    )
                    &&& info.adjustment->0.pitch_num
                        == crate::calibration::spec_adjustment_pitch_num(
                        final(self).calibration_events@,
                        info.source,
                    )
                    &&& info.adjustment->0.total_weight
                        == crate::calibration::spec_adjustment_weight(
                        final(self).calibration_events@,
                        info.source,
                    )
                    &&& info.adjustment->0.wf()
                },
    {
        let c: usize = samples.len();
        let event = CalibrationEvent::new(samples);
        let ghost old_events = self.calibration_events@;
        self.calibration_events.push(event);
        proof {
            assert(self.calibration_events@.drop_last() =~= old_events);
            assert forall|i: int| 0 <= i < self.calibration_events@.len() implies (
            #[trigger] self.calibration_events@[i]).wf() by {
                if i < old_events.len() {
                    assert(self.calibration_events@[i] == old_events[i]);
                }
            }
        }
        self.events_weight = self.events_weight + c as i64;

        let n: usize = self.streams.len();
        let mut updated: Vec<StreamInfo> = Vec::new();
        let mut i: usize = 0;
        while i < n
            invariant
                i <= n,
                n == self.streams@.len(),
                self.streams@ == old(self).streams@,
                self.wf(),
                updated@.len() == i,
                forall|j: int|
                    0 <= j < i ==> {
                        let info = #[trigger] updated@[j];
                        let old_info = old(self).streams@[j];
                        &&& info.source == old_info.source
                        &&& info.flip_flop == old_info.flip_flop
                        &&& info.width == old_info.width
                        &&& info.height == old_info.height
                        &&& info.adjustment is Some
                        &&& info.adjustment->0.roll_num
                            == crate::calibration::spec_adjustment_roll_num(
                            self.calibration_events@,
                            info.source,
                        )
                        &&& info.adjustment->0.pitch_num
                            == crate::calibration::spec_adjustment_pitch_num(
                            self.calibration_events@,
                            info.source,
                        )
                        &&& info.adjustment->0.total_weight
                            == crate::calibration::spec_adjustment_weight(
                            self.calibration_events@,
                            info.source,
                        )
                        &&& info.adjustment->0.wf()
                    },
            decreases n - i,
        {
            let info = self.streams[i];
            let adjustment = Adjustment::new(info.source, &self.calibration_events);
            updated.push(
                StreamInfo {
                    source: info.source,
                    flip_flop: info.flip_flop,
                    adjustment: Option::Some(adjustment),
                    width: info.width,
                    height: info.height,
                },
            );
            i = i + 1;
        }
        self.streams = updated;
    }
}

} // verus!
