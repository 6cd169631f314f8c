//! The calibration engine.
//!
//! Each synchronized snapshot round yields one `CalibrationEvent`: the
//! fiducial-pose roll/pitch detected per stream, plus the round's mean roll
//! and pitch.  A stream's `Adjustment` is recomputed from the entire event
//! history: in every round that saw the stream, the stream's deviation from
//! that round's group mean is weighted by how many streams the round saw
//! (more participants, more reliable consensus), and the weighted deviations
//! are averaged.  A globally tilted rig is therefore not "corrected away";
//! only relative misalignment is.
//!
//! Angles are kept in microdegrees, so every quantity here is exact integer
//! arithmetic: the weight of a round equals the denominator of its mean, so
//! `weight * (roll - mean)` is the integer `weight * roll - roll_sum`.

use crate::streams::StreamSource;
use vstd::prelude::*;

verus! {

/// Largest magnitude a pose angle can have: half a turn, in microdegrees.
pub const MAX_ANGLE_MICRODEG: i64 = 180_000_000;

/// Most streams one calibration round can include.
pub const MAX_STREAMS_PER_EVENT: usize = 4096;

/// Budget on the summed weights of the whole event history, so that every
/// accumulated numerator stays well inside `i64`.
pub const MAX_TOTAL_WEIGHT: i64 = 0x1_0000_0000;

/// A fiducial marker pose, in microdegrees.
#[derive(Copy, Clone, PartialEq, Eq, Structural, Debug)]
pub struct EulerAngles {
    pub pitch: i64,
    pub roll: i64,
    pub yaw: i64,
}

impl EulerAngles {
    /// Every angle is at most half a turn in magnitude.
    pub open spec fn wf(self) -> bool {
        &&& -MAX_ANGLE_MICRODEG <= self.pitch <= MAX_ANGLE_MICRODEG
        &&& -MAX_ANGLE_MICRODEG <= self.roll <= MAX_ANGLE_MICRODEG
        &&& -MAX_ANGLE_MICRODEG <= self.yaw <= MAX_ANGLE_MICRODEG
    }
}

/// An exact rational: `num / den`.
#[derive(Copy, Clone, PartialEq, Eq, Structural, Debug)]
pub struct Ratio {
    pub num: i64,
    pub den: i64,
}

impl Ratio {
    /// The denominator is positive.
    pub open spec fn wf(self) -> bool {
        self.den > 0
    }
}

/// Two ratios denote the same rational number.
pub open spec fn ratio_eq(a: Ratio, b: Ratio) -> bool {
    a.num * b.den == b.num * a.den
}

/// An incremental mean: a running sum and how many measurements went in.
#[derive(Copy, Clone, PartialEq, Eq, Structural, Debug)]
pub struct Averager {
    pub sum: i64,
    pub measurement_count: i64,
}

impl Averager {
    /// An empty mean.
    pub fn new() -> (r: Averager)
        ensures
            r.sum == 0,
            r.measurement_count == 0,
    {
        Averager { sum: 0, measurement_count: 0 }
    }

    /// Folds one measurement in.
    pub fn add(&mut self, value: i64)
        requires
            i64::MIN <= old(self).sum + value <= i64::MAX,
            old(self).measurement_count < i64::MAX,
        ensures
            final(self).sum == old(self).sum + value,
            final(self).measurement_count == old(self).measurement_count + 1,
    {
        self.sum = self.sum + value;
        self.measurement_count = self.measurement_count + 1;
    }

    /// How many measurements went in.
    pub fn measurement_count(self) -> (r: i64)
        ensures
            r == self.measurement_count,
    {
        self.measurement_count
    }

    /// The mean, as an exact rational.
    pub fn read(self) -> (r: Ratio)
        requires
            self.measurement_count > 0,
        ensures
            r.num == self.sum,
            r.den == self.measurement_count,
            r.wf(),
    {
        Ratio { num: self.sum, den: self.measurement_count }
    }

    /// Merges two means: the mean of the union of their measurements.
    pub fn merge(self, other: Averager) -> (r: Averager)
        requires
            i64::MIN <= self.sum + other.sum <= i64::MAX,
            i64::MIN <= self.measurement_count + other.measurement_count <= i64::MAX,
        ensures
            r.sum == self.sum + other.sum,
            r.measurement_count == self.measurement_count + other.measurement_count,
    {
        Averager {
            sum: self.sum + other.sum,
            measurement_count: self.measurement_count + other.measurement_count,
        }
    }
}

// ---------------------------------------------------------------------------
// Calibration events
// ---------------------------------------------------------------------------

/// The pose of `s` in a round's samples, if the round saw it: the first
/// sample for `s` at or after index `i`.
pub open spec fn spec_lookup_from(
    samples: Seq<(StreamSource, EulerAngles)>,
    s: StreamSource,
    i: int,
) -> Option<EulerAngles>
    decreases samples.len() - i,
{
    if i >= samples.len() || i < 0 {
        Option::None
    } else if samples[i].0 == s {
        Option::Some(samples[i].1)
    } else {
        spec_lookup_from(samples, s, i + 1)
    }
}

/// The pose of `s` in a round's samples, if the round saw it.
pub open spec fn spec_lookup(samples: Seq<(StreamSource, EulerAngles)>, s: StreamSource) -> Option<
    EulerAngles,
> {
    spec_lookup_from(samples, s, 0)
}

/// The summed roll of a round's samples.
pub open spec fn spec_roll_sum(samples: Seq<(StreamSource, EulerAngles)>) -> int
    decreases samples.len(),
{
    if samples.len() == 0 {
        0
    } else {
        spec_roll_sum(samples.drop_last()) + samples.last().1.roll
    }
}

/// The summed pitch of a round's samples.
pub open spec fn spec_pitch_sum(samples: Seq<(StreamSource, EulerAngles)>) -> int
    decreases samples.len(),
{
    if samples.len() == 0 {
        0
    } else {
        spec_pitch_sum(samples.drop_last()) + samples.last().1.pitch
    }
}

/// No stream appears twice in one round.
pub open spec fn distinct_sources(samples: Seq<(StreamSource, EulerAngles)>) -> bool {
    forall|i: int, j: int|
        0 <= i < j < samples.len() ==> (#[trigger] samples[i]).0 != (#[trigger] samples[j]).0
}

/// One synchronized snapshot round: the pose detected per stream, and the
/// round's running mean roll and pitch (denominator: how many streams
/// yielded a detection this round).
pub struct CalibrationEvent {
    pub samples: Vec<(StreamSource, EulerAngles)>,
    pub average_roll: Averager,
    pub average_pitch: Averager,
}

impl CalibrationEvent {
    /// Samples are per-stream, angles are in range, and the cached means are
    /// the means of the samples.
    pub open spec fn wf(self) -> bool {
        &&& self.samples@.len() <= MAX_STREAMS_PER_EVENT
        &&& distinct_sources(self.samples@)
        &&& forall|i: int| 0 <= i < self.samples@.len() ==> (#[trigger] self.samples@[i]).1.wf()
        &&& self.average_roll.sum == spec_roll_sum(self.samples@)
        &&& self.average_roll.measurement_count == self.samples@.len()
        &&& self.average_pitch.sum == spec_pitch_sum(self.samples@)
        &&& self.average_pitch.measurement_count == self.samples@.len()
    }

    /// The round's weight: how many streams yielded a detection.
    pub open spec fn weight(self) -> int {
        self.samples@.len() as int
    }

    /// Builds one round from the per-stream detections, folding each pose
    /// into the round's running mean roll and pitch.
    pub fn new(samples: Vec<(StreamSource, EulerAngles)>) -> (r: CalibrationEvent)
        requires
            samples@.len() <= MAX_STREAMS_PER_EVENT,
            distinct_sources(samples@),
            forall|i: int| 0 <= i < samples@.len() ==> (#[trigger] samples@[i]).1.wf(),
        ensures
            r.wf(),
            r.samples@ == samples@,
    {
        let mut average_roll = Averager::new();
        let mut average_pitch = Averager::new();
        let n: usize = samples.len();
        let mut i: usize = 0;
        while i < n
            invariant
                i <= n,
                n == samples@.len(),
                n <= MAX_STREAMS_PER_EVENT,
                forall|j: int| 0 <= j < samples@.len() ==> (#[trigger] samples@[j]).1.wf(),
                average_roll.sum == spec_roll_sum(samples@.take(i as int)),
                average_roll.measurement_count == i,
                average_pitch.sum == spec_pitch_sum(samples@.take(i as int)),
                average_pitch.measurement_count == i,
                -(i as int) * 180_000_000 <= average_roll.sum <= (i as int) * 180_000_000,
                -(i as int) * 180_000_000 <= average_pitch.sum <= (i as int) * 180_000_000,
            decreases n - i,
        {
            proof {
                assert(samples@.take(i as int + 1).drop_last() =~= samples@.take(i as int));
                assert(samples@.take(i as int + 1).last() == samples@[i as int]);
            }
            let (_, angles) = samples[i];
            average_roll.add(angles.roll);
            average_pitch.add(angles.pitch);
            i = i + 1;
        }
        proof {
            assert(samples@.take(n as int) =~= samples@);
        }
        CalibrationEvent { samples, average_roll, average_pitch }
    }
}

/// Every event in a history is well-formed.
pub open spec fn events_wf(events: Seq<CalibrationEvent>) -> bool {
    forall|i: int| 0 <= i < events.len() ==> (#[trigger] events[i]).wf()
}

/// The summed weights of a whole history.
pub open spec fn spec_total_weight(events: Seq<CalibrationEvent>) -> int
    decreases events.len(),
{
    if events.len() == 0 {
        0
    } else {
        spec_total_weight(events.drop_last()) + events.last().weight()
    }
}

/// What one round adds to a stream's roll numerator: the round's weight
/// times the stream's deviation from the round mean — exactly
/// `weight * roll - roll_sum`, since the weight equals the mean's
/// denominator.  A round that did not see the stream adds nothing.
pub open spec fn spec_roll_contribution(e: CalibrationEvent, s: StreamSource) -> int {
    match spec_lookup(e.samples@, s) {
        Option::Some(a) => e.weight() * a.roll - spec_roll_sum(e.samples@),
        Option::None => 0,
    }
}

/// What one round adds to a stream's pitch numerator.
pub open spec fn spec_pitch_contribution(e: CalibrationEvent, s: StreamSource) -> int {
    match spec_lookup(e.samples@, s) {
        Option::Some(a) => e.weight() * a.pitch - spec_pitch_sum(e.samples@),
        Option::None => 0,
    }
}

/// What one round adds to a stream's weight denominator.
pub open spec fn spec_weight_contribution(e: CalibrationEvent, s: StreamSource) -> int {
    if spec_lookup(e.samples@, s) is Some {
        e.weight()
    } else {
        0
    }
}

/// A stream's roll numerator over a whole history.
pub open spec fn spec_adjustment_roll_num(events: Seq<CalibrationEvent>, s: StreamSource) -> int
    decreases events.len(),
{
    if events.len() == 0 {
        0
    } else {
        spec_adjustment_roll_num(events.drop_last(), s) + spec_roll_contribution(events.last(), s)
    }
}

/// A stream's pitch numerator over a whole history.
pub open spec fn spec_adjustment_pitch_num(events: Seq<CalibrationEvent>, s: StreamSource) -> int
    decreases events.len(),
{
    if events.len() == 0 {
        0
    } else {
        spec_adjustment_pitch_num(events.drop_last(), s) + spec_pitch_contribution(
            events.last(),
            s,
        )
    }
}

/// A stream's weight denominator over a whole history: the summed weights of
/// the rounds that saw it.
pub open spec fn spec_adjustment_weight(events: Seq<CalibrationEvent>, s: StreamSource) -> int
    decreases events.len(),
{
    if events.len() == 0 {
        0
    } else {
        spec_adjustment_weight(events.drop_last(), s) + spec_weight_contribution(events.last(), s)
    }
}

// ---------------------------------------------------------------------------
// Bounds
// ---------------------------------------------------------------------------

/// A pose found among well-formed samples is well-formed.
pub proof fn lemma_lookup_wf(samples: Seq<(StreamSource, EulerAngles)>, s: StreamSource, i: int)
    requires
        forall|j: int| 0 <= j < samples.len() ==> (#[trigger] samples[j]).1.wf(),
        spec_lookup_from(samples, s, i) is Some,
    ensures
        spec_lookup_from(samples, s, i)->0.wf(),
    decreases samples.len() - i,
{
    if 0 <= i < samples.len() && samples[i].0 != s {
        lemma_lookup_wf(samples, s, i + 1);
    }
}

/// The summed angles of a round are bounded by its size.
pub proof fn lemma_angle_sums_bound(samples: Seq<(StreamSource, EulerAngles)>)
    requires
        forall|j: int| 0 <= j < samples.len() ==> (#[trigger] samples[j]).1.wf(),
    ensures
        -samples.len() * 180_000_000 <= spec_roll_sum(samples) <= samples.len() * 180_000_000,
        -samples.len() * 180_000_000 <= spec_pitch_sum(samples) <= samples.len() * 180_000_000,
    decreases samples.len(),
{
    if samples.len() > 0 {
        assert(forall|j: int|
            0 <= j < samples.drop_last().len() ==> (#[trigger] samples.drop_last()[j]).1.wf());
        lemma_angle_sums_bound(samples.drop_last());
    }
}

/// What one round contributes is bounded by its weight.
pub proof fn lemma_contribution_bounds(e: CalibrationEvent, s: StreamSource)
    requires
        e.wf(),
    ensures
        0 <= spec_weight_contribution(e, s) <= e.weight(),
        -360_000_000 * spec_weight_contribution(e, s) <= spec_roll_contribution(e, s)
            <= 360_000_000 * spec_weight_contribution(e, s),
        -360_000_000 * spec_weight_contribution(e, s) <= spec_pitch_contribution(e, s)
            <= 360_000_000 * spec_weight_contribution(e, s),
{
    match spec_lookup(e.samples@, s) {
        Option::Some(a) => {
            lemma_lookup_wf(e.samples@, s, 0);
            lemma_angle_sums_bound(e.samples@);
            let c = e.weight();
            let rsum = spec_roll_sum(e.samples@);
            let psum = spec_pitch_sum(e.samples@);
            assert(-360_000_000 * c <= c * a.roll - rsum <= 360_000_000 * c)
                by (nonlinear_arith)
                requires
                    0 <= c,
                    -180_000_000 <= a.roll <= 180_000_000,
                    -(c * 180_000_000) <= rsum <= c * 180_000_000,
            ;
            assert(-360_000_000 * c <= c * a.pitch - psum <= 360_000_000 * c)
                by (nonlinear_arith)
                requires
                    0 <= c,
                    -180_000_000 <= a.pitch <= 180_000_000,
                    -(c * 180_000_000) <= psum <= c * 180_000_000,
            ;
        },
        Option::None => {},
    }
}

/// A stream's accumulated numerators stay within twice the largest angle per
/// unit of accumulated weight, and its weight within the history's total.
pub proof fn lemma_adjustment_bounds(events: Seq<CalibrationEvent>, s: StreamSource)
    requires
        events_wf(events),
    ensures
        0 <= spec_adjustment_weight(events, s) <= spec_total_weight(events),
        -360_000_000 * spec_adjustment_weight(events, s) <= spec_adjustment_roll_num(events, s)
            <= 360_000_000 * spec_adjustment_weight(events, s),
        -360_000_000 * spec_adjustment_weight(events, s) <= spec_adjustment_pitch_num(events, s)
            <= 360_000_000 * spec_adjustment_weight(events, s),
    decreases events.len(),
{
    if events.len() > 0 {
        assert(forall|j: int|
            0 <= j < events.drop_last().len() ==> (#[trigger] events.drop_last()[j]).wf());
        lemma_adjustment_bounds(events.drop_last(), s);
        assert(events.last().wf());
        lemma_contribution_bounds(events.last(), s);
        let wdl = spec_adjustment_weight(events.drop_last(), s);
        let wc = spec_weight_contribution(events.last(), s);
        let w = spec_adjustment_weight(events, s);
        let rdl = spec_adjustment_roll_num(events.drop_last(), s);
        let rc = spec_roll_contribution(events.last(), s);
        assert(spec_adjustment_roll_num(events, s) == rdl + rc);
        let pdl = spec_adjustment_pitch_num(events.drop_last(), s);
        let pc = spec_pitch_contribution(events.last(), s);
        assert(spec_adjustment_pitch_num(events, s) == pdl + pc);
    }
}

/// A history prefix weighs no more than the whole history.
pub proof fn lemma_total_weight_prefix(events: Seq<CalibrationEvent>, i: int)
    requires
        0 <= i <= events.len(),
    ensures
        spec_total_weight(events.take(i)) <= spec_total_weight(events),
    decreases events.len() - i,
{
    if i == events.len() {
        assert(events.take(i) =~= events);
    } else {
        lemma_total_weight_prefix(events, i + 1);
        assert(events.take(i + 1).drop_last() =~= events.take(i));
        assert(spec_total_weight(events.take(i + 1)) == spec_total_weight(events.take(i))
            + events[i].weight());
    }
}

// ---------------------------------------------------------------------------
// Adjustments
// ---------------------------------------------------------------------------

/// Finds the pose of `s` in a round's samples, scanning from index `i`.
fn lookup_from(
    samples: &Vec<(StreamSource, EulerAngles)>,
    s: StreamSource,
    i: usize,
) -> (r: Option<EulerAngles>)
    requires
        i <= samples@.len(),
    ensures
        r == spec_lookup_from(samples@, s, i as int),
    decreases samples@.len() - i,
{
    if i == samples.len() {
        Option::None
    } else {
        let (source, angles) = samples[i];
        if source == s {
            Option::Some(angles)
        } else {
            lookup_from(samples, s, i + 1)
        }
    }
}

/// A stream's derived roll/pitch correction: exact rationals
/// `roll_num / total_weight` and `pitch_num / total_weight`, recomputed
/// deterministically from the whole event history.  A stream with no
/// qualifying event has zero adjustment.
#[derive(Copy, Clone, PartialEq, Eq, Structural, Debug)]
pub struct Adjustment {
    pub roll_num: i64,
    pub pitch_num: i64,
    pub total_weight: i64,
}

impl Adjustment {
    /// The denominator never goes negative, and with no qualifying events
    /// both numerators are zero.
    pub open spec fn wf(self) -> bool {
        &&& self.total_weight >= 0
        &&& (self.total_weight == 0 ==> self.roll_num == 0 && self.pitch_num == 0)
    }

    /// Recomputes a stream's adjustment from the entire event history: for
    /// every round that saw the stream, the round's weight times the
    /// stream's deviation from the round mean, summed; divided (as an exact
    /// rational) by the summed weights.
    pub fn new(stream: StreamSource, events: &Vec<CalibrationEvent>) -> (r: Adjustment)
        requires
            events_wf(events@),
            spec_total_weight(events@) <= MAX_TOTAL_WEIGHT,
        ensures
            r.wf(),
            r.roll_num == spec_adjustment_roll_num(events@, stream),
            r.pitch_num == spec_adjustment_pitch_num(events@, stream),
            r.total_weight == spec_adjustment_weight(events@, stream),
    {
        let mut roll_num: i64 = 0;
        let mut pitch_num: i64 = 0;
        let mut total_weight: i64 = 0;
        let n: usize = events.len();
        let mut i: usize = 0;
        while i < n
            invariant
                i <= n,
                n == events@.len(),
                events_wf(events@),
                spec_total_weight(events@) <= MAX_TOTAL_WEIGHT,
                roll_num == spec_adjustment_roll_num(events@.take(i as int), stream),
                pitch_num == spec_adjustment_pitch_num(events@.take(i as int), stream),
                total_weight == spec_adjustment_weight(events@.take(i as int), stream),
            decreases n - i,
        {
            let ghost prefix = events@.take(i as int);
            let ghost prefix1 = events@.take(i as int + 1);
            proof {
                assert(forall|j: int| 0 <= j < prefix.len() ==> (#[trigger] prefix[j]).wf());
                assert(forall|j: int| 0 <= j < prefix1.len() ==> (#[trigger] prefix1[j]).wf());
                assert(prefix1.drop_last() =~= prefix);
                assert(prefix1.last() == events@[i as int]);
                lemma_adjustment_bounds(prefix, stream);
                lemma_adjustment_bounds(prefix1, stream);
                lemma_total_weight_prefix(events@, i as int);
                lemma_total_weight_prefix(events@, i as int + 1);
                lemma_contribution_bounds(events@[i as int], stream);
            }
            let e = &events[i];
            match lookup_from(&e.samples, stream, 0) {
                Option::Some(angles) => {
                    let c: i64 = e.samples.len() as i64;
                    proof {
                        assert(events@[i as int].wf());
                        assert(e.samples@.len() <= MAX_STREAMS_PER_EVENT);
                        lemma_lookup_wf(e.samples@, stream, 0);
                        lemma_angle_sums_bound(e.samples@);
                        assert(-(c * 180_000_000) <= c * angles.roll <= c * 180_000_000)
                            by (nonlinear_arith)
                            requires
                                0 <= c,
                                -180_000_000 <= angles.roll <= 180_000_000,
                        ;
                        assert(-(c * 180_000_000) <= c * angles.pitch <= c * 180_000_000)
                            by (nonlinear_arith)
                            requires
                                0 <= c,
                                -180_000_000 <= angles.pitch <= 180_000_000,
                        ;
                    }
                    roll_num = roll_num + (c * angles.roll - e.average_roll.sum);
                    pitch_num = pitch_num + (c * angles.pitch - e.average_pitch.sum);
                    total_weight = total_weight + c;
                },
                Option::None => {},
            }
            i = i + 1;
        }
        proof {
            assert(events@.take(n as int) =~= events@);
            lemma_adjustment_bounds(events@, stream);
        }
        Adjustment { roll_num, pitch_num, total_weight }
    }

    /// The roll correction, as an exact rational (zero when no event saw the
    /// stream).
    pub fn roll(&self) -> (r: Ratio)
        requires
            self.wf(),
        ensures
            r == self.spec_roll(),
            r.wf(),
    {
        if self.total_weight == 0 {
            Ratio { num: 0, den: 1 }
        } else {
            Ratio { num: self.roll_num, den: self.total_weight }
        }
    }

    /// The pitch correction, as an exact rational.
    pub fn pitch(&self) -> (r: Ratio)
        requires
            self.wf(),
        ensures
            r == self.spec_pitch(),
            r.wf(),
    {
        if self.total_weight == 0 {
            Ratio { num: 0, den: 1 }
        } else {
            Ratio { num: self.pitch_num, den: self.total_weight }
        }
    }

    /// The roll correction as a rational.
    pub open spec fn spec_roll(self) -> Ratio {
        if self.total_weight == 0 {
            Ratio { num: 0, den: 1 }
        } else {
            Ratio { num: self.roll_num, den: self.total_weight }
        }
    }

    /// The pitch correction as a rational.
    pub open spec fn spec_pitch(self) -> Ratio {
        if self.total_weight == 0 {
            Ratio { num: 0, den: 1 }
        } else {
            Ratio { num: self.pitch_num, den: self.total_weight }
        }
    }
}

// ---------------------------------------------------------------------------
// Laws
// ---------------------------------------------------------------------------

/// Adjustments are computed event by event: a history split anywhere splits
/// every numerator and every weight into two independent sums.
pub proof fn lemma_adjustment_additive(
    a: Seq<CalibrationEvent>,
    b: Seq<CalibrationEvent>,
    s: StreamSource,
)
    ensures
        spec_adjustment_roll_num(a + b, s) == spec_adjustment_roll_num(a, s)
            + spec_adjustment_roll_num(b, s),
        spec_adjustment_pitch_num(a + b, s) == spec_adjustment_pitch_num(a, s)
            + spec_adjustment_pitch_num(b, s),
        spec_adjustment_weight(a + b, s) == spec_adjustment_weight(a, s)
            + spec_adjustment_weight(b, s),
    decreases b.len(),
{
    if b.len() == 0 {
        assert(a + b =~= a);
    } else {
        lemma_adjustment_additive(a, b.drop_last(), s);
        assert((a + b).drop_last() =~= a + b.drop_last());
        assert((a + b).last() == b.last());
    }
}

/// Weighted accumulation is invariant to duplicate-but-consistent samples:
/// replaying a whole history doubles every numerator and every weight, so
/// the resulting adjustment, as a rational, is unchanged.
pub proof fn lemma_replay_leaves_adjustment_unchanged(
    events: Seq<CalibrationEvent>,
    s: StreamSource,
)
    ensures
        spec_adjustment_roll_num(events + events, s) == 2 * spec_adjustment_roll_num(events, s),
        spec_adjustment_pitch_num(events + events, s) == 2 * spec_adjustment_pitch_num(events, s),
        spec_adjustment_weight(events + events, s) == 2 * spec_adjustment_weight(events, s),
        spec_adjustment_roll_num(events + events, s) * spec_adjustment_weight(events, s)
            == spec_adjustment_roll_num(events, s) * spec_adjustment_weight(events + events, s),
        spec_adjustment_pitch_num(events + events, s) * spec_adjustment_weight(events, s)
            == spec_adjustment_pitch_num(events, s) * spec_adjustment_weight(events + events, s),
{
    lemma_adjustment_additive(events, events, s);
    let rn = spec_adjustment_roll_num(events, s);
    let pn = spec_adjustment_pitch_num(events, s);
    let w = spec_adjustment_weight(events, s);
    assert((2 * rn) * w == rn * (2 * w)) by (nonlinear_arith);
    assert((2 * pn) * w == pn * (2 * w)) by (nonlinear_arith);
}

/// Calibration symmetry: when a single round saw exactly two streams, their
/// adjustments over that round are exact opposites — each stream's roll is
/// its deviation from the round's mean, so the two deviations cancel — and
/// the two weights are equal, so the corrections have equal magnitude (and
/// hence the same crop angle).
pub proof fn lemma_two_stream_symmetry(e: CalibrationEvent, sa: StreamSource, sb: StreamSource)
    requires
        e.wf(),
        e.samples@.len() == 2,
        e.samples@[0].0 == sa,
        e.samples@[1].0 == sb,
    ensures
        spec_adjustment_roll_num(seq![e], sa) == -spec_adjustment_roll_num(seq![e], sb),
        spec_adjustment_roll_num(seq![e], sa) == e.samples@[0].1.roll - e.samples@[1].1.roll,
        spec_adjustment_pitch_num(seq![e], sa) == -spec_adjustment_pitch_num(seq![e], sb),
        spec_adjustment_weight(seq![e], sa) == 2,
        spec_adjustment_weight(seq![e], sb) == 2,
{
    let s = seq![e];
    assert(s.drop_last() =~= Seq::<CalibrationEvent>::empty());
    assert(s.last() == e);
    assert(sa != sb);
    let dl = e.samples@.drop_last();
    assert(dl.drop_last() =~= Seq::<(StreamSource, EulerAngles)>::empty());
    assert(dl.last() == e.samples@[0]);
    assert(e.samples@.last() == e.samples@[1]);
    assert(spec_roll_sum(dl) == spec_roll_sum(dl.drop_last()) + dl.last().1.roll);
    assert(spec_roll_sum(dl.drop_last()) == 0);
    assert(spec_pitch_sum(dl) == spec_pitch_sum(dl.drop_last()) + dl.last().1.pitch);
    assert(spec_roll_sum(e.samples@) == e.samples@[0].1.roll + e.samples@[1].1.roll);
    assert(spec_pitch_sum(e.samples@) == e.samples@[0].1.pitch + e.samples@[1].1.pitch);
    assert(spec_lookup(e.samples@, sa) == Option::Some(e.samples@[0].1));
    assert(spec_lookup_from(e.samples@, sb, 1) == Option::Some(e.samples@[1].1));
    assert(spec_lookup(e.samples@, sb) == Option::Some(e.samples@[1].1));
    assert(spec_roll_contribution(e, sa) == 2 * e.samples@[0].1.roll - spec_roll_sum(e.samples@))
        by {
        assert(e.weight() == 2);
    }
    assert(spec_roll_contribution(e, sb) == 2 * e.samples@[1].1.roll - spec_roll_sum(e.samples@))
        by {
        assert(e.weight() == 2);
    }
    assert(spec_pitch_contribution(e, sa) == 2 * e.samples@[0].1.pitch - spec_pitch_sum(
        e.samples@,
    )) by {
        assert(e.weight() == 2);
    }
    assert(spec_pitch_contribution(e, sb) == 2 * e.samples@[1].1.pitch - spec_pitch_sum(
        e.samples@,
    )) by {
        assert(e.weight() == 2);
    }
    assert(spec_adjustment_roll_num(s, sa) == spec_adjustment_roll_num(s.drop_last(), sa)
        + spec_roll_contribution(e, sa));
    assert(spec_adjustment_roll_num(s.drop_last(), sa) == 0);
    assert(spec_adjustment_roll_num(s, sb) == spec_adjustment_roll_num(s.drop_last(), sb)
        + spec_roll_contribution(e, sb));
    assert(spec_adjustment_roll_num(s.drop_last(), sb) == 0);
    assert(spec_adjustment_pitch_num(s, sa) == spec_adjustment_pitch_num(s.drop_last(), sa)
        + spec_pitch_contribution(e, sa));
    assert(spec_adjustment_pitch_num(s.drop_last(), sa) == 0);
    assert(spec_adjustment_pitch_num(s, sb) == spec_adjustment_pitch_num(s.drop_last(), sb)
        + spec_pitch_contribution(e, sb));
    assert(spec_adjustment_pitch_num(s.drop_last(), sb) == 0);
    assert(spec_adjustment_weight(s.drop_last(), sa) == 0);
    assert(spec_adjustment_weight(s.drop_last(), sb) == 0);
}

} // verus!
