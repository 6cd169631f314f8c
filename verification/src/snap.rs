//! Synchronized snapshot selection.
//!
//! Each device worker discards a burn-in frame, treats it as the initial
//! candidate, and then keeps capturing while each new frame lands strictly
//! closer to the target instant; the first non-improving frame ends the
//! search and the previous best is kept.  The distance sequence is assumed
//! unimodal (decreasing, then increasing), so the first non-improving step
//! marks the minimum; under irregular frame pacing the rule can stop at a
//! local minimum, which is the documented behavior and kept as such.

use crate::time::{abs_nanos_between, spec_abs_nanos_between, UtcTime};
use crate::wire::{CapturedFrame, CapturedFrameView, SnapResponse};
use vstd::prelude::*;

verus! {

/// How far a capture instant lands from the snapshot target, in nanoseconds.
pub open spec fn spec_dist(target: UtcTime, t: UtcTime) -> int {
    spec_abs_nanos_between(target, t)
}

/// Distances to the target strictly fall before index `m` and never fall
/// after it: `m` is the single local minimum.
pub open spec fn unimodal_at(target: UtcTime, times: Seq<UtcTime>, m: int) -> bool {
    0 <= m < times.len() && (forall|i: int|
        0 <= i < m ==> spec_dist(target, #[trigger] times[i + 1]) < spec_dist(
            target,
            times[i],
        )) && (forall|i: int|
        m <= i < times.len() - 1 ==> spec_dist(target, #[trigger] times[i + 1]) >= spec_dist(
            target,
            times[i],
        ))
}

/// The distances of a timestamp sequence to the target fall, then rise:
/// exactly one local minimum.
pub open spec fn unimodal_distances(target: UtcTime, times: Seq<UtcTime>) -> bool {
    exists|m: int| #[trigger] unimodal_at(target, times, m)
}

/// Scans capture instants in order and returns the index of the frame the
/// stopping rule selects: distances to the target strictly improve up to the
/// result, and the scan ends at the first non-improving step (or at the end
/// of the sequence).
pub fn select_nearest(target: UtcTime, times: &Vec<UtcTime>) -> (r: usize)
    requires
        times@.len() > 0,
        target.wf(),
        forall|i: int| 0 <= i < times@.len() ==> (#[trigger] times@[i]).wf(),
    ensures
        r < times@.len(),
        forall|i: int|
            0 <= i < r ==> spec_dist(target, #[trigger] times@[i + 1]) < spec_dist(
                target,
                times@[i],
            ),
        r + 1 < times@.len() ==> spec_dist(target, times@[r + 1]) >= spec_dist(
            target,
            times@[r as int],
        ),
{
    let mut best_dist: u128 = abs_nanos_between(target, times[0]);
    let mut i: usize = 1;
    while i < times.len()
        invariant
            1 <= i <= times@.len(),
            target.wf(),
            forall|j: int| 0 <= j < times@.len() ==> (#[trigger] times@[j]).wf(),
            best_dist == spec_dist(target, times@[i - 1]),
            forall|j: int|
                0 <= j < i - 1 ==> spec_dist(target, #[trigger] times@[j + 1]) < spec_dist(
                    target,
                    times@[j],
                ),
        decreases times@.len() - i,
    {
        let d = abs_nanos_between(target, times[i]);
        if d >= best_dist {
            return i - 1;
        }
        best_dist = d;
        i = i + 1;
    }
    i - 1
}

/// Along a strictly improving stretch, later frames are strictly closer.
proof fn lemma_chain_decreasing(target: UtcTime, times: Seq<UtcTime>, hi: int, a: int, b: int)
    requires
        0 <= hi < times.len(),
        forall|i: int|
            0 <= i < hi ==> spec_dist(target, #[trigger] times[i + 1]) < spec_dist(
                target,
                times[i],
            ),
        0 <= a <= b <= hi,
    ensures
        spec_dist(target, times[b]) <= spec_dist(target, times[a]),
    decreases b - a,
{
    if a < b {
        lemma_chain_decreasing(target, times, hi, a + 1, b);
        assert(spec_dist(target, times[a + 1]) < spec_dist(target, times[a]));
    }
}

/// Along a non-decreasing stretch, later frames are no closer.
proof fn lemma_chain_increasing(target: UtcTime, times: Seq<UtcTime>, lo: int, a: int, b: int)
    requires
        0 <= lo <= a <= b < times.len(),
        forall|i: int|
            lo <= i < times.len() - 1 ==> spec_dist(target, #[trigger] times[i + 1]) >= spec_dist(
                target,
                times[i],
            ),
    ensures
        spec_dist(target, times[b]) >= spec_dist(target, times[a]),
    decreases b - a,
{
    if a < b {
        lemma_chain_increasing(target, times, lo, a, b - 1);
        assert(spec_dist(target, times[(b - 1) + 1]) >= spec_dist(target, times[b - 1]));
    }
}

/// Nearest-time selection correctness: when the distance sequence really is
/// unimodal, the index the stopping rule selects (strictly improving prefix,
/// first non-improving successor) minimizes the distance to the target over
/// the whole sequence.
pub proof fn lemma_select_nearest_minimizes(target: UtcTime, times: Seq<UtcTime>, r: int)
    requires
        times.len() > 0,
        unimodal_distances(target, times),
        0 <= r < times.len(),
        forall|i: int|
            0 <= i < r ==> spec_dist(target, #[trigger] times[i + 1]) < spec_dist(
                target,
                times[i],
            ),
        r + 1 < times.len() ==> spec_dist(target, times[r + 1]) >= spec_dist(target, times[r]),
    ensures
        forall|i: int|
            0 <= i < times.len() ==> spec_dist(target, times[r]) <= spec_dist(
                target,
                #[trigger] times[i],
            ),
{
    let m = choose|m: int| #[trigger] unimodal_at(target, times, m);
    assert forall|i: int| 0 <= i < times.len() implies spec_dist(target, times[r]) <= spec_dist(
        target,
        #[trigger] times[i],
    ) by {
        if i <= r {
            lemma_chain_decreasing(target, times, r, i, r);
        } else {
            // The scan stopped at `r`, so either `r` is the last index (and
            // no such `i` exists) or the step after `r` does not improve,
            // which on a unimodal sequence puts `r` at or past the minimum.
            assert(r + 1 < times.len());
            if r < m {
                assert(spec_dist(target, times[r + 1]) < spec_dist(target, times[r]));
                assert(false);
            }
            lemma_chain_increasing(target, times, m, r, i);
        }
    }
}

/// One snapshot worker's running state: the best frame seen so far and its
/// distance to the target.
pub struct NearestSearch {
    pub target: UtcTime,
    pub best: CapturedFrame,
    pub best_dist: u128,
}

impl NearestSearch {
    /// The cached distance belongs to the cached frame.
    pub open spec fn wf(self) -> bool {
        &&& self.target.wf()
        &&& self.best.wf()
        &&& self.best_dist == spec_dist(self.target, self.best@.captured_at)
    }

    /// Starts a search with the first frame (the burn-in frame) as the
    /// current best candidate.
    pub fn new(target: UtcTime, first: CapturedFrame) -> (r: NearestSearch)
        requires
            target.wf(),
            first.wf(),
        ensures
            r.wf(),
            r.target == target,
            r.best@ == first@,
    {
        let best_dist = abs_nanos_between(target, first.captured_at());
        NearestSearch { target, best: first, best_dist }
    }

    /// Offers the next captured frame.  A frame strictly closer to the
    /// target replaces the best candidate and the search goes on; any other
    /// frame is discarded and the search is over (first non-improving step).
    pub fn offer(&mut self, frame: CapturedFrame) -> (accepted: bool)
        requires
            old(self).wf(),
            frame.wf(),
        ensures
            final(self).wf(),
            final(self).target == old(self).target,
            accepted <==> spec_dist(old(self).target, frame@.captured_at) < spec_dist(
                old(self).target,
                old(self).best@.captured_at,
            ),
            accepted ==> final(self).best@ == frame@,
            !accepted ==> final(self).best@ == old(self).best@,
    {
        let d = abs_nanos_between(self.target, frame.captured_at());
        if d >= self.best_dist {
            false
        } else {
            self.best = frame;
            self.best_dist = d;
            true
        }
    }

    /// Ends the search, yielding the selected frame.
    pub fn into_best(self) -> (r: CapturedFrame)
        ensures
            r@ == self.best@,
            self.wf() ==> r.wf(),
    {
        self.best
    }
}

// ---------------------------------------------------------------------------
// Collecting a snapshot round
// ---------------------------------------------------------------------------

/// The views of a sequence of per-device worker results (`None` for a worker
/// that failed).
pub open spec fn spec_option_views(rs: Seq<Option<CapturedFrame>>) -> Seq<
    Option<CapturedFrameView>,
> {
    rs.map(
        |i: int, o: Option<CapturedFrame>|
            match o {
                Option::Some(f) => Option::Some(f@),
                Option::None => Option::None,
            },
    )
}

/// Zero or one frames, depending on whether the worker succeeded.
pub open spec fn spec_opt_frames(o: Option<CapturedFrameView>) -> Seq<CapturedFrameView> {
    match o {
        Option::Some(f) => seq![f],
        Option::None => Seq::empty(),
    }
}

/// The frames of the successful results, in order; failed workers are
/// simply omitted.
pub open spec fn spec_collected(rs: Seq<Option<CapturedFrameView>>) -> Seq<CapturedFrameView> {
    rs.flat_map(|o: Option<CapturedFrameView>| spec_opt_frames(o))
}

/// Builds the snap response from the per-device worker results: every frame
/// a worker produced is included, in worker order, and a failed worker is
/// omitted without failing the round.
pub fn collect_stills(results: Vec<Option<CapturedFrame>>) -> (r: SnapResponse)
    requires
        forall|i: int|
            0 <= i < results@.len() ==> (results@[i] is Some ==> (#[trigger] results@[i])->0.wf()),
        results@.len() <= u32::MAX,
    ensures
        r.wf(),
        r@ == spec_collected(spec_option_views(results@)),
        r@.len() <= results@.len(),
{
    let ghost whole = spec_option_views(results@);
    let ghost opt_frames = |o: Option<CapturedFrameView>| spec_opt_frames(o);
    let n: usize = results.len();
    let mut stills: Vec<CapturedFrame> = Vec::new();
    let mut rest = results;
    let mut i: usize = 0;
    proof {
        assert(whole.take(0).flat_map(opt_frames) =~= Seq::<CapturedFrameView>::empty());
        assert(stills@.map(|j: int, f: CapturedFrame| f@) =~= Seq::<CapturedFrameView>::empty());
    }
    while i < n
        invariant
            i <= n,
            n == whole.len(),
            forall|o: Option<CapturedFrameView>| #[trigger] opt_frames(o) == spec_opt_frames(o),
            rest@.len() == n - i,
            forall|j: int|
                0 <= j < rest@.len() ==> (rest@[j] is Some ==> (#[trigger] rest@[j])->0.wf()),
            spec_option_views(rest@) =~= whole.skip(i as int),
            forall|j: int| 0 <= j < stills@.len() ==> (#[trigger] stills@[j]).wf(),
            stills@.map(|j: int, f: CapturedFrame| f@) =~= whole.take(i as int).flat_map(
                opt_frames,
            ),
            stills@.len() <= i,
        decreases n - i,
    {
        let ghost oi = i as int;
        let ghost prev_rest = rest@;
        let ghost prev_map = stills@.map(|j: int, fr: CapturedFrame| fr@);
        proof {
            whole.lemma_flat_map_take_append(opt_frames, oi);
            assert(spec_option_views(prev_rest)[0] == whole[oi]);
        }
        let head = rest.remove(0);
        proof {
            assert forall|j: int| 0 <= j < rest@.len() implies spec_option_views(rest@)[j]
                == whole.skip(oi + 1)[j] by {
                assert(rest@[j] == prev_rest[j + 1]);
                assert(spec_option_views(prev_rest)[j + 1] == whole.skip(oi)[j + 1]);
            }
            assert(spec_option_views(rest@) =~= whole.skip(oi + 1));
        }
        match head {
            Option::Some(f) => {
                let ghost fv = f@;
                proof {
                    assert(whole[oi] == Option::Some(fv));
                    assert(opt_frames(whole[oi]) == spec_opt_frames(whole[oi]));
                    assert(spec_opt_frames(whole[oi]) =~= seq![fv]);
                }
                stills.push(f);
                proof {
                    assert(stills@.map(|j: int, fr: CapturedFrame| fr@) =~= prev_map + seq![fv]);
                    assert(stills@.map(|j: int, fr: CapturedFrame| fr@) =~= whole.take(
                        oi + 1,
                    ).flat_map(opt_frames));
                }
            },
            Option::None => {
                proof {
                    assert(whole[oi] is None);
                    assert(opt_frames(whole[oi]) == spec_opt_frames(whole[oi]));
                    assert(spec_opt_frames(whole[oi]) =~= Seq::<CapturedFrameView>::empty());
                    assert(stills@.map(|j: int, fr: CapturedFrame| fr@) =~= whole.take(
                        oi + 1,
                    ).flat_map(opt_frames));
                }
            },
        }
        i = i + 1;
    }
    proof {
        assert(whole.take(n as int) =~= whole);
    }
    SnapResponse { stills }
}

} // verus!
