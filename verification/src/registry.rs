//! The device registry: reconciles the set of currently present video
//! device handles against the previously known ones.
//!
//! Every newly seen handle is assigned the next `DeviceId`; a handle that
//! disappeared is retired together with its id.  An id, once assigned,
//! refers to exactly one handle for the whole run: ids count up and are
//! never reassigned, which the ghost assignment history records.

use crate::device::{DeviceId, DeviceIdGenerator};
use vstd::prelude::*;

verus! {

/// The index `N` of an OS `videoN` device file: the handle of one capture
/// device, not stable across replug.
#[derive(Copy, Clone, PartialEq, Eq, Structural, Debug, Hash)]
pub struct DeviceFileIndex {
    pub inner: usize,
}

impl DeviceFileIndex {
    /// The handle as a plain index.
    pub fn file_index(self) -> (r: usize)
        ensures
            r == self.inner,
    {
        self.inner
    }
}

/// The registry maps `h` to `id`.
pub open spec fn maps_to(
    devices: Seq<(DeviceFileIndex, DeviceId)>,
    h: DeviceFileIndex,
    id: DeviceId,
) -> bool {
    exists|i: int| 0 <= i < devices.len() && devices[i] == (h, id)
}

/// Some entry of the registry carries handle `h`.
pub open spec fn has_handle(devices: Seq<(DeviceFileIndex, DeviceId)>, h: DeviceFileIndex) -> bool {
    exists|i: int| 0 <= i < devices.len() && (#[trigger] devices[i]).0 == h
}

/// The handle list mentions `h`.
pub open spec fn contains_handle(present: Seq<DeviceFileIndex>, h: DeviceFileIndex) -> bool {
    exists|i: int| 0 <= i < present.len() && present[i] == h
}

/// Every assignment of `earlier` still stands in `later`: ids are retired,
/// never reassigned.
pub open spec fn history_extends(earlier: Map<u32, usize>, later: Map<u32, usize>) -> bool {
    forall|id: u32| #[trigger]
        earlier.dom().contains(id) ==> later.dom().contains(id) && earlier[id] == later[id]
}

/// No handle appears twice.
pub open spec fn distinct_handles(present: Seq<DeviceFileIndex>) -> bool {
    forall|i: int, j: int|
        0 <= i < j < present.len() ==> (#[trigger] present[i]) != (#[trigger] present[j])
}

/// Tests whether the handle list mentions `h`.
fn list_contains(present: &Vec<DeviceFileIndex>, h: DeviceFileIndex) -> (r: bool)
    ensures
        r == contains_handle(present@, h),
{
    let n: usize = present.len();
    let mut i: usize = 0;
    while i < n
        invariant
            i <= n,
            n == present@.len(),
            forall|j: int| 0 <= j < i ==> present@[j] != h,
        decreases n - i,
    {
        if present[i] == h {
            return true;
        }
        i = i + 1;
    }
    false
}

/// Tests whether some registry entry carries handle `h`.
fn registry_contains(devices: &Vec<(DeviceFileIndex, DeviceId)>, h: DeviceFileIndex) -> (r: bool)
    ensures
        r == has_handle(devices@, h),
{
    let n: usize = devices.len();
    let mut i: usize = 0;
    while i < n
        invariant
            i <= n,
            n == devices@.len(),
            forall|j: int| 0 <= j < i ==> (#[trigger] devices@[j]).0 != h,
        decreases n - i,
    {
        let (handle, _) = devices[i];
        if handle == h {
            return true;
        }
        i = i + 1;
    }
    false
}

/// Copies a pair list.
fn copy_pairs(v: &Vec<(DeviceFileIndex, DeviceId)>) -> (r: Vec<(DeviceFileIndex, DeviceId)>)
    ensures
        r@ == v@,
{
    let n: usize = v.len();
    let mut out: Vec<(DeviceFileIndex, DeviceId)> = Vec::new();
    let mut i: usize = 0;
    while i < n
        invariant
            i <= n,
            n == v@.len(),
            out@ == v@.take(i as int),
        decreases n - i,
    {
        out.push(v[i]);
        i = i + 1;
        proof {
            assert(out@ =~= v@.take(i as int));
        }
    }
    proof {
        assert(v@.take(n as int) =~= v@);
    }
    out
}

/// The set of known capture devices: current handle-to-id pairs, the id
/// generator, what the last reconciliation added, and (for the books) every
/// assignment ever made.
pub struct KnownDevices {
    pub devices: Vec<(DeviceFileIndex, DeviceId)>,
    pub device_id_generator: DeviceIdGenerator,
    pub to_add: Vec<(DeviceFileIndex, DeviceId)>,
    /// Every id ever assigned, and to which handle.  Grows monotonically:
    /// an id is retired with its handle, never recycled.
    pub history: Ghost<Map<u32, usize>>,
}

impl KnownDevices {
    /// Handles and ids are unique, ids were handed out by the generator, and
    /// the current assignments agree with the assignment history.
    pub open spec fn wf(self) -> bool {
        &&& (forall|i: int, j: int|
            0 <= i < j < self.devices@.len() ==> (#[trigger] self.devices@[i]).0 != (
            #[trigger] self.devices@[j]).0)
        &&& (forall|i: int, j: int|
            0 <= i < j < self.devices@.len() ==> (#[trigger] self.devices@[i]).1 != (
            #[trigger] self.devices@[j]).1)
        &&& (forall|i: int|
            0 <= i < self.devices@.len() ==> 0 < (#[trigger] self.devices@[i]).1.0
                <= self.device_id_generator.0)
        &&& (forall|i: int|
            0 <= i < self.devices@.len() ==> self.history@.contains_pair(
                (#[trigger] self.devices@[i]).1.0,
                self.devices@[i].0.inner,
            ))
        &&& (forall|id: u32|
            self.history@.dom().contains(id) ==> 0 < id <= self.device_id_generator.0)
    }

    /// An empty registry.  The first reconciliation against the present
    /// handles populates it.
    pub fn new() -> (r: KnownDevices)
        ensures
            r.wf(),
            r.devices@.len() == 0,
            r.to_add@.len() == 0,
            r.device_id_generator.0 == 0,
            r.history@ == Map::<u32, usize>::empty(),
    {
        KnownDevices {
            devices: Vec::new(),
            device_id_generator: DeviceIdGenerator::new(),
            to_add: Vec::new(),
            history: Ghost(Map::empty()),
        }
    }

    /// Reconciles the registry against the handles currently present: every
    /// newly present handle gets the next id; every handle no longer present
    /// is retired with its id; a handle present before and still present
    /// keeps the id it had.
    pub fn update(&mut self, present: &Vec<DeviceFileIndex>)
        requires
            old(self).wf(),
            distinct_handles(present@),
            old(self).device_id_generator.0 + present@.len() <= u32::MAX,
        ensures
            final(self).wf(),
            // Stability: a handle that stays keeps its id.
            forall|h: DeviceFileIndex, id: DeviceId|
                maps_to(old(self).devices@, h, id) && contains_handle(present@, h) ==> maps_to(
                    final(self).devices@,
                    h,
                    id,
                ),
            // Every present handle is now known ...
            forall|i: int|
                0 <= i < present@.len() ==> has_handle(final(self).devices@, #[trigger] present@[i]),
            // ... and nothing else is: absent handles are retired.
            forall|i: int|
                0 <= i < final(self).devices@.len() ==> contains_handle(
                    present@,
                    (#[trigger] final(self).devices@[i]).0,
                ),
            // A newly assigned id is fresh: larger than every id handed out
            // before.
            forall|i: int|
                0 <= i < final(self).to_add@.len() ==> (#[trigger] final(self).to_add@[i]).1.0
                    > old(self).device_id_generator.0,
            // What was added is what is present but was unknown.
            forall|i: int|
                0 <= i < final(self).to_add@.len() ==> !has_handle(
                    old(self).devices@,
                    (#[trigger] final(self).to_add@[i]).0,
                ) && maps_to(
                    final(self).devices@,
                    final(self).to_add@[i].0,
                    final(self).to_add@[i].1,
                ),
            forall|i: int|
                0 <= i < present@.len() && !has_handle(old(self).devices@, #[trigger] present@[i])
                    ==> has_handle(final(self).to_add@, present@[i]),
            // The assignment history only grows: an id never moves to
            // another handle.
            history_extends(old(self).history@, final(self).history@),
    {
        let n: usize = self.devices.len();
        let ghost old_devices = self.devices@;
        let ghost old_gen = self.device_id_generator.0;

        // Keep the entries whose handle is still present.
        let mut kept: Vec<(DeviceFileIndex, DeviceId)> = Vec::new();
        let mut i: usize = 0;
        while i < n
            invariant
                i <= n,
                n == old_devices.len(),
                self.devices@ == old_devices,
                old(self).wf(),
                self.devices@ == old(self).devices@,
                forall|k: int|
                    0 <= k < kept@.len() ==> exists|j: int|
                        0 <= j < i && old_devices[j] == #[trigger] kept@[k],
                forall|k: int, l: int|
                    0 <= k < l < kept@.len() ==> (#[trigger] kept@[k]).0 != (#[trigger] kept@[l]).0
                        && kept@[k].1 != kept@[l].1,
                forall|k: int|
                    0 <= k < kept@.len() ==> contains_handle(present@, (#[trigger] kept@[k]).0),
                forall|j: int|
                    0 <= j < i && contains_handle(present@, (#[trigger] old_devices[j]).0)
                        ==> maps_to(kept@, old_devices[j].0, old_devices[j].1),
            decreases n - i,
        {
            let ghost prev_kept = kept@;
            let (handle, id) = self.devices[i];
            let keep = list_contains(present, handle);
            if keep {
                kept.push((handle, id));
            }
            i = i + 1;
            proof {
                assert forall|j: int|
                    0 <= j < i && contains_handle(
                        present@,
                        (#[trigger] old_devices[j]).0,
                    ) implies maps_to(kept@, old_devices[j].0, old_devices[j].1) by {
                    if j < i - 1 {
                        let k = choose|k: int|
                            0 <= k < prev_kept.len() && prev_kept[k] == (
                            old_devices[j].0,
                            old_devices[j].1,
                            );
                        assert(kept@[k] == prev_kept[k]);
                    } else {
                        assert(kept@[kept@.len() - 1] == (handle, id));
                    }
                }
                assert forall|k: int| 0 <= k < kept@.len() implies exists|j: int|
                    0 <= j < i && old_devices[j] == #[trigger] kept@[k] by {
                    if k < prev_kept.len() {
                        let j = choose|j: int|
                            0 <= j < i - 1 && old_devices[j] == #[trigger] prev_kept[k as int];
                        assert(old_devices[j] == kept@[k]);
                    } else {
                        assert(old_devices[i - 1] == kept@[k]);
                    }
                }
                // The new entry comes later in the (duplicate-free) old
                // registry than every earlier survivor.
                assert forall|k: int, l: int|
                    0 <= k < l < kept@.len() implies (#[trigger] kept@[k]).0 != (
                #[trigger] kept@[l]).0 && kept@[k].1 != kept@[l].1 by {
                    if l < prev_kept.len() {
                        assert(kept@[k] == prev_kept[k] && kept@[l] == prev_kept[l]);
                    } else {
                        assert(kept@[k] == prev_kept[k]);
                        let j = choose|j: int|
                            0 <= j < i - 1 && old_devices[j] == #[trigger] prev_kept[k as int];
                        assert(old_devices[j] == kept@[k]);
                        assert(kept@[l] == old_devices[i - 1]);
                        assert(old_devices[j].0 != old_devices[i - 1].0);
                        assert(old_devices[j].1 != old_devices[i - 1].1);
                    }
                }
            }
        }

        // Assign fresh ids to the handles not known before.
        let m: usize = present.len();
        let mut added: Vec<(DeviceFileIndex, DeviceId)> = Vec::new();
        let mut p: usize = 0;
        while p < m
            invariant
                p <= m,
                m == present@.len(),
                self.devices@ == old_devices,
                old(self).wf(),
                self.devices@ == old(self).devices@,
                distinct_handles(present@),
                old_gen == old(self).device_id_generator.0,
                old_gen + m <= u32::MAX,
                self.device_id_generator.0 == old_gen + added@.len(),
                added@.len() <= p,
                forall|k: int|
                    0 <= k < added@.len() ==> (#[trigger] added@[k]).1.0 == old_gen + k + 1,
                forall|k: int|
                    0 <= k < added@.len() ==> exists|j: int|
                        0 <= j < p && present@[j] == (#[trigger] added@[k]).0,
                forall|k: int, l: int|
                    0 <= k < l < added@.len() ==> (#[trigger] added@[k]).0 != (
                    #[trigger] added@[l]).0,
                forall|k: int|
                    0 <= k < added@.len() ==> !has_handle(old_devices, (#[trigger] added@[k]).0),
                forall|j: int|
                    0 <= j < p && !has_handle(old_devices, #[trigger] present@[j]) ==> has_handle(
                        added@,
                        present@[j],
                    ),
                history_extends(old(self).history@, self.history@),
                forall|id: u32|
                    self.history@.dom().contains(id) ==> 0 < id <= self.device_id_generator.0,
                forall|k: int|
                    0 <= k < added@.len() ==> self.history@.contains_pair(
                        (#[trigger] added@[k]).1.0,
                        added@[k].0.inner,
                    ),
            decreases m - p,
        {
            let ghost prev_added = added@;
            let handle = present[p];
            let known = registry_contains(&self.devices, handle);
            if !known {
                let id = self.device_id_generator.next();
                added.push((handle, id));
                proof {
                    assert(!self.history@.dom().contains(id.0));
                    // The new handle differs from every earlier addition:
                    // their handles sit earlier in the (duplicate-free)
                    // present list.
                    assert forall|k: int, l: int|
                        0 <= k < l < added@.len() implies (#[trigger] added@[k]).0 != (
                    #[trigger] added@[l]).0 by {
                        if l < added@.len() - 1 {
                            assert(added@[k] == prev_added[k] && added@[l] == prev_added[l]);
                        } else {
                            assert(added@[k] == prev_added[k]);
                            let j = choose|j: int|
                                0 <= j < p && present@[j] == (#[trigger] prev_added[k]).0;
                            assert(present@[j] != present@[p as int]);
                        }
                    }
                }
                self.history = Ghost(self.history@.insert(id.0, handle.inner));
            }
            p = p + 1;
            proof {
                assert forall|k: int| 0 <= k < added@.len() implies exists|j: int|
                    0 <= j < p && present@[j] == (#[trigger] added@[k]).0 by {
                    if k < prev_added.len() {
                        let j = choose|j: int|
                            0 <= j < p - 1 && present@[j] == (#[trigger] prev_added[k as int]).0;
                        assert(present@[j] == added@[k].0);
                    } else {
                        assert(present@[p - 1] == added@[k].0);
                    }
                }
                assert forall|j: int|
                    0 <= j < p && !has_handle(old_devices, #[trigger] present@[j]) implies
                    has_handle(added@, present@[j]) by {
                    if j < p - 1 {
                        let k = choose|k: int|
                            0 <= k < prev_added.len() && (#[trigger] prev_added[k]).0
                                == present@[j];
                        assert((added@[k]).0 == present@[j]);
                    } else {
                        assert((added@[added@.len() - 1]).0 == present@[j]);
                    }
                }
            }
        }

        // The new registry: survivors first, newcomers after.
        let ghost kept_view = kept@;
        let ghost added_view = added@;
        let to_add = copy_pairs(&added);
        let mut devices = kept;
        let mut tail = added;
        devices.append(&mut tail);
        self.devices = devices;
        self.to_add = to_add;

        proof {
            assert(self.devices@ == kept_view + added_view);
            // Survivors come from the old registry, newcomers are fresh, so
            // handles and ids stay pairwise distinct.
            assert forall|a: int, b: int|
                0 <= a < b < self.devices@.len() implies (#[trigger] self.devices@[a]).0 != (
            #[trigger] self.devices@[b]).0 && self.devices@[a].1 != self.devices@[b].1 by {
                let kl = kept_view.len() as int;
                if a < kl && b < kl {
                    assert(self.devices@[a] == kept_view[a]);
                    assert(self.devices@[b] == kept_view[b]);
                } else if a < kl && b >= kl {
                    let ja = choose|j: int| 0 <= j < n && old_devices[j] == kept_view[a];
                    assert(old_devices[ja] == kept_view[a]);
                    assert(self.devices@[b] == added_view[b - kl]);
                    assert(kept_view[a].1.0 <= old_gen);
                } else {
                    assert(self.devices@[a] == added_view[a - kl]);
                    assert(self.devices@[b] == added_view[b - kl]);
                    assert(added_view[a - kl].1.0 != added_view[b - kl].1.0);
                }
            }
            // The present handles are covered: kept ones and added ones.
            assert forall|i2: int| 0 <= i2 < present@.len() implies has_handle(
                self.devices@,
                #[trigger] present@[i2],
            ) by {
                if has_handle(old_devices, present@[i2]) {
                    let j = choose|j: int|
                        0 <= j < old_devices.len() && (#[trigger] old_devices[j]).0 == present@[i2];
                    assert(contains_handle(present@, old_devices[j].0));
                    assert(maps_to(kept_view, old_devices[j].0, old_devices[j].1));
                    let k = choose|k: int|
                        0 <= k < kept_view.len() && kept_view[k] == (
                        old_devices[j].0,
                        old_devices[j].1,
                        );
                    assert(self.devices@[k] == kept_view[k]);
                } else {
                    let k = choose|k: int|
                        0 <= k < added_view.len() && (#[trigger] added_view[k]).0 == present@[i2];
                    assert(self.devices@[kept_view.len() + k] == added_view[k]);
                }
            }
            // Stability: an old entry that is still present survived.
            assert forall|h: DeviceFileIndex, id: DeviceId|
                maps_to(old_devices, h, id) && contains_handle(present@, h) implies maps_to(
                self.devices@,
                h,
                id,
            ) by {
                let j = choose|j: int| 0 <= j < old_devices.len() && old_devices[j] == (h, id);
                assert(maps_to(kept_view, h, id));
                let k = choose|k: int| 0 <= k < kept_view.len() && kept_view[k] == (h, id);
                assert(self.devices@[k] == kept_view[k]);
            }
            // Every surviving or added entry is present.
            assert forall|i2: int| 0 <= i2 < self.devices@.len() implies contains_handle(
                present@,
                (#[trigger] self.devices@[i2]).0,
            ) by {
                let kl = kept_view.len() as int;
                if i2 >= kl {
                    assert(self.devices@[i2] == added_view[i2 - kl]);
                    let j = choose|j: int|
                        0 <= j < m && present@[j] == (#[trigger] added_view[i2 - kl]).0;
                    assert(present@[j] == self.devices@[i2].0);
                }
            }
            // Added entries stand in the new registry.
            assert forall|i2: int| 0 <= i2 < self.to_add@.len() implies !has_handle(
                old(self).devices@,
                (#[trigger] self.to_add@[i2]).0,
            ) && maps_to(self.devices@, self.to_add@[i2].0, self.to_add@[i2].1) by {
                assert(self.devices@[kept_view.len() + i2] == added_view[i2]);
            }
        }
    }

    /// Reconciles against the present handles and reports what appeared:
    /// the streaming orchestrator spins up one worker per new device without
    /// restarting the existing ones.
    pub fn recently_added(&mut self, present: &Vec<DeviceFileIndex>) -> (r: Vec<
        (DeviceFileIndex, DeviceId),
    >)
        requires
            old(self).wf(),
            distinct_handles(present@),
            old(self).device_id_generator.0 + present@.len() <= u32::MAX,
        ensures
            final(self).wf(),
            r@ == final(self).to_add@,
            forall|i: int|
                0 <= i < r@.len() ==> !has_handle(old(self).devices@, (#[trigger] r@[i]).0)
                    && maps_to(final(self).devices@, r@[i].0, r@[i].1),
            forall|i: int|
                0 <= i < present@.len() && !has_handle(old(self).devices@, #[trigger] present@[i])
                    ==> has_handle(r@, present@[i]),
            history_extends(old(self).history@, final(self).history@),
    {
        self.update(present);
        copy_pairs(&self.to_add)
    }

    /// Reconciles against the present handles and returns the full registry.
    pub fn video_devices(&mut self, present: &Vec<DeviceFileIndex>) -> (r: Vec<
        (DeviceFileIndex, DeviceId),
    >)
        requires
            old(self).wf(),
            distinct_handles(present@),
            old(self).device_id_generator.0 + present@.len() <= u32::MAX,
        ensures
            final(self).wf(),
            r@ == final(self).devices@,
            forall|i: int|
                0 <= i < present@.len() ==> has_handle(r@, #[trigger] present@[i]),
            forall|i: int|
                0 <= i < r@.len() ==> contains_handle(present@, (#[trigger] r@[i]).0),
            forall|h: DeviceFileIndex, id: DeviceId|
                maps_to(old(self).devices@, h, id) && contains_handle(present@, h) ==> maps_to(
                    r@,
                    h,
                    id,
                ),
            history_extends(old(self).history@, final(self).history@),
    {
        self.update(present);
        copy_pairs(&self.devices)
    }

    /// How many ids have been handed out; the registry can absorb a handle
    /// list only while ids remain.
    pub fn ids_assigned(&self) -> (r: u32)
        ensures
            r == self.device_id_generator.0,
    {
        self.device_id_generator.0
    }
}

/// DeviceId stability: each reconciliation only extends the assignment
/// history, so once an id is on the books for a handle, the books of every
/// later state say the same — an id is never reassigned to a different
/// handle within one run.
pub proof fn lemma_id_never_reassigned(earlier: Map<u32, usize>, later: Map<u32, usize>, id: u32)
    requires
        history_extends(earlier, later),
        earlier.dom().contains(id),
    ensures
        later.dom().contains(id),
        later[id] == earlier[id],
{
}

/// The history relation chains across any number of reconciliations.
pub proof fn lemma_history_chain(a: Map<u32, usize>, b: Map<u32, usize>, c: Map<u32, usize>)
    requires
        history_extends(a, b),
        history_extends(b, c),
    ensures
        history_extends(a, c),
{
    assert forall|k: u32| a.dom().contains(k) implies c.dom().contains(k) && c[k] == a[k] by {
        assert(b.dom().contains(k) && b[k] == a[k]);
    }
}

} // verus!
