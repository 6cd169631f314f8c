//! The memory-mapped capture-buffer lifecycle for one video device.
//!
//! The kernel and user code share a small arena of mapped buffers.  At any
//! instant each buffer is owned either by the kernel (queued; its content may
//! be overwritten at any time) or by user code (dequeued; its content is a
//! valid frame).  Reading a kernel-owned buffer is a data race, so the arena
//! hands out a buffer only while user code owns it.
//!
//! The stream drives the queue/dequeue cycle: each `next` first requeues the
//! previously dequeued buffer (cycling a rotation cursor over the arena),
//! then dequeues the buffer the kernel hands back.  That keeps exactly one
//! buffer in flight to the caller at a time, bounding memory use to the
//! allocated buffer count.
//!
//! The buffers themselves are opaque handles (`T`): the kernel calls that
//! map, queue, dequeue and unmap them live outside this crate, are driven by
//! the transitions here, and hand back which buffer index they touched.

use vstd::prelude::*;

verus! {

/// Who may touch a buffer's memory right now.
#[derive(Copy, Clone, PartialEq, Eq, Structural, Debug)]
pub enum BufferOwner {
    /// Queued: the kernel may overwrite the region at any time.
    Kernel,
    /// Dequeued: the region holds a valid frame and user code may read it.
    User,
}

/// How many buffers of the arena user code currently owns.
pub open spec fn user_owned_count(owners: Seq<BufferOwner>) -> int
    decreases owners.len(),
{
    if owners.len() == 0 {
        0
    } else {
        user_owned_count(owners.drop_last()) + if owners.last() is User {
            1int
        } else {
            0int
        }
    }
}

/// Manages the mapped buffers of one device's capture queue, tagging each
/// with its current owner.  `T` is whatever handle the caller keeps per
/// mapped region.
pub struct Arena<T> {
    pub bufs: Vec<T>,
    pub owners: Vec<BufferOwner>,
}

impl<T> Arena<T> {
    /// One owner tag per buffer.
    pub open spec fn wf(self) -> bool {
        self.owners@.len() == self.bufs@.len()
    }

    /// How many buffers are mapped.
    pub open spec fn len(self) -> int {
        self.bufs@.len() as int
    }

    /// An arena with no buffers.
    pub fn new() -> (r: Arena<T>)
        ensures
            r.wf(),
            r.len() == 0,
    {
        Arena { bufs: Vec::new(), owners: Vec::new() }
    }

    /// Records the buffers the kernel granted and mapped.  Each is enqueued
    /// to the kernel immediately, so all start in kernel ownership.
    pub fn allocate(&mut self, bufs: Vec<T>)
        requires
            old(self).wf(),
            old(self).len() == 0,
        ensures
            final(self).wf(),
            final(self).bufs@ == bufs@,
            final(self).owners@.len() == bufs@.len(),
            forall|i: int|
                0 <= i < final(self).owners@.len() ==> final(self).owners@[i] is Kernel,
    {
        let n: usize = bufs.len();
        let mut owners: Vec<BufferOwner> = Vec::new();
        let mut i: usize = 0;
        while i < n
            invariant
                i <= n,
                owners@.len() == i,
                forall|j: int| 0 <= j < i ==> owners@[j] is Kernel,
            decreases n - i,
        {
            owners.push(BufferOwner::Kernel);
            i = i + 1;
        }
        self.bufs = bufs;
        self.owners = owners;
    }

    /// A read-only view of a mapped buffer.  The caller must hold user
    /// ownership of the index: handing out a kernel-owned region would race
    /// with the kernel writing it.
    pub fn get_unchecked(&self, index: usize) -> (r: &T)
        requires
            self.wf(),
            index < self.len(),
            self.owners@[index as int] is User,
        ensures
            r == self.bufs@[index as int],
    {
        &self.bufs[index]
    }

    /// Marks a buffer as handed back to the kernel (queued).
    pub fn mark_kernel(&mut self, index: usize)
        requires
            old(self).wf(),
            index < old(self).len(),
        ensures
            final(self).wf(),
            final(self).bufs@ == old(self).bufs@,
            final(self).owners@ == old(self).owners@.update(index as int, BufferOwner::Kernel),
    {
        let mut info = self.owners.remove(index);
        info = BufferOwner::Kernel;
        self.owners.insert(index, info);
        proof {
            assert(self.owners@ =~= old(self).owners@.update(index as int, BufferOwner::Kernel));
        }
    }

    /// Marks a buffer as dequeued (owned by user code).
    pub fn mark_user(&mut self, index: usize)
        requires
            old(self).wf(),
            index < old(self).len(),
        ensures
            final(self).wf(),
            final(self).bufs@ == old(self).bufs@,
            final(self).owners@ == old(self).owners@.update(index as int, BufferOwner::User),
    {
        let mut info = self.owners.remove(index);
        info = BufferOwner::User;
        self.owners.insert(index, info);
        proof {
            assert(self.owners@ =~= old(self).owners@.update(index as int, BufferOwner::User));
        }
    }

    /// Gives every mapped buffer back for unmapping and forgets them all;
    /// the kernel queue is then freed by requesting zero buffers.  Calling
    /// this on an empty arena is a no-op that returns nothing.
    pub fn release(&mut self) -> (r: Vec<T>)
        requires
            old(self).wf(),
        ensures
            final(self).wf(),
            final(self).len() == 0,
            r@ == old(self).bufs@,
    {
        let mut bufs: Vec<T> = Vec::new();
        core::mem::swap(&mut bufs, &mut self.bufs);
        self.owners = Vec::new();
        bufs
    }
}

// ---------------------------------------------------------------------------
// The capture stream
// ---------------------------------------------------------------------------

/// A capture stream that has buffers allocated but has not been started
/// (stream-on not yet issued).
pub struct Stream<T> {
    pub arena: Arena<T>,
    pub arena_index: usize,
    pub arena_len: usize,
}

impl<T> Stream<T> {
    /// Everything queued to the kernel, cursor at the front.
    pub open spec fn wf(self) -> bool {
        &&& self.arena.wf()
        &&& self.arena_len == self.arena.len()
        &&& self.arena_index < self.arena_len
        &&& forall|i: int| 0 <= i < self.arena.owners@.len() ==> self.arena.owners@[i] is Kernel
    }

    /// Builds a stream over the buffers the kernel granted and the caller
    /// mapped (the kernel may have granted fewer than were requested; these
    /// are the ones it did).  All start queued.
    pub fn with_buffers(bufs: Vec<T>) -> (r: Stream<T>)
        requires
            bufs@.len() > 0,
        ensures
            r.wf(),
            r.arena.bufs@ == bufs@,
            r.arena_len == bufs@.len(),
            r.arena_index == 0,
    {
        let count: usize = bufs.len();
        let mut arena: Arena<T> = Arena::new();
        arena.allocate(bufs);
        Stream { arena, arena_index: 0, arena_len: count }
    }

    /// Starts capturing: the caller issues stream-on, and the stream moves
    /// from idle to running with every buffer kernel-owned.
    pub fn start(self) -> (r: ActiveStream<T>)
        requires
            self.wf(),
        ensures
            r.wf(),
            r.inner.arena.bufs@ == self.arena.bufs@,
            r.abs() == (CaptureState {
                owners: self.arena.owners@,
                cursor: self.arena_index as int,
                queued: true,
            }),
    {
        ActiveStream { inner: self, queued: true }
    }
}

/// A running capture stream: drives the queue/dequeue cycle.
pub struct ActiveStream<T> {
    pub inner: Stream<T>,
    /// True when every buffer is queued to the kernel; false while one is
    /// dequeued and in the caller's hands.
    pub queued: bool,
}

/// The abstract state of a running stream: who owns each buffer, where the
/// rotation cursor stands, and whether a dequeued buffer is outstanding.
#[verifier::ext_equal]
pub struct CaptureState {
    pub owners: Seq<BufferOwner>,
    pub cursor: int,
    pub queued: bool,
}

impl CaptureState {
    /// The state invariant: the cursor is in range and ownership matches the
    /// cycle phase — everything kernel-owned while queued, exactly the
    /// cursor's buffer user-owned while a frame is out.
    pub open spec fn inv(self) -> bool {
        &&& self.owners.len() > 0
        &&& 0 <= self.cursor < self.owners.len()
        &&& (self.queued ==> forall|i: int| 0 <= i < self.owners.len() ==> self.owners[i]
            is Kernel)
        &&& (!self.queued ==> self.owners[self.cursor] is User && forall|i: int|
            0 <= i < self.owners.len() && i != self.cursor ==> self.owners[i] is Kernel)
    }
}

/// One step of the queue/dequeue cycle.
#[derive(Copy, Clone, PartialEq, Eq, Structural, Debug)]
pub enum CaptureOp {
    /// Hand the dequeued buffer back to the kernel, advancing the cursor.
    Requeue,
    /// Take the buffer at the cursor out of the kernel's queue.
    Dequeue,
}

/// When a step may fire: a buffer can only be requeued while one is out, and
/// only dequeued while none is.
pub open spec fn step_enabled(s: CaptureState, op: CaptureOp) -> bool {
    match op {
        CaptureOp::Requeue => !s.queued,
        CaptureOp::Dequeue => s.queued,
    }
}

/// What a step does to the abstract state.
pub open spec fn step(s: CaptureState, op: CaptureOp) -> CaptureState {
    match op {
        CaptureOp::Requeue => CaptureState {
            owners: s.owners.update(s.cursor, BufferOwner::Kernel),
            cursor: (s.cursor + 1) % (s.owners.len() as int),
            queued: true,
        },
        CaptureOp::Dequeue => CaptureState {
            owners: s.owners.update(s.cursor, BufferOwner::User),
            cursor: s.cursor,
            queued: false,
        },
    }
}

impl<T> ActiveStream<T> {
    /// The running stream's abstract state.
    pub open spec fn abs(self) -> CaptureState {
        CaptureState {
            owners: self.inner.arena.owners@,
            cursor: self.inner.arena_index as int,
            queued: self.queued,
        }
    }

    pub open spec fn wf(self) -> bool {
        &&& self.inner.arena.wf()
        &&& self.inner.arena_len == self.inner.arena.len()
        &&& self.abs().inv()
    }

    /// The first half of `next`: if the previously dequeued buffer has not
    /// been requeued yet, marks it requeued and cycles the cursor, returning
    /// the index the caller must now queue to the kernel.  Returns nothing
    /// (and does nothing) when everything is already queued.
    pub fn queue(&mut self) -> (r: Option<usize>)
        requires
            old(self).wf(),
        ensures
            final(self).wf(),
            final(self).inner.arena.bufs@ == old(self).inner.arena.bufs@,
            old(self).queued ==> r is None && *final(self) == *old(self),
            !old(self).queued ==> r == Option::Some(old(self).inner.arena_index)
                && final(self).abs() == step(old(self).abs(), CaptureOp::Requeue),
    {
        if self.queued {
            return Option::None;
        }
        let index = self.inner.arena_index;
        self.inner.arena.mark_kernel(index);
        self.inner.arena_index = (index + 1) % self.inner.arena_len;
        self.queued = true;
        Option::Some(index)
    }

    /// The second half of `next`: the kernel handed back a buffer; record
    /// that the caller now owns it.  The kernel returns buffers in queue
    /// order, so the index must be the cursor's; a mismatch is a
    /// buffer-discipline violation the caller must treat as fatal.  Requires
    /// that no buffer is currently out: a dequeued buffer must be requeued
    /// before another dequeue.
    pub fn dequeue(&mut self, index: usize)
        requires
            old(self).wf(),
            old(self).queued,
            index == old(self).inner.arena_index,
        ensures
            final(self).wf(),
            final(self).inner.arena.bufs@ == old(self).inner.arena.bufs@,
            final(self).abs() == step(old(self).abs(), CaptureOp::Dequeue),
            !final(self).queued,
    {
        self.inner.arena.mark_user(index);
        self.queued = false;
    }

    /// A read-only view of the dequeued buffer.
    pub fn frame(&self) -> (r: &T)
        requires
            self.wf(),
            !self.queued,
        ensures
            r == self.inner.arena.bufs@[self.inner.arena_index as int],
    {
        self.inner.arena.get_unchecked(self.inner.arena_index)
    }

    /// Stops capturing: the caller issues stream-off (swallowing a
    /// device-gone error, aborting on any other) and gets the idle stream
    /// back for teardown.
    pub fn stop(self) -> (r: Stream<T>)
        ensures
            r == self.inner,
    {
        self.inner
    }
}

// ---------------------------------------------------------------------------
// The buffer ownership laws
// ---------------------------------------------------------------------------

/// All-kernel ownership counts no user buffers.
proof fn lemma_count_all_kernel(owners: Seq<BufferOwner>)
    requires
        forall|i: int| 0 <= i < owners.len() ==> owners[i] is Kernel,
    ensures
        user_owned_count(owners) == 0,
    decreases owners.len(),
{
    if owners.len() > 0 {
        lemma_count_all_kernel(owners.drop_last());
    }
}

/// Ownership with a single user-owned index counts exactly one.
proof fn lemma_count_one_user(owners: Seq<BufferOwner>, u: int)
    requires
        0 <= u < owners.len(),
        owners[u] is User,
        forall|i: int| 0 <= i < owners.len() && i != u ==> owners[i] is Kernel,
    ensures
        user_owned_count(owners) == 1,
    decreases owners.len(),
{
    if u == owners.len() - 1 {
        lemma_count_all_kernel(owners.drop_last());
    } else {
        lemma_count_one_user(owners.drop_last(), u);
    }
}

/// Buffer ownership invariant, first half: in every reachable state, at most
/// one buffer index is in user ownership at a time.
pub proof fn lemma_at_most_one_user(s: CaptureState)
    requires
        s.inv(),
    ensures
        user_owned_count(s.owners) <= 1,
{
    if s.queued {
        lemma_count_all_kernel(s.owners);
    } else {
        lemma_count_one_user(s.owners, s.cursor);
    }
}

/// Every enabled step preserves the state invariant, so the bound above
/// holds along every run of the cycle.
pub proof fn lemma_step_preserves_inv(s: CaptureState, op: CaptureOp)
    requires
        s.inv(),
        step_enabled(s, op),
    ensures
        step(s, op).inv(),
{
}

/// The state after the first `k` steps of a run.
pub open spec fn run(s0: CaptureState, ops: Seq<CaptureOp>) -> CaptureState
    decreases ops.len(),
{
    if ops.len() == 0 {
        s0
    } else {
        step(run(s0, ops.drop_last()), ops.last())
    }
}

/// Every step of the run fires only when enabled.
pub open spec fn trace_ok(s0: CaptureState, ops: Seq<CaptureOp>) -> bool {
    forall|k: int|
        0 <= k < ops.len() ==> step_enabled(run(s0, ops.take(k)), #[trigger] ops[k])
}

/// After a dequeue, as long as no requeue follows, the stream stays in the
/// "one buffer out" phase.
proof fn lemma_not_queued_since_dequeue(
    s0: CaptureState,
    ops: Seq<CaptureOp>,
    i: int,
    k: int,
)
    requires
        trace_ok(s0, ops),
        0 <= i < k <= ops.len(),
        ops[i] is Dequeue,
        forall|m: int| i < m < k ==> !((#[trigger] ops[m]) is Requeue),
    ensures
        !run(s0, ops.take(k)).queued,
    decreases k,
{
    if k == i + 1 {
        assert(ops.take(k).drop_last() =~= ops.take(i));
        assert(ops.take(k).last() == ops[i]);
    } else {
        lemma_not_queued_since_dequeue(s0, ops, i, k - 1);
        assert(ops[k - 1] is Dequeue);
        assert(step_enabled(run(s0, ops.take(k - 1)), ops[k - 1]));
        assert(false);
    }
}

/// Buffer ownership invariant, second half: an index dequeued is requeued
/// before it can be dequeued again — between any two dequeues of a run
/// there is a requeue, so no double-dequeue happens without an intervening
/// requeue.
pub proof fn lemma_no_double_dequeue(s0: CaptureState, ops: Seq<CaptureOp>, i: int, j: int)
    requires
        trace_ok(s0, ops),
        0 <= i < j < ops.len(),
        ops[i] is Dequeue,
        ops[j] is Dequeue,
    ensures
        exists|k: int| i < k < j && (#[trigger] ops[k]) is Requeue,
{
    if forall|m: int| i < m < j ==> !((#[trigger] ops[m]) is Requeue) {
        lemma_not_queued_since_dequeue(s0, ops, i, j);
        assert(step_enabled(run(s0, ops.take(j)), ops[j]));
        assert(false);
    }
}

} // verus!
