//! The capture-buffer queue/dequeue cycle: one buffer out at a time, requeue
//! before the next dequeue, rotation over the arena.

use orbit::capture::{ActiveStream, Arena, BufferOwner, Stream};

/// Stands in for one mapped kernel buffer.
#[derive(Debug, PartialEq, Eq, Clone)]
struct Mapping(u32);

fn start_stream(count: u32) -> ActiveStream<Mapping> {
    let bufs: Vec<Mapping> = (0..count).map(Mapping).collect();
    Stream::with_buffers(bufs).start()
}

#[test]
fn buffers_start_kernel_owned_and_queued() {
    let mut arena: Arena<Mapping> = Arena::new();
    arena.allocate(vec![Mapping(0), Mapping(1), Mapping(2)]);
    assert_eq!(arena.owners.len(), 3);
    assert!(arena.owners.iter().all(|o| *o == BufferOwner::Kernel));
}

#[test]
fn the_cycle_rotates_over_the_arena() {
    let mut active = start_stream(2);

    // Everything is queued: the first `queue` has nothing to requeue.
    assert_eq!(active.queue(), None);
    active.dequeue(0);
    assert_eq!(active.inner.arena.owners[0], BufferOwner::User);
    assert_eq!(*active.frame(), Mapping(0));

    // The next cycle first hands buffer 0 back, then takes buffer 1.
    assert_eq!(active.queue(), Some(0));
    assert_eq!(active.inner.arena.owners[0], BufferOwner::Kernel);
    active.dequeue(1);
    assert_eq!(*active.frame(), Mapping(1));

    // The rotation cursor wraps around.
    assert_eq!(active.queue(), Some(1));
    active.dequeue(0);
    assert_eq!(*active.frame(), Mapping(0));
}

#[test]
fn at_most_one_buffer_is_user_owned() {
    let mut active = start_stream(3);
    active.dequeue(0);
    let user_owned = active.inner.arena.owners.iter().filter(
        |o| **o == BufferOwner::User,
    ).count();
    assert_eq!(user_owned, 1);

    active.queue();
    let user_owned = active.inner.arena.owners.iter().filter(
        |o| **o == BufferOwner::User,
    ).count();
    assert_eq!(user_owned, 0);
}

#[test]
fn teardown_returns_every_mapping_for_unmapping() {
    let mut active = start_stream(2);
    active.dequeue(0);
    let mut stream = active.stop();
    let mappings = stream.arena.release();
    assert_eq!(mappings, vec![Mapping(0), Mapping(1)]);
    // Releasing an empty arena is a harmless no-op.
    let nothing = stream.arena.release();
    assert!(nothing.is_empty());
}
