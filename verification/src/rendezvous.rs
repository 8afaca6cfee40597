//! A model of the safepoint protocol between the coordinator and the
//! virtual CPU threads, and the proof that the coordinator has the guest to
//! itself while it is at the safepoint.
//!
//! The threads meet at a barrier that releases once the coordinator and
//! every virtual CPU thread wait at it. Each thread, and the coordinator,
//! waits twice per safepoint: `ControlData::rendezvous` on the one side,
//! `ControlData::enter_safepoint` and `leave_safepoint` on the other. What a
//! virtual CPU thread does when it looks at the flags is `worker_step`.

use vstd::prelude::*;
use crate::control::{worker_step, WorkerStep};

verus! {

/// Where the coordinator stands.
pub enum Coordinator {
    /// No safepoint is asked for.
    Idle,
    /// The interrupt flag is set; the threads are being kicked.
    Requested,
    /// Waiting at the barrier for the threads to arrive.
    Entering,
    /// At the safepoint: reading the state of the guest.
    Critical,
    /// The interrupt flag is cleared; waiting at the barrier to let go.
    Leaving,
}

/// Where a virtual CPU thread stands.
pub enum Worker {
    /// At the head of its loop, about to look at the flags.
    Head,
    /// Inside the call that runs the guest.
    InGuest,
    /// Waiting at the barrier for the first time.
    Arrived,
    /// Past the first wait, about to wait again.
    Held,
    /// Waiting at the barrier for the second time.
    Parked,
    /// Out of its loop.
    Stopped,
}

/// The state of the protocol.
pub struct Protocol {
    pub running: bool,
    pub interrupt: bool,
    pub coordinator: Coordinator,
    pub workers: Seq<Worker>,
}

/// Whether a thread waits at the barrier.
pub open spec fn waits(w: Worker) -> bool {
    w is Arrived || w is Parked
}

/// Whether every party waits at the barrier, so that it releases them.
pub open spec fn barrier_full(s: Protocol) -> bool {
    &&& s.coordinator is Entering || s.coordinator is Leaving
    &&& forall|i: int| 0 <= i < s.workers.len() ==> waits(#[trigger] s.workers[i])
}

/// Where a thread stands once the barrier has released it.
pub open spec fn released(w: Worker) -> Worker {
    match w {
        Worker::Arrived => Worker::Held,
        Worker::Parked => Worker::Head,
        _ => w,
    }
}

/// The state in which the protocol starts: nobody has asked for anything,
/// and every thread is at the head of its loop.
pub open spec fn initial(s: Protocol) -> bool {
    &&& !s.interrupt
    &&& s.coordinator is Idle
    &&& forall|i: int| 0 <= i < s.workers.len() ==> #[trigger] s.workers[i] is Head
}

/// Whether thread `i` can take `s` to `t` by a step of its own.
pub open spec fn worker_moves(s: Protocol, t: Protocol, i: int) -> bool {
    &&& 0 <= i < s.workers.len()
    &&& t.running == s.running
    &&& t.interrupt == s.interrupt
    &&& t.coordinator == s.coordinator
    &&& t.workers == s.workers.update(i, t.workers[i])
    &&& match s.workers[i] {
        Worker::Head => t.workers[i] == match worker_step(s.running, s.interrupt) {
            WorkerStep::Exit => Worker::Stopped,
            WorkerStep::Rendezvous => Worker::Arrived,
            WorkerStep::Run => Worker::InGuest,
        },
        Worker::InGuest => t.workers[i] is Head,
        Worker::Held => t.workers[i] is Parked,
        _ => false,
    }
}

/// Whether the coordinator can take `s` to `t` by a step of its own.
pub open spec fn coordinator_moves(s: Protocol, t: Protocol) -> bool {
    &&& t.workers == s.workers
    &&& match s.coordinator {
        Coordinator::Idle => {
            ||| t.coordinator is Idle && t.interrupt == s.interrupt
            ||| t.coordinator is Requested && t.interrupt && t.running == s.running
        },
        Coordinator::Requested => t.coordinator is Entering && t.interrupt == s.interrupt
            && t.running == s.running,
        Coordinator::Critical => t.coordinator is Leaving && !t.interrupt && t.running
            == s.running,
        _ => false,
    }
}

/// Whether the barrier takes `s` to `t` by releasing everybody.
pub open spec fn barrier_releases(s: Protocol, t: Protocol) -> bool {
    &&& barrier_full(s)
    &&& t.running == s.running
    &&& t.interrupt == s.interrupt
    &&& t.coordinator == match s.coordinator {
        Coordinator::Entering => Coordinator::Critical,
        _ => Coordinator::Idle,
    }
    &&& t.workers == Seq::new(s.workers.len(), |i: int| released(s.workers[i]))
}

/// Whether the protocol can go from `s` to `t` in one step.
pub open spec fn next(s: Protocol, t: Protocol) -> bool {
    ||| exists|i: int| worker_moves(s, t, i)
    ||| coordinator_moves(s, t)
    ||| barrier_releases(s, t)
}

/// Whether a thread is past its first wait of a safepoint and not past its
/// second.
pub open spec fn held(w: Worker) -> bool {
    w is Held || w is Parked
}

/// What holds in every state that the protocol reaches: while the
/// coordinator is at the safepoint or leaving it, every thread is held; at
/// all other times none is.
pub open spec fn aligned(s: Protocol) -> bool {
    forall|i: int|
        0 <= i < s.workers.len() ==> held(#[trigger] s.workers[i]) == (s.coordinator is Critical
            || s.coordinator is Leaving)
}

/// The protocol starts aligned.
pub proof fn lemma_initial_aligned(s: Protocol)
    requires
        initial(s),
    ensures
        aligned(s),
{
}

/// Every step keeps the protocol aligned.
pub proof fn lemma_next_aligned(s: Protocol, t: Protocol)
    requires
        aligned(s),
        next(s, t),
    ensures
        aligned(t),
{
    if coordinator_moves(s, t) {
    } else if barrier_releases(s, t) {
        assert forall|i: int| 0 <= i < t.workers.len() implies held(#[trigger] t.workers[i]) == (
        t.coordinator is Critical || t.coordinator is Leaving) by {
            assert(waits(s.workers[i]));
            assert(held(s.workers[i]) == (s.coordinator is Leaving));
        }
    } else {
        let i = choose|i: int| worker_moves(s, t, i);
        assert forall|j: int| 0 <= j < t.workers.len() implies held(#[trigger] t.workers[j]) == (
        t.coordinator is Critical || t.coordinator is Leaving) by {
            assert(held(s.workers[j]) == (s.coordinator is Critical || s.coordinator is Leaving));
            if j != i {
                assert(t.workers[j] == s.workers[j]);
            }
        }
    }
}

/// While the coordinator is at the safepoint, no virtual CPU thread is
/// inside the call that runs the guest.
pub proof fn lemma_safepoint_excludes_guest(s: Protocol, i: int)
    requires
        aligned(s),
        s.coordinator is Critical,
        0 <= i < s.workers.len(),
    ensures
        !(s.workers[i] is InGuest),
        !(s.workers[i] is Head),
{
    assert(held(s.workers[i]));
}

} // verus!
