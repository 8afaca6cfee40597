//! The state that the coordinator shares with the virtual CPU threads.

use vstd::prelude::*;
use std::sync::atomic::AtomicBool;
use std::sync::Barrier;

verus! {

/// `std::sync::Barrier`, a point at which a fixed number of threads meet.
#[verifier::external_type_specification]
#[verifier::external_body]
pub struct ExBarrier(Barrier);

/// The number of threads that a barrier waits for.
pub uninterp spec fn barrier_size(barrier: Barrier) -> nat;

/// `Barrier::new`: a barrier that lets threads pass once `n` of them wait.
#[verifier::external_body]
fn new_barrier(n: usize) -> (b: Barrier)
    ensures
        barrier_size(b) == n,
{
    Barrier::new(n)
}

/// `Barrier::wait`: blocks until as many threads wait as the barrier was
/// made for. Nothing is claimed of what the other threads did meanwhile.
#[verifier::external_body]
fn wait_at(barrier: &Barrier) {
    barrier.wait();
}

/// Flags and rendezvous point shared by the coordinator and every virtual
/// CPU thread. What a flag holds at any moment is up to all the threads that
/// share it, so nothing is stated of the value that a flag is read as, nor
/// of what it holds once it was written.
pub struct ControlData {
    /// While set, the virtual CPU threads keep running the guest.
    pub running: AtomicBool,
    /// While set, a virtual CPU thread that leaves the guest waits at the
    /// barrier instead of entering it again.
    pub interrupt: AtomicBool,
    /// Rendezvous of the coordinator with all virtual CPU threads.
    pub barrier: Barrier,
}

/// Shows that a safepoint was asked for. Only `request_safepoint` makes one,
/// and `enter_safepoint` takes it.
pub struct SafepointRequest {
    asked: (),
}

/// Shows that the coordinator is at the safepoint. Only `enter_safepoint`
/// makes one, and `leave_safepoint` takes it.
pub struct Safepoint {
    held: (),
}

/// The number of threads that meet at the barrier of a machine with
/// `num_cpus` virtual CPUs: each of them, and the coordinator.
pub open spec fn participants(num_cpus: u32) -> nat {
    (num_cpus + 1) as nat
}

/// What a virtual CPU thread does next.
#[derive(Debug, Clone, Copy, PartialEq, Eq, Structural)]
pub enum WorkerStep {
    /// Leave the loop: the machine stops.
    Exit,
    /// Wait at the barrier twice, then look at the flags again.
    Rendezvous,
    /// Enter the guest.
    Run,
}

/// The step that the flags ask of a virtual CPU thread.
pub open spec fn worker_step(running: bool, interrupt: bool) -> WorkerStep {
    if !running {
        WorkerStep::Exit
    } else if interrupt {
        WorkerStep::Rendezvous
    } else {
        WorkerStep::Run
    }
}

impl ControlData {
    /// Control data of a stopped machine with `num_cpus` virtual CPUs.
    pub fn new(num_cpus: u32) -> (c: ControlData)
        requires
            num_cpus < usize::MAX,
        ensures
            barrier_size(c.barrier) == participants(num_cpus),
    {
        let n: usize = num_cpus as usize + 1;
        ControlData {
            running: AtomicBool::new(false),
            interrupt: AtomicBool::new(false),
            barrier: new_barrier(n),
        }
    }

    /// Whether the virtual CPU threads are meant to run.
    pub fn is_running(&self) -> bool {
        self.running.load(std::sync::atomic::Ordering::Relaxed)
    }

    /// Lets the virtual CPU threads run, or tells them to stop.
    pub fn set_running(&self, running: bool) {
        self.running.store(running, std::sync::atomic::Ordering::Relaxed);
    }

    /// Whether a safepoint is requested.
    pub fn is_interrupted(&self) -> bool {
        self.interrupt.load(std::sync::atomic::Ordering::Relaxed)
    }

    /// Coordinator: asks every virtual CPU thread to come to the safepoint.
    /// The threads still have to be kicked out of the guest.
    pub fn request_safepoint(&self) -> SafepointRequest {
        self.interrupt.store(true, std::sync::atomic::Ordering::Relaxed);
        SafepointRequest { asked: () }
    }

    /// Coordinator: waits until every virtual CPU thread has reached the
    /// safepoint. From here to `leave_safepoint` no thread runs the guest.
    pub fn enter_safepoint(&self, request: SafepointRequest) -> Safepoint {
        wait_at(&self.barrier);
        Safepoint { held: () }
    }

    /// Coordinator: withdraws the request and releases the threads.
    pub fn leave_safepoint(&self, safepoint: Safepoint) {
        self.interrupt.store(false, std::sync::atomic::Ordering::Relaxed);
        wait_at(&self.barrier);
    }

    /// Virtual CPU thread: meets the coordinator at the safepoint and stays
    /// there until it is released.
    pub fn rendezvous(&self) {
        wait_at(&self.barrier);
        wait_at(&self.barrier);
    }

    /// Virtual CPU thread: what to do next, by the flags as they are now.
    pub fn next_step(&self) -> WorkerStep {
        let running = self.is_running();
        let interrupt = self.is_interrupted();
        Self::step_for(running, interrupt)
    }

    /// The step that the given flag values ask of a virtual CPU thread.
    pub fn step_for(running: bool, interrupt: bool) -> (s: WorkerStep)
        ensures
            s == worker_step(running, interrupt),
    {
        if !running {
            WorkerStep::Exit
        } else if interrupt {
            WorkerStep::Rendezvous
        } else {
            WorkerStep::Run
        }
    }
}

} // verus!
