//! The decisions of the coordinator while the guest runs: what each signal,
//! tick and guest exit leads to, and how the machine is stopped.

use vstd::prelude::*;
use vstd::bytes::spec_u32_to_le_bytes;
use crate::error::Error;
use crate::loader::BOOT_CPUS;
use crate::mem::{backed, patched};
use crate::vm::VirtualMachine;

verus! {

/// A signal delivered to the coordinator.
#[derive(Debug, Clone, Copy, PartialEq, Eq, Structural)]
pub enum Signal {
    /// Interrupt from the keyboard.
    INT,
    /// Request to terminate.
    TERM,
    /// Request to migrate the guest.
    USR1,
    /// Kick for a virtual CPU thread; means nothing to the coordinator.
    USR2,
    /// Any other signal.
    Other,
}

/// What wakes the coordinator.
#[derive(Debug, Clone, Copy, PartialEq, Eq, Structural)]
pub enum Event {
    /// A signal arrived.
    Signal(Signal),
    /// One more second has passed.
    Tick,
    /// The first virtual CPU has left its loop.
    GuestDone,
}

/// What the coordinator does next.
#[derive(Debug, Clone, Copy, PartialEq, Eq)]
pub enum Action {
    /// Keep waiting for events.
    Continue,
    /// Leave the loop and stop the machine.
    Stop,
    /// Take a checkpoint at a safepoint, then keep waiting.
    Checkpoint,
    /// Migrate to this address at a safepoint; stop if that succeeds.
    Migrate([u8; 4]),
}

/// How a virtual CPU thread ended.
#[derive(Debug)]
pub enum ExitCode {
    /// It was told to stop.
    Innocent,
    /// It stopped by itself, with the guest's exit code or an error.
    Cause(Result<i32, Error>),
}

/// What a request to migrate leads to: a migration to the configured peer,
/// or nothing where none is configured.
pub open spec fn migration_action(peer: Option<[u8; 4]>) -> Action {
    match peer {
        Some(dest) => Action::Migrate(dest),
        None => Action::Continue,
    }
}

/// What a signal leads to.
pub open spec fn signal_action(sig: Signal, peer: Option<[u8; 4]>) -> Action {
    match sig {
        Signal::INT | Signal::TERM => Action::Stop,
        Signal::USR1 => migration_action(peer),
        _ => Action::Continue,
    }
}

/// The count of seconds after one more tick. It starts over after the
/// largest count.
pub open spec fn next_tick(tick: u32) -> u32 {
    if tick == u32::MAX {
        0
    } else {
        (tick + 1) as u32
    }
}

/// Whether a checkpoint is due at the count `tick` when one is taken every
/// `period` seconds.
pub open spec fn checkpoint_due(period: u32, tick: u32) -> bool {
    period > 0 && tick as int % period as int == 0
}

/// What an event leads to when `tick` seconds were counted before it.
pub open spec fn event_action(ev: Event, tick: u32, period: u32, peer: Option<[u8; 4]>) -> Action {
    match ev {
        Event::Signal(sig) => signal_action(sig, peer),
        Event::Tick => if checkpoint_due(period, next_tick(tick)) {
            Action::Checkpoint
        } else {
            Action::Continue
        },
        Event::GuestDone => Action::Stop,
    }
}

/// What follows a migration: the machine stops where the guest now runs at
/// the peer, and goes on where it does not.
pub open spec fn after_migration(sent: bool) -> Action {
    if sent {
        Action::Stop
    } else {
        Action::Continue
    }
}

/// Whether any virtual CPU thread ended with an error. A thread that could
/// not be joined counts for nothing.
pub open spec fn any_failed(exits: Seq<Option<ExitCode>>) -> bool {
    exists|i: int| 0 <= i < exits.len() && failed(#[trigger] exits[i])
}

/// Whether a virtual CPU thread ended with an error.
pub open spec fn failed(exit: Option<ExitCode>) -> bool {
    exit matches Some(ExitCode::Cause(Err(_)))
}

/// The coordinator's count of the seconds that the guest has run.
#[derive(Debug, Clone, Copy, PartialEq, Eq, Structural)]
pub struct RunLoop {
    pub tick: u32,
}

impl VirtualMachine {
    /// Starts the guest: tells it the number of its CPUs through the boot
    /// information block and lets the virtual CPU threads run. Returns the
    /// state of the coordinator's loop.
    ///
    /// Fails with `KernelNotLoaded`, and changes nothing, where no boot
    /// information block is known or guest memory does not hold its CPU
    /// count.
    pub fn run(&mut self) -> (r: Result<RunLoop, Error>)
        ensures
            match old(self).mboot {
                Some(base) if backed(old(self).mem@.len(), base + BOOT_CPUS, 4) => {
                    &&& r == Ok::<RunLoop, Error>(RunLoop { tick: 0 })
                    &&& final(self).mem@ == patched(
                        old(self).mem@,
                        base + BOOT_CPUS,
                        spec_u32_to_le_bytes(old(self).num_cpus),
                    )
                },
                _ => {
                    &&& r matches Err(e) && e is KernelNotLoaded
                    &&& final(self).mem@ == old(self).mem@
                },
            },
            final(self).same_but_memory(*old(self)),
    {
        let base = match self.mboot {
            Some(base) => base,
            None => {
                return Err(Error::KernelNotLoaded);
            },
        };
        if base > u64::MAX - BOOT_CPUS || !self.mem.write_u32(base + BOOT_CPUS, self.num_cpus) {
            return Err(Error::KernelNotLoaded);
        }
        self.control.set_running(true);
        Ok(RunLoop { tick: 0 })
    }

    /// What a signal leads to: INT and TERM stop the machine, USR1 asks for
    /// a migration, every other signal is ignored.
    pub fn handle_signal(&self, sig: &Signal) -> (action: Action)
        ensures
            action == signal_action(*sig, self.additional.migration_support),
    {
        match sig {
            Signal::INT | Signal::TERM => Action::Stop,
            Signal::USR1 => self.handle_migration(),
            _ => Action::Continue,
        }
    }

    /// What a request to migrate leads to.
    pub fn handle_migration(&self) -> (action: Action)
        ensures
            action == migration_action(self.additional.migration_support),
    {
        match self.additional.migration_support {
            Some(dest) => Action::Migrate(dest),
            None => Action::Continue,
        }
    }

    /// What one more second leads to: a checkpoint each time the configured
    /// number of seconds has passed.
    pub fn handle_tick(&self, state: &mut RunLoop) -> (action: Action)
        ensures
            final(state).tick == next_tick(old(state).tick),
            action == event_action(
                Event::Tick,
                old(state).tick,
                self.additional.checkpoint,
                self.additional.migration_support,
            ),
    {
        state.tick = if state.tick == u32::MAX {
            0
        } else {
            state.tick + 1
        };
        if self.additional.checkpoint > 0 && state.tick % self.additional.checkpoint == 0 {
            Action::Checkpoint
        } else {
            Action::Continue
        }
    }

    /// What an event leads to.
    pub fn handle_event(&self, state: &mut RunLoop, ev: &Event) -> (action: Action)
        ensures
            final(state).tick == if *ev is Tick {
                next_tick(old(state).tick)
            } else {
                old(state).tick
            },
            action == event_action(
                *ev,
                old(state).tick,
                self.additional.checkpoint,
                self.additional.migration_support,
            ),
    {
        match ev {
            Event::Signal(sig) => self.handle_signal(sig),
            Event::Tick => self.handle_tick(state),
            Event::GuestDone => Action::Stop,
        }
    }

    /// What follows a migration that was sent, or failed to be.
    pub fn migration_done(sent: bool) -> (action: Action)
        ensures
            action == after_migration(sent),
    {
        if sent {
            Action::Stop
        } else {
            Action::Continue
        }
    }

    /// Stops the machine: tells the virtual CPU threads to leave their
    /// loops, and sums up how those that were joined have ended.
    ///
    /// Fails with `ThreadError` where any of them ended with an error.
    pub fn stop(&mut self, exits: &[Option<ExitCode>]) -> (r: Result<(), Error>)
        ensures
            r is Err <==> any_failed(exits@),
            r matches Err(e) ==> e is ThreadError,
            *final(self) == *old(self),
    {
        self.control.set_running(false);
        let mut bad = false;
        let mut i: usize = 0;
        while i < exits.len()
            invariant
                i <= exits@.len(),
                bad <==> exists|j: int| 0 <= j < i && failed(#[trigger] exits@[j]),
            decreases exits@.len() - i,
        {
            match &exits[i] {
                Some(ExitCode::Cause(Err(_))) => {
                    bad = true;
                },
                _ => {},
            }
            i = i + 1;
        }
        if bad {
            Err(Error::ThreadError)
        } else {
            Ok(())
        }
    }
}

} // verus!
