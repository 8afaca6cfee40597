use std::sync::atomic::Ordering;
use uhyve_vm::control::{ControlData, WorkerStep};
use uhyve_vm::coordinator::{Action, Event, ExitCode, RunLoop, Signal};
use uhyve_vm::error::Error;
use uhyve_vm::vm::{IsleParameterUhyve, VirtualMachine};

fn params(checkpoint: u32, peer: Option<[u8; 4]>) -> IsleParameterUhyve {
    IsleParameterUhyve {
        num_cpus: 4,
        mem_size: 0x20_0000,
        ip: None,
        gateway: None,
        mask: None,
        mac_addr: None,
        netif: None,
        full_checkpoint: false,
        checkpoint,
        migration_support: peer,
    }
}

fn machine(checkpoint: u32, peer: Option<[u8; 4]>) -> VirtualMachine {
    VirtualMachine::new(0x20_0000, 4, params(checkpoint, peer)).unwrap()
}

#[test]
fn new_machine_is_stopped_and_empty() {
    let mut vm = machine(3, None);
    assert_eq!(vm.mem_size(), 0x20_0000);
    assert_eq!(vm.is_running().unwrap(), false);
    assert_eq!(vm.elf_entry, None);
    assert_eq!(vm.klog, None);
    assert_eq!(vm.mboot, None);
    assert!(vm.vcpus.is_empty());
    assert_eq!(vm.num_cpus, 4);
    assert_eq!(vm.checkpoint_num, 0);
    assert_eq!(vm.extensions, Default::default());
    assert_eq!(vm.additional.checkpoint, 3);
    assert!(!vm.control.interrupt.load(Ordering::Relaxed));
    assert_eq!(vm.output(), "");
    assert!(matches!(VirtualMachine::new(0, 1, params(0, None)), Err(Error::OutOfMemory)));
}

#[test]
fn run_tells_the_guest_its_cpus() {
    let mut vm = machine(0, None);
    assert!(matches!(vm.run(), Err(Error::KernelNotLoaded)));
    assert_eq!(vm.is_running().unwrap(), false);

    vm.mboot = Some(0x10_0000);
    assert!(vm.mem.fill(0x10_0000, 0x100, 0xff));
    assert_eq!(vm.run().unwrap(), RunLoop { tick: 0 });
    assert_eq!(vm.mem.read_u32(0x10_0024), Some(4));
    assert_eq!(vm.mem.read_u32(0x10_0020), Some(0xffff_ffff));
    assert_eq!(vm.mem.read_u32(0x10_0028), Some(0xffff_ffff));
    assert_eq!(vm.is_running().unwrap(), true);

    let mut vm = machine(0, None);
    for base in [0x1f_ffdd, 0x20_0000, u64::MAX - 0x20, u64::MAX] {
        vm.mboot = Some(base);
        assert!(matches!(vm.run(), Err(Error::KernelNotLoaded)));
        assert_eq!(vm.is_running().unwrap(), false);
    }
    vm.mboot = Some(0x1f_ffd8);
    vm.run().unwrap();
    assert_eq!(vm.mem.read_u32(0x1f_fffc), Some(4));
}

#[test]
fn signals() {
    let peer = [10, 0, 0, 9];
    let vm = machine(0, Some(peer));
    assert_eq!(vm.handle_signal(&Signal::INT), Action::Stop);
    assert_eq!(vm.handle_signal(&Signal::TERM), Action::Stop);
    assert_eq!(vm.handle_signal(&Signal::USR1), Action::Migrate(peer));
    assert_eq!(vm.handle_signal(&Signal::USR2), Action::Continue);
    assert_eq!(vm.handle_signal(&Signal::Other), Action::Continue);
    assert_eq!(vm.handle_migration(), Action::Migrate(peer));

    let alone = machine(0, None);
    assert_eq!(alone.handle_signal(&Signal::USR1), Action::Continue);
    assert_eq!(alone.handle_migration(), Action::Continue);
    assert_eq!(alone.handle_signal(&Signal::INT), Action::Stop);
}

#[test]
fn migration_ends_the_run_only_when_it_succeeds() {
    assert_eq!(VirtualMachine::migration_done(true), Action::Stop);
    assert_eq!(VirtualMachine::migration_done(false), Action::Continue);
}

#[test]
fn checkpoints_come_with_every_period() {
    let vm = machine(3, None);
    let mut state = RunLoop { tick: 0 };
    let mut seen = Vec::new();
    for _ in 0..7 {
        seen.push(vm.handle_tick(&mut state));
    }
    let (c, n) = (Action::Checkpoint, Action::Continue);
    assert_eq!(seen, vec![n, n, c, n, n, c, n]);
    assert_eq!(state.tick, 7);

    let every = machine(1, None);
    let mut state = RunLoop { tick: 0 };
    assert_eq!(every.handle_tick(&mut state), c);
    assert_eq!(every.handle_tick(&mut state), c);

    let never = machine(0, None);
    let mut state = RunLoop { tick: 0 };
    for _ in 0..5 {
        assert_eq!(never.handle_tick(&mut state), n);
    }
    assert_eq!(state.tick, 5);
}

#[test]
fn tick_count_starts_over() {
    let vm = machine(5, None);
    let mut state = RunLoop { tick: u32::MAX - 1 };
    assert_eq!(vm.handle_tick(&mut state), Action::Checkpoint);
    assert_eq!(state.tick, u32::MAX);
    assert_eq!(vm.handle_tick(&mut state), Action::Checkpoint);
    assert_eq!(state.tick, 0);
    assert_eq!(vm.handle_tick(&mut state), Action::Continue);
    assert_eq!(state.tick, 1);
}

#[test]
fn events() {
    let vm = machine(2, Some([1, 2, 3, 4]));
    let mut state = RunLoop { tick: 0 };
    assert_eq!(vm.handle_event(&mut state, &Event::Tick), Action::Continue);
    assert_eq!(vm.handle_event(&mut state, &Event::Signal(Signal::USR1)), Action::Migrate([1, 2, 3, 4]));
    assert_eq!(state.tick, 1);
    assert_eq!(vm.handle_event(&mut state, &Event::Tick), Action::Checkpoint);
    assert_eq!(vm.handle_event(&mut state, &Event::Signal(Signal::Other)), Action::Continue);
    assert_eq!(vm.handle_event(&mut state, &Event::GuestDone), Action::Stop);
    assert_eq!(vm.handle_event(&mut state, &Event::Signal(Signal::TERM)), Action::Stop);
    assert_eq!(state.tick, 2);
}

#[test]
fn stop_reports_thread_errors() {
    let mut vm = machine(0, None);
    vm.control.set_running(true);
    vm.stop(&[]).unwrap();
    assert_eq!(vm.is_running().unwrap(), false);
    // stopping again changes nothing
    vm.stop(&[]).unwrap();
    assert_eq!(vm.is_running().unwrap(), false);

    vm.stop(&[Some(ExitCode::Innocent), None, Some(ExitCode::Cause(Ok(3)))]).unwrap();
    assert!(matches!(
        vm.stop(&[
            Some(ExitCode::Innocent),
            Some(ExitCode::Cause(Err(Error::IOCTL(uhyve_vm::error::NameIOCTL::SetClock)))),
            Some(ExitCode::Cause(Ok(0))),
        ]),
        Err(Error::ThreadError)
    ));
    assert!(matches!(
        vm.stop(&[Some(ExitCode::Cause(Err(Error::OutOfMemory)))]),
        Err(Error::ThreadError)
    ));
    vm.control.set_running(true);
    assert!(vm.stop(&[Some(ExitCode::Cause(Err(Error::ThreadError))), None]).is_err());
    assert_eq!(vm.is_running().unwrap(), false);
}

#[test]
fn worker_steps() {
    assert_eq!(ControlData::step_for(false, false), WorkerStep::Exit);
    assert_eq!(ControlData::step_for(false, true), WorkerStep::Exit);
    assert_eq!(ControlData::step_for(true, true), WorkerStep::Rendezvous);
    assert_eq!(ControlData::step_for(true, false), WorkerStep::Run);

    let control = ControlData::new(1);
    assert_eq!(control.next_step(), WorkerStep::Exit);
    control.set_running(true);
    assert!(control.is_running());
    assert_eq!(control.next_step(), WorkerStep::Run);
    let _request = control.request_safepoint();
    assert!(control.is_interrupted());
    assert_eq!(control.next_step(), WorkerStep::Rendezvous);
    control.set_running(false);
    assert_eq!(control.next_step(), WorkerStep::Exit);
}

#[test]
fn barrier_of_a_machine_without_cpus_has_one_party() {
    // the coordinator alone passes at once
    let control = ControlData::new(0);
    let request = control.request_safepoint();
    let safepoint = control.enter_safepoint(request);
    assert!(control.is_interrupted());
    control.leave_safepoint(safepoint);
    assert!(!control.is_interrupted());
    control.rendezvous();
}
