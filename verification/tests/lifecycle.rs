use uhyve_vm::boot::{DescriptorTable, SRegs};
use uhyve_vm::checkpoint::ClockData;
use uhyve_vm::coordinator::{Action, Event, ExitCode, Signal};
use uhyve_vm::device::{InitState, Reply, Request, Step, KVM_CAP_IRQFD};
use uhyve_vm::elf::{ElfFile, FileHeader, ProgramHeader};
use uhyve_vm::gdt::Segment;
use uhyve_vm::loader::BootParams;
use uhyve_vm::mem::GuestMemory;
use uhyve_vm::vm::{IsleParameterUhyve, VirtualMachine};

const MIB: usize = 1 << 20;

fn params(num_cpus: u32, checkpoint: u32) -> IsleParameterUhyve {
    IsleParameterUhyve {
        num_cpus,
        mem_size: 128 * MIB,
        ip: None,
        gateway: None,
        mask: None,
        mac_addr: None,
        netif: None,
        full_checkpoint: true,
        checkpoint,
        migration_support: None,
    }
}

fn zero_sregs() -> SRegs {
    let seg = Segment::default();
    SRegs {
        cs: seg,
        ds: seg,
        es: seg,
        fs: seg,
        gs: seg,
        ss: seg,
        gdt: DescriptorTable { base: 0, limit: 0 },
        cr0: 0,
        cr3: 0,
        cr4: 0,
        efer: 0,
    }
}

/// A kernel of one page at 8 MiB that halts at once.
fn halting_kernel() -> (ElfFile, Vec<u8>) {
    let mut file = vec![0u8; 0x1000];
    file[0] = 0xf4;
    let elf = ElfFile {
        ehdr: FileHeader { class: 2, osabi: 0x42, elftype: 2, machine: 62, entry: 0x80_0000 },
        phdrs: vec![ProgramHeader {
            progtype: 1,
            offset: 0,
            paddr: 0x80_0000,
            filesz: 0x1000,
            memsz: 0x1000,
        }],
    };
    (elf, file)
}

/// Sets a machine up at a device that grants everything.
fn set_up(vm: &mut VirtualMachine) {
    let mut state = InitState::new();
    let mut reply = Reply::Begin;
    loop {
        reply = match vm.init(&mut state, reply) {
            Step::Ask(Request::CheckExtension(cap)) => {
                Reply::Value(if cap == KVM_CAP_IRQFD { 1 } else { 0 })
            }
            Step::Ask(Request::GetIrqChip(_)) => {
                state.chip.redirtbl = vec![0; 24];
                Reply::Done
            }
            Step::Ask(_) => Reply::Done,
            Step::Ready => return,
            Step::Failed(e) => panic!("setup failed: {:?}", e),
        }
    }
}

fn boot(num_cpus: u32, checkpoint: u32) -> VirtualMachine {
    let mut vm = VirtualMachine::new(128 * MIB, num_cpus, params(num_cpus, checkpoint)).unwrap();
    assert!(vm.mem.fill(0, 128 * MIB as u64, 0));
    let (elf, file) = halting_kernel();
    let boot = BootParams { cpu_freq: 3000, verbose: false, host_base: 0x7000_0000_0000 };
    vm.load_image("kernel", &elf, &file, &boot).unwrap();
    set_up(&mut vm);
    vm.create_cpus().unwrap();
    let mut sregs = zero_sregs();
    assert_eq!(vm.init_cpus(&mut sregs).unwrap(), 0x80_0000);
    vm
}

#[test]
fn a_guest_that_halts_at_once() {
    let mut vm = boot(1, 0);
    assert_eq!(vm.mem_size(), 128 * MIB);
    assert_eq!(vm.vcpus, vec![0]);
    assert_eq!(vm.mem.read_u8(0x80_0000), Some(0xf4));
    assert_eq!(vm.mem.read_u32(0x80_0024), Some(1));
    assert_eq!(vm.mem.read_u64(0x80_0038), Some(0x1000));
    assert_eq!(vm.mem.read_u64(0x80_0098), Some(0));

    let mut state = vm.run().unwrap();
    assert!(vm.is_running().unwrap());
    // the first virtual CPU reports that it is done
    assert_eq!(vm.handle_event(&mut state, &Event::GuestDone), Action::Stop);
    vm.stop(&[Some(ExitCode::Cause(Ok(0)))]).unwrap();
    assert!(!vm.is_running().unwrap());
    assert_eq!(vm.output(), "");
}

#[test]
fn a_guest_that_is_interrupted() {
    let mut vm = boot(2, 0);
    let mut state = vm.run().unwrap();
    assert_eq!(vm.mem.read_u32(0x80_0024), Some(2));
    assert_eq!(vm.handle_event(&mut state, &Event::Tick), Action::Continue);
    assert_eq!(vm.handle_event(&mut state, &Event::Signal(Signal::INT)), Action::Stop);
    vm.stop(&[Some(ExitCode::Innocent), Some(ExitCode::Innocent)]).unwrap();
    assert!(!vm.is_running().unwrap());
}

/// The guest maps its first page table page and the page behind it; the
/// first tick of a machine that takes a checkpoint every second asks for
/// one, and the memory file holds the clock and whole records.
#[test]
fn a_periodic_checkpoint_of_four_cpus() {
    let mut vm = boot(4, 1);
    assert_eq!(vm.vcpus, vec![0, 1, 2, 3]);
    let pml4 = 0x80_1000u64;
    assert!(vm.mem.fill(pml4, 0x4000, 0));
    assert!(vm.mem.write_u64(pml4, 0x80_2000 | 0x1));
    assert!(vm.mem.write_u64(0x80_2000, 0x80_3000 | 0x1));
    assert!(vm.mem.write_u64(0x80_3000, 0x80_4000 | 0x1));
    assert!(vm.mem.write_u64(0x80_3008, 0x20_0000 | 0xa1));
    assert!(vm.mem.write_u64(0x80_4000, 0x80_0000 | 0x21));
    assert!(vm.mem.write_u64(0x80_4008, 0x80_1000 | 0x61));

    let mut state = vm.run().unwrap();
    assert_eq!(vm.handle_event(&mut state, &Event::Tick), Action::Checkpoint);
    let control = vm.control.clone();
    control.set_running(false);
    let mut file = Vec::new();
    let config = vm.create_checkpoint(&ClockData { clock: 9 }, &mut file).unwrap();
    vm.checkpoint_written();
    assert_eq!((config.num_cpus, config.checkpoint_number, config.mem_size), (4, 0, 128 * MIB as u64));
    assert_eq!(file[..8], 9u64.to_le_bytes());
    assert_eq!(file.len(), 8 + 2 * (8 + 0x1000) + (8 + 0x20_0000));

    let mut copy = GuestMemory::new(128 * MIB).unwrap();
    assert!(uhyve_vm::checkpoint::restore_file(&mut copy, &file));
    assert_eq!(copy.read_u8(0x80_0000), Some(0xf4));
    assert_eq!(copy.read_u64(0x80_1000), Some(0x80_2000 | 0x1));
    assert_eq!(vm.checkpoint_num, 1);
}

#[test]
fn mappings_are_sized_for_the_hole() {
    assert_eq!(GuestMemory::mapping_len(0), Some(0));
    assert_eq!(GuestMemory::mapping_len(0x1000), Some(0x1000));
    assert_eq!(GuestMemory::mapping_len(0xd000_0000), Some(0xd000_0000));
    assert_eq!(GuestMemory::mapping_len(0xd000_0001), Some(0x1_a000_0001));
    assert_eq!(GuestMemory::mapping_len(5 << 30), Some((5 << 30) + 0xd000_0000));
    assert_eq!(GuestMemory::mapping_len(usize::MAX - 0xd000_0000), Some(usize::MAX));
    assert_eq!(GuestMemory::mapping_len(usize::MAX - 0xd000_0000 + 1), None);
    assert_eq!(GuestMemory::mapping_len(usize::MAX), None);
    assert!(matches!(GuestMemory::with_mapping(None), Err(uhyve_vm::error::Error::OutOfMemory)));
}
