use uhyve_vm::checkpoint::{CheckpointConfig, ClockData};
use uhyve_vm::error::Error;
use uhyve_vm::migration::{MigrationStep, CONFIG_LEN};
use uhyve_vm::vm::{IsleParameterUhyve, VirtualMachine};

const MIB: usize = 1 << 20;

fn params() -> IsleParameterUhyve {
    IsleParameterUhyve {
        num_cpus: 2,
        mem_size: 64 * MIB,
        ip: None,
        gateway: None,
        mask: None,
        mac_addr: None,
        netif: None,
        full_checkpoint: true,
        checkpoint: 0,
        migration_support: Some([192, 168, 1, 7]),
    }
}

fn machine() -> VirtualMachine {
    let mut vm = VirtualMachine::new(64 * MIB, 2, params()).unwrap();
    vm.mboot = Some(0x80_0000);
    vm.create_cpus().unwrap();
    vm
}

fn config() -> CheckpointConfig {
    CheckpointConfig {
        num_cpus: 0x0403_0201,
        mem_size: 0x1817_1615_1413_1211,
        checkpoint_number: 0x2423_2221,
        elf_entry: 0x3837_3635_3433_3231,
        full: true,
    }
}

#[test]
fn description_record_layout() {
    let bytes = config().to_bytes();
    assert_eq!(bytes.len(), CONFIG_LEN);
    assert_eq!(CONFIG_LEN, 40);
    assert_eq!(
        bytes,
        vec![
            0x01, 0x02, 0x03, 0x04, 0, 0, 0, 0, //
            0x11, 0x12, 0x13, 0x14, 0x15, 0x16, 0x17, 0x18, //
            0x21, 0x22, 0x23, 0x24, 0, 0, 0, 0, //
            0x31, 0x32, 0x33, 0x34, 0x35, 0x36, 0x37, 0x38, //
            1, 0, 0, 0, 0, 0, 0, 0,
        ]
    );
    let partial = CheckpointConfig { full: false, ..config() };
    assert_eq!(partial.to_bytes()[32], 0);
}

#[test]
fn description_record_round_trip() {
    for c in [
        config(),
        CheckpointConfig { full: false, ..config() },
        CheckpointConfig { num_cpus: 0, mem_size: 0, checkpoint_number: 0, elf_entry: 0, full: false },
        CheckpointConfig {
            num_cpus: u32::MAX,
            mem_size: u64::MAX,
            checkpoint_number: u32::MAX,
            elf_entry: u64::MAX,
            full: true,
        },
    ] {
        assert_eq!(CheckpointConfig::from_bytes(&c.to_bytes()), Some(c));
    }
}

#[test]
fn malformed_description_records() {
    let bytes = config().to_bytes();
    assert_eq!(CheckpointConfig::from_bytes(&bytes[..39]), None);
    assert_eq!(CheckpointConfig::from_bytes(&[]), None);
    let mut long = bytes.clone();
    long.push(0);
    assert_eq!(CheckpointConfig::from_bytes(&long), None);
    let mut flag = bytes.clone();
    flag[32] = 2;
    assert_eq!(CheckpointConfig::from_bytes(&flag), None);
    // the bytes between the fields say nothing
    let mut padded = bytes.clone();
    padded[5] = 9;
    padded[39] = 9;
    assert_eq!(CheckpointConfig::from_bytes(&padded), Some(config()));
}

#[test]
fn migration_sends_description_memory_states_and_clock() {
    let mut vm = machine();
    assert!(matches!(vm.run_migration(), Err(Error::KernelNotLoaded)));
    vm.elf_entry = Some(0x80_0000);
    vm.checkpoint_num = 6;
    vm.extensions.cap_adjust_clock_stable = true;

    let meta = CheckpointConfig {
        num_cpus: 2,
        mem_size: 64 * MIB as u64,
        checkpoint_number: 0,
        elf_entry: 0x80_0000,
        full: true,
    };
    let steps = vm.run_migration().unwrap();
    assert_eq!(
        steps,
        vec![
            MigrationStep::Config(meta),
            MigrationStep::Memory,
            MigrationStep::CpuState(0),
            MigrationStep::CpuState(1),
            MigrationStep::Clock,
        ]
    );
    // one record of fixed size, then exactly the guest's memory
    assert_eq!(meta.to_bytes().len(), 40);
    assert_eq!(vm.mem.slice(0, meta.mem_size).unwrap().len(), 64 * MIB);
    // the machine keeps counting its own checkpoints
    assert_eq!(vm.checkpoint_num, 6);

    vm.extensions.cap_adjust_clock_stable = false;
    let steps = vm.run_migration().unwrap();
    assert_eq!(steps.len(), 4);
    assert_eq!(steps[3], MigrationStep::CpuState(1));
}

#[test]
fn received_machine_matches_the_sender() {
    let mut source = machine();
    source.elf_entry = Some(0x80_0000);
    source.extensions.cap_adjust_clock_stable = true;
    assert!(source.mem.fill(0, 64 * MIB as u64, 0));
    assert!(source.mem.write_bytes(0x80_0000, b"guest state"));
    assert!(source.mem.write_u64(64 * MIB as u64 - 8, 0x1234_5678_9abc_def0));
    let steps = source.run_migration().unwrap();
    let meta = match steps[0] {
        MigrationStep::Config(meta) => meta,
        _ => panic!("no description"),
    };
    let wire_meta = meta.to_bytes();
    let wire_mem = source.mem.slice(0, meta.mem_size).unwrap().to_vec();

    let mut dest = VirtualMachine::new(64 * MIB, 2, params()).unwrap();
    assert!(dest.mem.fill(0, 64 * MIB as u64, 0xdd));
    dest.extensions.cap_adjust_clock_stable = true;
    let meta = CheckpointConfig::from_bytes(&wire_meta).unwrap();
    let clock = dest.load_migration(&meta, &wire_mem, Some(ClockData { clock: 42 })).unwrap();
    assert_eq!(clock, Some(ClockData { clock: 42 }));
    assert_eq!(dest.elf_entry, Some(0x80_0000));
    assert_eq!(dest.mboot, Some(0x80_0000));
    assert_eq!(dest.klog, Some(0x80_5000));
    assert!(dest.mem.slice(0, 64 * MIB as u64) == source.mem.slice(0, 64 * MIB as u64));
    assert_eq!(dest.mem.read_u64(64 * MIB as u64 - 8), Some(0x1234_5678_9abc_def0));
}

#[test]
fn migration_without_stable_clock_sets_none() {
    let mut dest = VirtualMachine::new(0x1000, 1, params()).unwrap();
    let meta = CheckpointConfig { elf_entry: 0x100, ..config() };
    let image = vec![3u8; 0x1000];
    assert_eq!(dest.load_migration(&meta, &image, Some(ClockData { clock: 1 })).unwrap(), None);
    assert_eq!(dest.load_migration(&meta, &image, None).unwrap(), None);
    assert_eq!(dest.mem.read_u8(0xfff), Some(3));
}

#[test]
fn incomplete_migrations_fail() {
    let meta = CheckpointConfig { elf_entry: 0x100, ..config() };
    let mut dest = VirtualMachine::new(0x1000, 1, params()).unwrap();
    assert!(dest.mem.fill(0, 0x1000, 0xdd));
    assert!(matches!(
        dest.load_migration(&meta, &vec![3u8; 0xfff], None),
        Err(Error::MigrationIO)
    ));
    assert!(matches!(
        dest.load_migration(&meta, &vec![3u8; 0x1001], None),
        Err(Error::MigrationIO)
    ));
    assert_eq!(dest.mem.read_u8(0), Some(0xdd));
    assert_eq!(dest.elf_entry, Some(0x100));

    dest.extensions.cap_adjust_clock_stable = true;
    assert!(matches!(
        dest.load_migration(&meta, &vec![3u8; 0x1000], None),
        Err(Error::MigrationIO)
    ));
    assert_eq!(dest.mem.read_u8(0), Some(3));
}

#[test]
fn addresses_that_cannot_be_told_are_left_out() {
    let meta = CheckpointConfig { elf_entry: u64::MAX - 0x4fff, ..config() };
    let mut dest = VirtualMachine::new(0x1000, 1, params()).unwrap();
    dest.load_migration(&meta, &vec![0u8; 0x1000], None).unwrap();
    assert_eq!(dest.mboot, Some(u64::MAX - 0x4fff));
    assert_eq!(dest.klog, None);
    let meta = CheckpointConfig { elf_entry: u64::MAX - 0x5000, ..config() };
    dest.load_migration(&meta, &vec![0u8; 0x1000], None).unwrap();
    assert_eq!(dest.klog, Some(u64::MAX));
}

#[test]
fn bytes_on_the_wire() {
    let mem_size = 64 * MIB as u64;
    let state_len = 0x3000;
    let meta = CheckpointConfig { mem_size, ..config() };
    assert_eq!(MigrationStep::Config(meta).wire_len(mem_size, state_len), 40);
    assert_eq!(MigrationStep::Memory.wire_len(mem_size, state_len), mem_size);
    assert_eq!(MigrationStep::CpuState(1).wire_len(mem_size, state_len), state_len);
    assert_eq!(MigrationStep::Clock.wire_len(mem_size, state_len), 8);

    let mut vm = machine();
    vm.elf_entry = Some(0x80_0000);
    vm.extensions.cap_adjust_clock_stable = true;
    let total: u64 =
        vm.run_migration().unwrap().iter().map(|s| s.wire_len(mem_size, state_len)).sum();
    assert_eq!(total, 40 + 64 * MIB as u64 + 2 * state_len + 8);
}

#[test]
fn clock_records() {
    let clock = ClockData { clock: 0x0102_0304_0506_0708 };
    assert_eq!(clock.to_bytes(), [8, 7, 6, 5, 4, 3, 2, 1]);
    assert_eq!(ClockData::from_bytes(&clock.to_bytes()), Some(clock));
    assert_eq!(ClockData::from_bytes(&[0; 7]), None);
    assert_eq!(ClockData::from_bytes(&[0; 9]), None);
    assert_eq!(ClockData::from_bytes(&[1, 0, 0, 0, 0, 0, 0, 0x80]), Some(ClockData { clock: 1 | 1 << 63 }));
}

#[test]
fn memory_goes_on_the_wire_as_it_is() {
    let mut vm = VirtualMachine::new(0x3000, 1, params()).unwrap();
    assert!(vm.mem.fill(0, 0x3000, 0x11));
    assert!(vm.mem.write_bytes(0x1ffe, &[1, 2, 3, 4]));
    let mut out = vec![0xaa];
    assert!(vm.mem.copy_image(0x1ffd, 6, &mut out));
    assert_eq!(out, vec![0xaa, 0x11, 1, 2, 3, 4, 0x11]);
    assert!(vm.mem.copy_image(0x3000, 0, &mut out));
    assert!(!vm.mem.copy_image(0x2fff, 2, &mut out));
    assert!(!vm.mem.copy_image(u64::MAX, 2, &mut out));
    assert_eq!(out.len(), 7);
    let mut all = Vec::new();
    assert!(vm.mem.copy_image(0, 0x3000, &mut all));
    assert!(all == vm.mem.slice(0, 0x3000).unwrap());
}

/// The bytes of the hole go on the wire as zeros. Hosts that refuse a
/// mapping of this size cannot run the test.
#[test]
fn the_hole_goes_on_the_wire_as_zeros() {
    let mut vm = match VirtualMachine::new(5 << 30, 1, params()) {
        Ok(vm) => vm,
        Err(_) => return,
    };
    let start = 0xd000_0000u64;
    let end = 0x1_0000_0000u64;
    assert!(vm.mem.write_bytes(start - 2, &[7, 8]));
    assert!(vm.mem.write_bytes(end, &[9, 10]));
    let mut out = Vec::new();
    assert!(vm.mem.copy_image(start - 2, 5, &mut out));
    assert_eq!(out, vec![7, 8, 0, 0, 0]);
    out.clear();
    assert!(vm.mem.copy_image(end - 3, 5, &mut out));
    assert_eq!(out, vec![0, 0, 0, 9, 10]);
    out.clear();
    assert!(vm.mem.copy_image(start + 0x1000, 0x10, &mut out));
    assert_eq!(out, vec![0; 0x10]);
    out.clear();
    assert!(vm.mem.copy_image(end, 2, &mut out));
    assert_eq!(out, vec![9, 10]);
}
