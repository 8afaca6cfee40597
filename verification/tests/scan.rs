use uhyve_vm::error::Error;
use uhyve_vm::scan::ScanMode;
use uhyve_vm::vm::{IsleParameterUhyve, VirtualMachine};

const ENTRY: u64 = 0x10_0000;
const PML4: u64 = ENTRY + 0x1000;
const PDPT: u64 = 0x10_2000;
const PD: u64 = 0x10_3000;
const PT: u64 = 0x10_4000;

const P: u64 = 0x1;
const A: u64 = 0x20;
const D: u64 = 0x40;
const PSE: u64 = 0x80;

fn params(full: bool) -> IsleParameterUhyve {
    IsleParameterUhyve {
        num_cpus: 1,
        mem_size: 0x80_0000,
        ip: None,
        gateway: None,
        mask: None,
        mac_addr: None,
        netif: None,
        full_checkpoint: full,
        checkpoint: 0,
        migration_support: None,
    }
}

/// A guest of 8 MiB with a kernel at `ENTRY` and page tables that map two
/// 4 KiB pages that were touched (the second also written), one that was
/// not, an entry that is not present, a 2 MiB page that was written and one
/// that was not touched.
fn guest(full: bool, number: u32) -> VirtualMachine {
    let mut vm = VirtualMachine::new(0x80_0000, 1, params(full)).unwrap();
    vm.elf_entry = Some(ENTRY);
    vm.checkpoint_num = number;
    assert!(vm.mem.fill(0, 0x80_0000, 0));
    assert!(vm.mem.write_u64(PML4, PDPT | P));
    assert!(vm.mem.write_u64(PML4 + 8, 0x30_0000 | A | D));
    assert!(vm.mem.write_u64(PDPT, PD | P | A));
    assert!(vm.mem.write_u64(PD, PT | P | A | D));
    assert!(vm.mem.write_u64(PD + 8, 0x20_0000 | P | PSE | A | D));
    assert!(vm.mem.write_u64(PD + 16, 0x40_0000 | P | PSE));
    assert!(vm.mem.write_u64(PT, 0x8000_0000_0000_5000 | P | A));
    assert!(vm.mem.write_u64(PT + 8, 0x6000 | P | A | D | PSE));
    assert!(vm.mem.write_u64(PT + 16, 0x7000 | P));
    assert!(vm.mem.write_u64(PT + 24, 0x8000 | A | D));
    assert!(vm.mem.fill(0x5000, 0x1000, 0x55));
    assert!(vm.mem.fill(0x6000, 0x1000, 0x66));
    assert!(vm.mem.fill(0x7000, 0x1000, 0x77));
    assert!(vm.mem.fill(0x20_0000, 0x20_0000, 0x22));
    assert!(vm.mem.fill(0x40_0000, 0x20_0000, 0x44));
    vm
}

fn record(entry: u64, byte: u8, len: usize) -> Vec<u8> {
    let mut r = entry.to_le_bytes().to_vec();
    r.extend(std::iter::repeat(byte).take(len));
    r
}

#[test]
fn scan_modes() {
    assert_eq!(guest(true, 0).scan_mode(), ScanMode { flag: A, clear: false });
    assert_eq!(guest(true, 3).scan_mode(), ScanMode { flag: A, clear: false });
    assert_eq!(guest(false, 0).scan_mode(), ScanMode { flag: A, clear: true });
    assert_eq!(guest(false, 1).scan_mode(), ScanMode { flag: D, clear: true });
}

#[test]
fn full_scan_records_touched_pages_in_table_order() {
    let mut vm = guest(true, 0);
    let mut out = vec![0xaa, 0xbb];
    vm.scan_page_tables(&mut out).unwrap();

    let mut want = vec![0xaa, 0xbb];
    want.extend(record(0x8000_0000_0000_5000 | P | A, 0x55, 0x1000));
    want.extend(record(0x6000 | P | A | D, 0x66, 0x1000));
    want.extend(record(0x20_0000 | P | PSE | A | D, 0x22, 0x20_0000));
    assert_eq!(out.len(), 2 + 2 * (8 + 0x1000) + 8 + 0x20_0000);
    assert!(out == want);

    // a full scan changes nothing
    assert_eq!(vm.mem.read_u64(PT), Some(0x8000_0000_0000_5000 | P | A));
    assert_eq!(vm.mem.read_u64(PT + 8), Some(0x6000 | P | A | D | PSE));
    assert_eq!(vm.mem.read_u64(PD + 8), Some(0x20_0000 | P | PSE | A | D));
    assert_eq!(vm.mem.read_u64(PD), Some(PT | P | A | D));
}

#[test]
fn first_incremental_scan_records_touched_pages_and_clears_their_bits() {
    let mut vm = guest(false, 0);
    let mut out = Vec::new();
    vm.scan_page_tables(&mut out).unwrap();

    let mut want = record(0x8000_0000_0000_5000 | P, 0x55, 0x1000);
    want.extend(record(0x6000 | P, 0x66, 0x1000));
    want.extend(record(0x20_0000 | P | PSE, 0x22, 0x20_0000));
    assert!(out == want);

    assert_eq!(vm.mem.read_u64(PT), Some(0x8000_0000_0000_5000 | P));
    assert_eq!(vm.mem.read_u64(PT + 8), Some(0x6000 | P | PSE));
    assert_eq!(vm.mem.read_u64(PD + 8), Some(0x20_0000 | P | PSE));
    // entries that were not picked, and entries that point at tables, stay
    assert_eq!(vm.mem.read_u64(PT + 16), Some(0x7000 | P));
    assert_eq!(vm.mem.read_u64(PT + 24), Some(0x8000 | A | D));
    assert_eq!(vm.mem.read_u64(PD), Some(PT | P | A | D));
    assert_eq!(vm.mem.read_u64(PD + 16), Some(0x40_0000 | P | PSE));
    assert_eq!(vm.mem.read_u64(PDPT), Some(PD | P | A));
    assert_eq!(vm.mem.read_u64(PML4 + 8), Some(0x30_0000 | A | D));
}

#[test]
fn later_incremental_scan_records_written_pages_only() {
    let mut vm = guest(false, 1);
    let mut out = Vec::new();
    vm.scan_page_tables(&mut out).unwrap();

    let mut want = record(0x6000 | P, 0x66, 0x1000);
    want.extend(record(0x20_0000 | P | PSE, 0x22, 0x20_0000));
    assert!(out == want);
    assert_eq!(vm.mem.read_u64(PT), Some(0x8000_0000_0000_5000 | P | A));
    assert_eq!(vm.mem.read_u64(PT + 8), Some(0x6000 | P | PSE));

    // nothing was written since: the next scan finds nothing
    let mut again = Vec::new();
    vm.scan_page_tables(&mut again).unwrap();
    assert!(again.is_empty());
}

#[test]
fn a_page_holds_what_it_holds_when_it_is_recorded() {
    // the page table maps itself, before and after the page it clears
    let mut vm = guest(false, 0);
    assert!(vm.mem.write_u64(PT, PT | P | A));
    assert!(vm.mem.write_u64(PT + 16, PT | P | A | D));
    let mut out = Vec::new();
    vm.scan_page_tables(&mut out).unwrap();
    assert_eq!(out.len(), 3 * (8 + 0x1000) + 8 + 0x20_0000);
    let first = &out[8..8 + 0x1000];
    let third = &out[2 * (8 + 0x1000) + 8..3 * (8 + 0x1000)];
    // first record: its own entry is cleared, the others are not yet
    assert_eq!(first[0..8], (PT | P).to_le_bytes());
    assert_eq!(first[8..16], (0x6000 | P | A | D | PSE).to_le_bytes());
    assert_eq!(first[16..24], (PT | P | A | D).to_le_bytes());
    // third record: all three are cleared
    assert_eq!(third[0..8], (PT | P).to_le_bytes());
    assert_eq!(third[8..16], (0x6000 | P | PSE).to_le_bytes());
    assert_eq!(third[16..24], (PT | P).to_le_bytes());
}

#[test]
fn scan_without_kernel_is_refused() {
    let mut vm = guest(true, 0);
    vm.elf_entry = None;
    let mut out = vec![1];
    assert!(matches!(vm.scan_page_tables(&mut out), Err(Error::KernelNotLoaded)));
    assert_eq!(out, vec![1]);
}

#[test]
fn scan_stops_at_what_memory_does_not_hold() {
    // the PML4 itself
    for entry in [0x7f_f001u64, 0x80_0000, u64::MAX - 0x800, u64::MAX] {
        let mut vm = guest(false, 0);
        vm.elf_entry = Some(entry);
        let mut out = Vec::new();
        assert!(matches!(vm.scan_page_tables(&mut out), Err(Error::WriteCheckpoint)));
        assert!(out.is_empty());
    }
    // a table further down
    let mut vm = guest(false, 0);
    assert!(vm.mem.write_u64(PDPT + 8, 0x7f_f000 | 0x800 | P));
    assert!(vm.mem.write_u64(PDPT + 16, 0x80_0000 | P));
    let mut out = Vec::new();
    assert!(matches!(vm.scan_page_tables(&mut out), Err(Error::WriteCheckpoint)));
    // all of the first directory and of the second, which is the last page
    // of memory and empty, was done before the third stopped the scan
    assert_eq!(out.len(), 2 * (8 + 0x1000) + 8 + 0x20_0000);
    assert_eq!(vm.mem.read_u64(PT), Some(0x8000_0000_0000_5000 | P));

    // a page: what came before it is recorded and cleared, it is not
    let mut vm = guest(false, 0);
    assert!(vm.mem.write_u64(PT + 8, 0xfff0_0000 | P | A));
    let mut out = Vec::new();
    assert!(matches!(vm.scan_page_tables(&mut out), Err(Error::WriteCheckpoint)));
    assert!(out == record(0x8000_0000_0000_5000 | P, 0x55, 0x1000));
    assert_eq!(vm.mem.read_u64(PT + 8), Some(0xfff0_0000 | P | A));
    assert_eq!(vm.mem.read_u64(PD + 8), Some(0x20_0000 | P | PSE | A | D));

    // a 2 MiB page beyond the end of memory
    let mut vm = guest(true, 0);
    assert!(vm.mem.write_u64(PD + 8, 0x80_0000 | P | PSE | A));
    let mut out = Vec::new();
    assert!(matches!(vm.scan_page_tables(&mut out), Err(Error::WriteCheckpoint)));
    assert_eq!(out.len(), 2 * (8 + 0x1000));

    // the address of a 2 MiB page is taken without its low 21 bits
    let mut vm = guest(true, 0);
    assert!(vm.mem.write_u64(PD + 8, 0x7f_f000 | P | PSE | A));
    assert!(vm.mem.fill(0x60_0000, 0x20_0000, 0x61));
    let mut out = Vec::new();
    vm.scan_page_tables(&mut out).unwrap();
    assert_eq!(out.len(), 2 * (8 + 0x1000) + 8 + 0x20_0000);
    assert!(out[2 * (8 + 0x1000) + 8..].iter().all(|b| *b == 0x61));
}

#[test]
fn page_addresses_are_taken_from_the_low_half_of_an_entry() {
    let mut vm = guest(true, 0);
    assert!(vm.mem.write_u64(PD + 8, 0x0000_0123_0020_0000 | 0x1f_f000 | P | PSE | A));
    assert!(vm.mem.write_u64(PD, 0x0000_0001_0000_0000 | PT | P));
    let mut out = Vec::new();
    vm.scan_page_tables(&mut out).unwrap();
    let at = 2 * (8 + 0x1000);
    assert_eq!(out[at..at + 8], (0x0000_0123_0020_0000u64 | 0x1f_f000 | P | PSE | A).to_le_bytes());
    assert_eq!(out.len(), at + 8 + 0x20_0000);
    assert!(out[at + 8..].iter().all(|b| *b == 0x22));
}
