use uhyve_vm::layout::{KVM_32BIT_GAP_SIZE, KVM_32BIT_GAP_START, KVM_32BIT_MAX_MEM_SIZE};
use uhyve_vm::mem::{GuestMemory, MemoryRegion};

const GIB: usize = 1 << 30;

#[test]
fn mapping_has_requested_size() {
    let mem = GuestMemory::new(0x4000).unwrap();
    assert_eq!(mem.size(), 0x4000);
}

#[test]
fn empty_memory_is_refused() {
    assert!(matches!(GuestMemory::new(0), Err(uhyve_vm::error::Error::OutOfMemory)));
}

#[test]
fn memory_beyond_the_address_space_is_refused() {
    assert!(matches!(GuestMemory::new(usize::MAX), Err(uhyve_vm::error::Error::OutOfMemory)));
    assert!(matches!(
        GuestMemory::new(usize::MAX - 0x1000),
        Err(uhyve_vm::error::Error::OutOfMemory)
    ));
}

#[test]
fn hole_constants() {
    assert_eq!(KVM_32BIT_MAX_MEM_SIZE, 1 << 32);
    assert_eq!(KVM_32BIT_GAP_SIZE, 768 << 20);
    assert_eq!(KVM_32BIT_GAP_START, (1 << 32) - (768 << 20));
}

#[test]
fn words_read_back_lowest_byte_first() {
    let mut mem = GuestMemory::new(0x4000).unwrap();
    assert!(mem.write_u64(0x100, 0x1122_3344_5566_7788));
    assert_eq!(mem.read_u64(0x100), Some(0x1122_3344_5566_7788));
    assert_eq!(mem.read_u8(0x100), Some(0x88));
    assert_eq!(mem.read_u8(0x101), Some(0x77));
    assert_eq!(mem.read_u8(0x107), Some(0x11));
    assert_eq!(mem.read_u32(0x100), Some(0x5566_7788));
    assert_eq!(mem.read_u32(0x104), Some(0x1122_3344));
    assert!(mem.write_u32(0x102, 0xa1b2_c3d4));
    assert_eq!(mem.read_u64(0x100), Some(0x1122_a1b2_c3d4_7788));
    assert!(mem.write_u8(0x107, 0xff));
    assert_eq!(mem.read_u64(0x100), Some(0xff22_a1b2_c3d4_7788));
}

#[test]
fn stores_touch_only_their_bytes() {
    let mut mem = GuestMemory::new(0x1000).unwrap();
    assert!(mem.fill(0, 0x1000, 0x5a));
    assert!(mem.write_bytes(0x10, &[1, 2, 3]));
    let mut got = Vec::new();
    assert!(mem.read_into(0xe, 7, &mut got));
    assert_eq!(got, vec![0x5a, 0x5a, 1, 2, 3, 0x5a, 0x5a]);
    assert!(mem.fill(0x11, 1, 0));
    assert_eq!(mem.slice(0x10, 3), Some(&[1u8, 0, 3][..]));
    // appending keeps what the buffer held
    assert!(mem.read_into(0x10, 2, &mut got));
    assert_eq!(got, vec![0x5a, 0x5a, 1, 2, 3, 0x5a, 0x5a, 1, 0]);
}

#[test]
fn accesses_beyond_the_end_fault_and_change_nothing() {
    let mut mem = GuestMemory::new(0x1000).unwrap();
    assert!(mem.fill(0, 0x1000, 7));
    assert_eq!(mem.read_u8(0xfff), Some(7));
    assert_eq!(mem.read_u8(0x1000), None);
    assert_eq!(mem.read_u32(0xffd), None);
    assert_eq!(mem.read_u64(0xff9), None);
    assert_eq!(mem.read_u64(0xff8), Some(0x0707_0707_0707_0707));
    assert_eq!(mem.read_u64(u64::MAX), None);
    assert_eq!(mem.read_u64(u64::MAX - 3), None);
    assert!(!mem.write_u64(0xff9, 0));
    assert!(!mem.write_u32(0xffd, 0));
    assert!(!mem.write_u8(0x1000, 0));
    assert!(!mem.write_bytes(0xffe, &[0, 0, 0]));
    assert!(!mem.fill(0x800, 0x801, 0));
    assert!(!mem.fill(u64::MAX, 2, 0));
    let mut out = vec![9u8];
    assert!(!mem.read_into(0xfff, 2, &mut out));
    assert_eq!(out, vec![9]);
    assert_eq!(mem.slice(0xfff, 2), None);
    assert_eq!(mem.slice(0, 0x1000).unwrap(), &[7u8; 0x1000][..]);
    assert!(mem.is_backed(0, 0x1000));
    assert!(mem.is_backed(0x1000, 0));
    assert!(!mem.is_backed(0x1000, 1));
    assert!(!mem.is_backed(1, u64::MAX));
}

#[test]
fn small_memory_is_one_region() {
    let mem = GuestMemory::new(0x20_0000).unwrap();
    assert_eq!(
        mem.regions(),
        vec![MemoryRegion { slot: 0, flags: 0, guest_phys_addr: 0, memory_size: 0x20_0000 }]
    );
}

/// A guest of 5 GiB: nothing inside the hole is backed, and everything from
/// the end of the hole up to the end of the mapping is. Hosts that refuse a
/// mapping of this size cannot run the test.
#[test]
fn large_memory_leaves_the_hole_unbacked() {
    let mut mem = match GuestMemory::new(5 * GIB) {
        Ok(mem) => mem,
        Err(_) => return,
    };
    let start = KVM_32BIT_GAP_START;
    let end = KVM_32BIT_MAX_MEM_SIZE;
    assert_eq!(mem.size() as u64, 5 * GIB as u64 + start);

    assert_eq!(mem.read_u8(0xffff_ffff), None);
    assert_eq!(mem.read_u8(start), None);
    assert_eq!(mem.read_u8(start + 0x1234_5678), None);
    assert!(!mem.write_u8(0xffff_ffff, 1));
    assert!(!mem.is_backed(start, KVM_32BIT_GAP_SIZE));
    // a range that reaches into the hole, or out of it
    assert_eq!(mem.read_u64(start - 4), None);
    assert_eq!(mem.read_u64(end - 4), None);
    assert!(!mem.fill(start - 1, 2, 0));

    assert!(mem.write_u64(0x1_3000_0000, 0xfeed));
    assert_eq!(mem.read_u64(0x1_3000_0000), Some(0xfeed));
    assert!(mem.write_u8(end, 3));
    assert_eq!(mem.read_u8(end), Some(3));
    assert!(mem.write_u64(start - 8, 0xbeef));
    assert_eq!(mem.read_u64(start - 8), Some(0xbeef));
    let last = 5 * GIB as u64 + start - 1;
    assert!(mem.write_u8(last, 4));
    assert_eq!(mem.read_u8(last), Some(4));
    assert_eq!(mem.read_u8(last + 1), None);

    assert_eq!(
        mem.regions(),
        vec![
            MemoryRegion { slot: 0, flags: 0, guest_phys_addr: 0, memory_size: start },
            MemoryRegion {
                slot: 1,
                flags: 0,
                guest_phys_addr: end,
                memory_size: 5 * GIB as u64 + start - end
            },
        ]
    );
}

#[test]
fn window_writes_reach_the_memory() {
    let mut mem = GuestMemory::new(0x1000).unwrap();
    assert!(mem.fill(0, 0x1000, 1));
    {
        let window = mem.as_mut_window(0x20, 4).unwrap();
        assert_eq!(window, &[1u8, 1, 1, 1][..]);
        window[1] = 9;
        window[3] = 7;
    }
    assert_eq!(mem.slice(0x1f, 6), Some(&[1u8, 1, 9, 1, 7, 1][..]));
    assert!(mem.as_mut_window(0xffd, 4).is_none());
    assert!(mem.as_mut_window(0x1000, 1).is_none());
    assert_eq!(mem.as_mut_window(0xffc, 4).unwrap().len(), 4);
}

#[test]
fn memory_over_a_given_mapping() {
    let mut map = memmap::MmapMut::map_anon(0x2000).unwrap();
    map[0x1234] = 0x56;
    let mut mem = GuestMemory::with_mapping(Some(map)).unwrap();
    assert_eq!(mem.size(), 0x2000);
    assert_eq!(mem.read_u8(0x1234), Some(0x56));
    assert!(mem.write_u8(0x1235, 0x78));
    assert_eq!(mem.mapping().len(), 0x2000);
    assert_eq!(mem.mapping()[0x1235], 0x78);
}
