use uhyve_vm::boot::{DescriptorTable, SRegs};
use uhyve_vm::error::Error;
use uhyve_vm::gdt::{Entry, Segment};
use uhyve_vm::layout::{
    BOOT_GDT, BOOT_PDE, BOOT_PDPTE, BOOT_PML4, EFER_LMA, EFER_LME, GUEST_PAGE_SIZE, GUEST_SIZE,
    X86_CR0_PE, X86_CR0_PG, X86_CR4_PAE,
};
use uhyve_vm::vm::{IsleParameterUhyve, VirtualMachine};

fn params() -> IsleParameterUhyve {
    IsleParameterUhyve {
        num_cpus: 2,
        mem_size: 0x20_0000,
        ip: None,
        gateway: None,
        mask: None,
        mac_addr: None,
        netif: None,
        full_checkpoint: false,
        checkpoint: 0,
        migration_support: None,
    }
}

fn machine(size: usize) -> VirtualMachine {
    VirtualMachine::new(size, 2, params()).unwrap()
}

fn sregs() -> SRegs {
    let seg = Segment::default();
    SRegs {
        cs: seg,
        ds: seg,
        es: seg,
        fs: seg,
        gs: seg,
        ss: seg,
        gdt: DescriptorTable { base: 0xdead, limit: 0xbeef },
        cr0: 0x10,
        cr3: 0x77,
        cr4: 0x40,
        efer: 0x1,
    }
}

fn code_segment() -> Segment {
    Segment {
        base: 0,
        limit: 0xfffff,
        selector: 8,
        type_: 0xb,
        present: 1,
        dpl: 0,
        db: 0,
        s: 1,
        l: 1,
        g: 1,
        avl: 0,
        unusable: 0,
        padding: 0,
    }
}

fn data_segment() -> Segment {
    Segment {
        base: 0,
        limit: 0xfffff,
        selector: 16,
        type_: 0x3,
        present: 1,
        dpl: 0,
        db: 1,
        s: 1,
        l: 0,
        g: 1,
        avl: 0,
        unusable: 0,
        padding: 0,
    }
}

#[test]
fn descriptors_of_the_boot_segments() {
    assert_eq!(Entry::new(0, 0, 0).as_u64(), 0);
    assert_eq!(Entry::new(0xA09B, 0, 0xFFFFF).as_u64(), 0x00af_9b00_0000_ffff);
    assert_eq!(Entry::new(0xC093, 0, 0xFFFFF).as_u64(), 0x00cf_9300_0000_ffff);
}

#[test]
fn descriptor_spreads_base_and_limit() {
    let e = Entry::new(0x4092, 0x1234_5678, 0x000a_bcde);
    assert_eq!(e.as_u64(), 0x124a_9234_5678_bcde);
    let mut seg = Segment::default();
    e.apply_to_kvm(3, &mut seg);
    assert_eq!(
        seg,
        Segment {
            base: 0x1234_5678,
            limit: 0xabcde,
            selector: 24,
            type_: 2,
            present: 1,
            dpl: 0,
            db: 1,
            s: 1,
            l: 0,
            g: 0,
            avl: 0,
            unusable: 0,
            padding: 0,
        }
    );
}

#[test]
fn descriptor_drops_what_has_no_place() {
    // bits 8 to 11 of the flags and bits 20 and up of the limit
    assert_eq!(Entry::new(0x0f00, 0, 0xfff0_0000).as_u64(), 0);
    let mut seg = code_segment();
    Entry::new(0, 0, 0).apply_to_kvm(0, &mut seg);
    assert_eq!(seg, Segment { unusable: 1, ..Segment::default() });
    let mut seg = Segment::default();
    Entry::new(0x10f0, 0, 0).apply_to_kvm(255, &mut seg);
    assert_eq!((seg.present, seg.dpl, seg.s, seg.avl, seg.selector), (1, 3, 1, 1, 2040));
}

#[test]
fn gdt_is_written_and_loaded() {
    let mut vm = machine(0x20_0000);
    assert!(vm.mem.fill(0, 0x20_0000, 0xcc));
    let mut regs = sregs();
    vm.setup_system_gdt(&mut regs, BOOT_GDT).unwrap();
    assert_eq!(vm.mem.read_u64(0x1000), Some(0));
    assert_eq!(vm.mem.read_u64(0x1008), Some(0x00af_9b00_0000_ffff));
    assert_eq!(vm.mem.read_u64(0x1010), Some(0x00cf_9300_0000_ffff));
    assert_eq!(vm.mem.read_u8(0xfff), Some(0xcc));
    assert_eq!(vm.mem.read_u8(0x1018), Some(0xcc));
    assert_eq!(
        regs,
        SRegs {
            cs: code_segment(),
            ds: data_segment(),
            es: data_segment(),
            fs: data_segment(),
            gs: data_segment(),
            ss: data_segment(),
            gdt: DescriptorTable { base: 0x1000, limit: 23 },
            ..sregs()
        }
    );
}

#[test]
fn gdt_outside_memory_is_refused() {
    let mut vm = machine(0x2000);
    let mut regs = sregs();
    assert!(matches!(vm.setup_system_gdt(&mut regs, 0x1fe9), Err(Error::OutOfMemory)));
    assert!(matches!(vm.setup_system_gdt(&mut regs, u64::MAX - 7), Err(Error::OutOfMemory)));
    assert_eq!(regs, sregs());
    vm.setup_system_gdt(&mut regs, 0x1fe8).unwrap();
    assert_eq!(regs.gdt, DescriptorTable { base: 0x1fe8, limit: 23 });
}

#[test]
fn page_tables_map_the_guest_onto_itself() {
    let mut vm = machine(0x20_0000);
    assert!(vm.mem.fill(0, 0x20_0000, 0xcc));
    let mut regs = sregs();
    vm.setup_system_page_tables(&mut regs).unwrap();

    assert_eq!(vm.mem.read_u64(BOOT_PML4), Some(0x11003));
    assert_eq!(vm.mem.read_u64(BOOT_PDPTE), Some(0x12003));
    for i in 1..512 {
        assert_eq!(vm.mem.read_u64(BOOT_PML4 + 8 * i), Some(0));
        assert_eq!(vm.mem.read_u64(BOOT_PDPTE + 8 * i), Some(0));
    }
    let pages = GUEST_SIZE / GUEST_PAGE_SIZE;
    assert_eq!(pages, 256);
    for i in 0..pages {
        assert_eq!(vm.mem.read_u64(BOOT_PDE + 8 * i), Some(i * 0x20_0000 | 0x83));
    }
    assert_eq!(vm.mem.read_u64(BOOT_PDE + 8), Some(0x20_0083));
    assert_eq!(vm.mem.read_u64(BOOT_PDE + 8 * 255), Some(0x1fe0_0083));
    for i in pages..512 {
        assert_eq!(vm.mem.read_u64(BOOT_PDE + 8 * i), Some(0));
    }
    assert_eq!(vm.mem.read_u8(0xffff), Some(0xcc));
    assert_eq!(vm.mem.read_u8(0x13000), Some(0xcc));

    assert_eq!(regs, SRegs { cr3: 0x10000, cr4: 0x60, cr0: 0x8000_0010, ..sregs() });
}

#[test]
fn page_tables_need_their_memory() {
    let mut vm = machine(0x12fff);
    let mut regs = sregs();
    assert!(matches!(vm.setup_system_page_tables(&mut regs), Err(Error::OutOfMemory)));
    assert_eq!(regs, sregs());
    assert!(matches!(vm.init_sregs(&mut regs), Err(Error::OutOfMemory)));
    assert_eq!(regs, sregs());
    let mut vm = machine(0x13000);
    vm.setup_system_page_tables(&mut regs).unwrap();
}

#[test]
fn long_mode_bits() {
    let vm = machine(0x1000);
    let mut regs = sregs();
    vm.setup_system_64bit(&mut regs).unwrap();
    assert_eq!(regs, SRegs { cr0: 0x11, cr4: 0x60, efer: 0x501, ..sregs() });
    assert_eq!((X86_CR0_PE, X86_CR0_PG, X86_CR4_PAE), (1, 1 << 31, 1 << 5));
    assert_eq!((EFER_LME, EFER_LMA), (1 << 8, 1 << 10));
}

#[test]
fn init_sregs_prepares_everything() {
    let mut vm = machine(0x20_0000);
    let mut regs = sregs();
    vm.init_sregs(&mut regs).unwrap();
    assert_eq!(
        regs,
        SRegs {
            cs: code_segment(),
            ds: data_segment(),
            es: data_segment(),
            fs: data_segment(),
            gs: data_segment(),
            ss: data_segment(),
            gdt: DescriptorTable { base: 0x1000, limit: 23 },
            cr0: 0x8000_0011,
            cr3: 0x10000,
            cr4: 0x60,
            efer: 0x501,
        }
    );
    assert_eq!(vm.mem.read_u64(0x1008), Some(0x00af_9b00_0000_ffff));
    assert_eq!(vm.mem.read_u64(BOOT_PDE + 16), Some(0x40_0083));
}

#[test]
fn init_cpus_needs_a_kernel() {
    let mut vm = machine(0x20_0000);
    let mut regs = sregs();
    assert!(matches!(vm.init_cpus(&mut regs), Err(Error::KernelNotLoaded)));
    assert_eq!(regs, sregs());
    vm.elf_entry = Some(0x80_0000);
    assert_eq!(vm.init_cpus(&mut regs).unwrap(), 0x80_0000);
    assert_eq!(regs.cr3, 0x10000);

    let mut small = machine(0x8000);
    small.elf_entry = Some(0x1000);
    let mut regs = sregs();
    assert!(matches!(small.init_cpus(&mut regs), Err(Error::OutOfMemory)));
    assert_eq!(regs, sregs());
}

#[test]
fn cpus_are_created_in_order() {
    let mut vm = machine(0x1000);
    assert!(matches!(vm.create_cpus(), Err(Error::KernelNotLoaded)));
    assert!(matches!(vm.create_vcpu(0), Err(Error::KernelNotLoaded)));
    assert!(vm.vcpus.is_empty());
    vm.mboot = Some(0x400);
    vm.create_cpus().unwrap();
    assert_eq!(vm.vcpus, vec![0, 1]);

    let mut vm = machine(0x1000);
    vm.mboot = Some(0x400);
    assert!(matches!(
        vm.create_vcpu(1),
        Err(Error::IOCTL(uhyve_vm::error::NameIOCTL::CreateVcpu))
    ));
    vm.create_vcpu(0).unwrap();
    vm.create_vcpu(1).unwrap();
    vm.create_vcpu(1).unwrap();
    assert_eq!(vm.vcpus, vec![0, 1, 1]);

    let mut none = VirtualMachine::new(0x1000, 0, params()).unwrap();
    none.create_cpus().unwrap();
    assert!(none.vcpus.is_empty());
}

#[test]
fn saved_states_are_picked_by_id() {
    let mut vm = machine(0x1000);
    vm.vcpus = vec![0, 1];
    assert!(matches!(vm.restore_cpus(1), Err(Error::VCpuStatesNotInitialized)));
    assert!(matches!(vm.restore_cpus(0), Err(Error::VCpuStatesNotInitialized)));
    assert_eq!(vm.restore_cpus(2).unwrap(), vec![0, 1]);
    assert_eq!(vm.restore_cpus(5).unwrap(), vec![0, 1]);
    vm.vcpus = vec![3, 0];
    assert!(matches!(vm.restore_cpus(3), Err(Error::VCpuStatesNotInitialized)));
    assert_eq!(vm.restore_cpus(4).unwrap(), vec![3, 0]);
    vm.vcpus = vec![];
    assert_eq!(vm.restore_cpus(0).unwrap(), Vec::<usize>::new());
}
