//! The boot tables in guest memory and the registers that point at them.

use vstd::prelude::*;
use vstd::bytes::spec_u64_to_le_bytes;
use crate::error::Error;
use crate::gdt::{
    descriptor, segment_of, Entry, Segment, BOOT_CODE, BOOT_DATA, BOOT_LIMIT, BOOT_MAX, BOOT_NULL,
    CODE_FLAGS, DATA_FLAGS,
};
use crate::layout::{
    BOOT_PDE, BOOT_PDPTE, BOOT_PML4, EFER_LMA, EFER_LME, GUEST_PAGE_SIZE, GUEST_SIZE, PAGE_MAP_SIZE,
    PAGE_SIZE, X86_CR0_PE, X86_CR0_PG, X86_CR4_PAE, X86_PDPT_P, X86_PDPT_PS, X86_PDPT_RW,
};
use crate::mem::{
    backed, lemma_backed_within, lemma_word_kept, lemma_word_of_zeros, lemma_word_stored, patched,
    word_at,
};
use crate::vm::VirtualMachine;

verus! {

/// Base and limit of a descriptor table.
#[derive(Debug, Clone, Copy, PartialEq, Eq, Structural)]
pub struct DescriptorTable {
    pub base: u64,
    pub limit: u16,
}

/// The special registers of a virtual CPU that the boot code sets.
#[derive(Debug, Clone, Copy, PartialEq, Eq, Structural)]
pub struct SRegs {
    pub cs: Segment,
    pub ds: Segment,
    pub es: Segment,
    pub fs: Segment,
    pub gs: Segment,
    pub ss: Segment,
    pub gdt: DescriptorTable,
    pub cr0: u64,
    pub cr3: u64,
    pub cr4: u64,
    pub efer: u64,
}

/// Number of bytes of the boot descriptor table.
pub const BOOT_GDT_LEN: u64 = 24;

/// Number of bytes of the three boot page tables.
pub const BOOT_TABLES_LEN: u64 = 0x3000;

/// Number of entries of the boot page directory that map memory.
pub const BOOT_PAGES: u64 = 256;

/// `mem` with the boot descriptor table at `offset`: the null descriptor,
/// the code segment, the data segment.
pub open spec fn gdt_stored(mem: Seq<u8>, offset: int) -> Seq<u8> {
    let m = patched(mem, offset + 8 * BOOT_NULL, spec_u64_to_le_bytes(descriptor(0, 0, 0)));
    let m = patched(
        m,
        offset + 8 * BOOT_CODE,
        spec_u64_to_le_bytes(descriptor(CODE_FLAGS, 0, BOOT_LIMIT)),
    );
    patched(m, offset + 8 * BOOT_DATA, spec_u64_to_le_bytes(descriptor(DATA_FLAGS, 0, BOOT_LIMIT)))
}

/// `sregs` pointing at the boot descriptor table at `offset`, with the code
/// segment in CS and the data segment in the other segment registers.
pub open spec fn gdt_loaded(sregs: SRegs, offset: u64) -> SRegs {
    let code = segment_of(descriptor(CODE_FLAGS, 0, BOOT_LIMIT), BOOT_CODE as u8);
    let data = segment_of(descriptor(DATA_FLAGS, 0, BOOT_LIMIT), BOOT_DATA as u8);
    SRegs {
        cs: code,
        ds: data,
        es: data,
        fs: data,
        gs: data,
        ss: data,
        gdt: DescriptorTable { base: offset, limit: (8 * BOOT_MAX - 1) as u16 },
        ..sregs
    }
}

/// The entry at index `i` of the boot PML4: the first points at the boot
/// page-directory-pointer table, the others are empty.
pub open spec fn boot_pml4_entry(i: int) -> u64 {
    if i == 0 {
        BOOT_PDPTE | (X86_PDPT_P | X86_PDPT_RW)
    } else {
        0
    }
}

/// The entry at index `i` of the boot page-directory-pointer table: the
/// first points at the boot page directory, the others are empty.
pub open spec fn boot_pdpt_entry(i: int) -> u64 {
    if i == 0 {
        BOOT_PDE | (X86_PDPT_P | X86_PDPT_RW)
    } else {
        0
    }
}

/// The entry at index `i` of the boot page directory: each of the first
/// `BOOT_PAGES` maps the 2 MiB page of its index onto itself, the others are
/// empty.
pub open spec fn boot_pde_entry(i: int) -> u64 {
    if 0 <= i < BOOT_PAGES {
        ((i * GUEST_PAGE_SIZE) as u64) | (X86_PDPT_P | X86_PDPT_RW | X86_PDPT_PS)
    } else {
        0
    }
}

/// Whether `after` is `before` with the boot page tables in place: the three
/// tables hold their entries, and no byte outside them differs.
pub open spec fn page_tables_built(before: Seq<u8>, after: Seq<u8>) -> bool {
    &&& after.len() == before.len()
    &&& forall|a: int|
        0 <= a < before.len() && !(BOOT_PML4 <= a < BOOT_PML4 + BOOT_TABLES_LEN) ==> after[a]
            == before[a]
    &&& forall|i: int|
        0 <= i < PAGE_MAP_SIZE ==> #[trigger] word_at(after, BOOT_PML4 + 8 * i) == boot_pml4_entry(
            i,
        )
    &&& forall|i: int|
        0 <= i < PAGE_MAP_SIZE ==> #[trigger] word_at(after, BOOT_PDPTE + 8 * i)
            == boot_pdpt_entry(i)
    &&& forall|i: int|
        0 <= i < PAGE_MAP_SIZE ==> #[trigger] word_at(after, BOOT_PDE + 8 * i) == boot_pde_entry(i)
}

/// `sregs` with paging through the boot page tables switched on.
pub open spec fn paging_enabled(sregs: SRegs) -> SRegs {
    SRegs {
        cr3: BOOT_PML4,
        cr4: sregs.cr4 | X86_CR4_PAE,
        cr0: sregs.cr0 | X86_CR0_PG,
        ..sregs
    }
}

/// `sregs` with long mode switched on.
pub open spec fn long_mode_enabled(sregs: SRegs) -> SRegs {
    SRegs {
        cr0: sregs.cr0 | X86_CR0_PE,
        cr4: sregs.cr4 | X86_CR4_PAE,
        efer: sregs.efer | (EFER_LME | EFER_LMA),
        ..sregs
    }
}

/// Whether a virtual CPU with these registers starts in 64-bit mode with
/// paging through the boot page tables.
pub open spec fn starts_in_long_mode(sregs: SRegs) -> bool {
    &&& sregs.cr3 == BOOT_PML4
    &&& sregs.cr4 & X86_CR4_PAE == X86_CR4_PAE
    &&& sregs.cr0 & X86_CR0_PG == X86_CR0_PG
    &&& sregs.cr0 & X86_CR0_PE == X86_CR0_PE
    &&& sregs.efer & EFER_LME == EFER_LME
    &&& sregs.efer & EFER_LMA == EFER_LMA
}

impl VirtualMachine {
    /// Writes the boot descriptor table to guest memory at `offset` and
    /// points `sregs` at it.
    ///
    /// Fails with `OutOfMemory`, and changes nothing, where the guest has no
    /// memory at `offset` to hold the table.
    pub fn setup_system_gdt(&mut self, sregs: &mut SRegs, offset: u64) -> (r: Result<(), Error>)
        ensures
            r is Ok <==> backed(old(self).mem@.len(), offset as int, BOOT_GDT_LEN as int),
            r is Ok ==> final(self).mem@ == gdt_stored(old(self).mem@, offset as int)
                && *final(sregs) == gdt_loaded(*old(sregs), offset),
            r matches Err(e) ==> e is OutOfMemory && final(self).mem@ == old(self).mem@
                && *final(sregs) == *old(sregs),
            final(self).same_but_memory(*old(self)),
    {
        if !self.mem.is_backed(offset, BOOT_GDT_LEN) {
            return Err(Error::OutOfMemory);
        }
        let gdt_null = Entry::new(0, 0, 0);
        let gdt_code = Entry::new(CODE_FLAGS, 0, BOOT_LIMIT);
        let gdt_data = Entry::new(DATA_FLAGS, 0, BOOT_LIMIT);
        proof {
            let n = self.mem@.len();
            lemma_backed_within(n, offset as int, BOOT_GDT_LEN as int, offset + 8 * BOOT_NULL, 8);
            lemma_backed_within(n, offset as int, BOOT_GDT_LEN as int, offset + 8 * BOOT_CODE, 8);
            lemma_backed_within(n, offset as int, BOOT_GDT_LEN as int, offset + 8 * BOOT_DATA, 8);
        }
        self.mem.write_u64(offset + 8 * BOOT_NULL, gdt_null.as_u64());
        self.mem.write_u64(offset + 8 * BOOT_CODE, gdt_code.as_u64());
        self.mem.write_u64(offset + 8 * BOOT_DATA, gdt_data.as_u64());

        let mut code_seg = Segment::default();
        let mut data_seg = Segment::default();
        gdt_code.apply_to_kvm(BOOT_CODE as u8, &mut code_seg);
        gdt_data.apply_to_kvm(BOOT_DATA as u8, &mut data_seg);

        sregs.gdt.base = offset;
        sregs.gdt.limit = (8 * BOOT_MAX - 1) as u16;
        sregs.cs = code_seg;
        sregs.ds = data_seg;
        sregs.es = data_seg;
        sregs.fs = data_seg;
        sregs.gs = data_seg;
        sregs.ss = data_seg;
        Ok(())
    }

    /// Sets the bits of `sregs` that switch a virtual CPU to 64-bit mode.
    pub fn setup_system_64bit(&self, sregs: &mut SRegs) -> (r: Result<(), Error>)
        ensures
            r is Ok,
            *final(sregs) == long_mode_enabled(*old(sregs)),
    {
        sregs.cr0 = sregs.cr0 | X86_CR0_PE;
        sregs.cr4 = sregs.cr4 | X86_CR4_PAE;
        sregs.efer = sregs.efer | (EFER_LME | EFER_LMA);
        Ok(())
    }

    /// Whether `other` differs from this machine in its memory at most.
    pub open spec fn same_but_memory(self, other: VirtualMachine) -> bool {
        &&& self.elf_entry == other.elf_entry
        &&& self.klog == other.klog
        &&& self.mboot == other.mboot
        &&& self.vcpus == other.vcpus
        &&& self.num_cpus == other.num_cpus
        &&& self.control == other.control
        &&& self.extensions == other.extensions
        &&& self.additional == other.additional
        &&& self.checkpoint_num == other.checkpoint_num
    }
}

/// The entry at index `i` of the boot page directory while only the first
/// `n` entries are written.
spec fn pde_entry_upto(i: int, n: int) -> u64 {
    if i < n {
        boot_pde_entry(i)
    } else {
        0
    }
}

/// `page_tables_built` while only the first `n` entries of the page
/// directory are written.
spec fn tables_built_upto(before: Seq<u8>, now: Seq<u8>, n: int) -> bool {
    &&& now.len() == before.len()
    &&& forall|a: int|
        0 <= a < before.len() && !(BOOT_PML4 <= a < BOOT_PML4 + BOOT_TABLES_LEN) ==> now[a]
            == before[a]
    &&& forall|i: int|
        0 <= i < PAGE_MAP_SIZE ==> #[trigger] word_at(now, BOOT_PML4 + 8 * i) == boot_pml4_entry(i)
    &&& forall|i: int|
        0 <= i < PAGE_MAP_SIZE ==> #[trigger] word_at(now, BOOT_PDPTE + 8 * i) == boot_pdpt_entry(
            i,
        )
    &&& forall|i: int|
        0 <= i < PAGE_MAP_SIZE ==> #[trigger] word_at(now, BOOT_PDE + 8 * i) == pde_entry_upto(
            i,
            n,
        )
}

/// What storing one 64-bit value changes: the value reads back, every other
/// 64-bit value that does not share a byte with it is kept, and so is every
/// byte outside it.
proof fn lemma_entry_stored(mem: Seq<u8>, at: int, value: u64)
    requires
        0 <= at,
        at + 8 <= mem.len(),
    ensures
        ({
            let m = patched(mem, at, spec_u64_to_le_bytes(value));
            &&& m.len() == mem.len()
            &&& word_at(m, at) == value
            &&& forall|a: int|
                0 <= a && a + 8 <= mem.len() && (a + 8 <= at || at + 8 <= a) ==> #[trigger] word_at(
                    m,
                    a,
                ) == word_at(mem, a)
            &&& forall|a: int| 0 <= a < mem.len() && !(at <= a < at + 8) ==> m[a] == mem[a]
        }),
{
    vstd::bytes::lemma_auto_spec_u64_to_from_le_bytes();
    let data = spec_u64_to_le_bytes(value);
    let m = patched(mem, at, data);
    lemma_word_stored(mem, at, value);
    assert forall|a: int|
        0 <= a && a + 8 <= mem.len() && (a + 8 <= at || at + 8 <= a) implies #[trigger] word_at(
        m,
        a,
    ) == word_at(mem, a) by {
        lemma_word_kept(mem, at, data, a);
    }
}

/// Zeroed page tables hold empty entries only.
proof fn lemma_tables_zeroed(before: Seq<u8>, now: Seq<u8>)
    requires
        BOOT_PML4 + BOOT_TABLES_LEN <= before.len(),
        now.len() == before.len(),
        forall|a: int|
            0 <= a < before.len() ==> now[a] == if BOOT_PML4 <= a < BOOT_PML4 + BOOT_TABLES_LEN {
                0u8
            } else {
                before[a]
            },
    ensures
        forall|i: int| 0 <= i < 3 * PAGE_MAP_SIZE ==> #[trigger] word_at(now, BOOT_PML4 + 8 * i) == 0,
{
    assert forall|i: int| 0 <= i < 3 * PAGE_MAP_SIZE implies #[trigger] word_at(
        now,
        BOOT_PML4 + 8 * i,
    ) == 0 by {
        lemma_word_of_zeros(now, BOOT_PML4 + 8 * i);
    }
}

impl VirtualMachine {
    /// Builds the boot page tables in guest memory, which map the first
    /// `GUEST_SIZE` bytes onto themselves in 2 MiB pages, and switches
    /// paging on in `sregs`.
    ///
    /// Fails with `OutOfMemory`, and changes nothing, where the guest has no
    /// memory to hold the tables.
    pub fn setup_system_page_tables(&mut self, sregs: &mut SRegs) -> (r: Result<(), Error>)
        ensures
            r is Ok <==> backed(old(self).mem@.len(), BOOT_PML4 as int, BOOT_TABLES_LEN as int),
            r is Ok ==> page_tables_built(old(self).mem@, final(self).mem@) && *final(sregs)
                == paging_enabled(*old(sregs)),
            r matches Err(e) ==> e is OutOfMemory && final(self).mem@ == old(self).mem@
                && *final(sregs) == *old(sregs),
            final(self).same_but_memory(*old(self)),
    {
        if !self.mem.is_backed(BOOT_PML4, BOOT_TABLES_LEN) {
            return Err(Error::OutOfMemory);
        }
        let ghost before = self.mem@;
        let ghost n = before.len();
        proof {
            lemma_backed_within(n, BOOT_PML4 as int, BOOT_TABLES_LEN as int, BOOT_PML4 as int, 4096);
            lemma_backed_within(n, BOOT_PML4 as int, BOOT_TABLES_LEN as int, BOOT_PDPTE as int, 4096);
            lemma_backed_within(n, BOOT_PML4 as int, BOOT_TABLES_LEN as int, BOOT_PDE as int, 4096);
            lemma_backed_within(n, BOOT_PML4 as int, BOOT_TABLES_LEN as int, BOOT_PML4 as int, 8);
            lemma_backed_within(n, BOOT_PML4 as int, BOOT_TABLES_LEN as int, BOOT_PDPTE as int, 8);
        }
        self.mem.fill(BOOT_PML4, PAGE_SIZE, 0);
        self.mem.fill(BOOT_PDPTE, PAGE_SIZE, 0);
        self.mem.fill(BOOT_PDE, PAGE_SIZE, 0);
        proof {
            lemma_tables_zeroed(before, self.mem@);
            assert forall|i: int| 0 <= i < PAGE_MAP_SIZE implies #[trigger] word_at(
                self.mem@,
                BOOT_PDPTE + 8 * i,
            ) == 0 by {
                assert(BOOT_PDPTE + 8 * i == BOOT_PML4 + 8 * (i + 512));
            }
            assert forall|i: int| 0 <= i < PAGE_MAP_SIZE implies #[trigger] word_at(
                self.mem@,
                BOOT_PDE + 8 * i,
            ) == 0 by {
                assert(BOOT_PDE + 8 * i == BOOT_PML4 + 8 * (i + 1024));
            }
            lemma_entry_stored(self.mem@, BOOT_PML4 as int, BOOT_PDPTE | (X86_PDPT_P | X86_PDPT_RW));
        }
        let ghost zeroed = self.mem@;
        self.mem.write_u64(BOOT_PML4, BOOT_PDPTE | (X86_PDPT_P | X86_PDPT_RW));
        proof {
            assert forall|i: int| 0 <= i < PAGE_MAP_SIZE implies #[trigger] word_at(
                self.mem@,
                BOOT_PML4 + 8 * i,
            ) == boot_pml4_entry(i) by {
                assert(word_at(zeroed, BOOT_PML4 + 8 * i) == 0);
            }
            assert forall|i: int| 0 <= i < PAGE_MAP_SIZE implies #[trigger] word_at(
                self.mem@,
                BOOT_PDPTE + 8 * i,
            ) == 0 by {
                assert(word_at(zeroed, BOOT_PDPTE + 8 * i) == 0);
            }
            assert forall|i: int| 0 <= i < PAGE_MAP_SIZE implies #[trigger] word_at(
                self.mem@,
                BOOT_PDE + 8 * i,
            ) == 0 by {
                assert(word_at(zeroed, BOOT_PDE + 8 * i) == 0);
            }
            lemma_entry_stored(self.mem@, BOOT_PDPTE as int, BOOT_PDE | (X86_PDPT_P | X86_PDPT_RW));
        }
        let ghost rooted = self.mem@;
        self.mem.write_u64(BOOT_PDPTE, BOOT_PDE | (X86_PDPT_P | X86_PDPT_RW));
        proof {
            assert forall|i: int| 0 <= i < PAGE_MAP_SIZE implies #[trigger] word_at(
                self.mem@,
                BOOT_PML4 + 8 * i,
            ) == boot_pml4_entry(i) by {
                assert(word_at(rooted, BOOT_PML4 + 8 * i) == boot_pml4_entry(i));
            }
            assert forall|i: int| 0 <= i < PAGE_MAP_SIZE implies #[trigger] word_at(
                self.mem@,
                BOOT_PDPTE + 8 * i,
            ) == boot_pdpt_entry(i) by {
                assert(word_at(rooted, BOOT_PDPTE + 8 * i) == 0);
            }
            assert forall|i: int| 0 <= i < PAGE_MAP_SIZE implies #[trigger] word_at(
                self.mem@,
                BOOT_PDE + 8 * i,
            ) == pde_entry_upto(i, 0) by {
                assert(word_at(rooted, BOOT_PDE + 8 * i) == 0);
            }
            assert(tables_built_upto(before, self.mem@, 0));
        }
        let mut i: u64 = 0;
        while i < BOOT_PAGES
            invariant
                i <= BOOT_PAGES,
                n == before.len(),
                backed(n, BOOT_PML4 as int, BOOT_TABLES_LEN as int),
                tables_built_upto(before, self.mem@, i as int),
                self.same_but_memory(*old(self)),
            decreases BOOT_PAGES - i,
        {
            let ghost prev = self.mem@;
            let entry: u64 = (i * GUEST_PAGE_SIZE) | (X86_PDPT_P | X86_PDPT_RW | X86_PDPT_PS);
            proof {
                lemma_backed_within(
                    n,
                    BOOT_PML4 as int,
                    BOOT_TABLES_LEN as int,
                    BOOT_PDE + 8 * i,
                    8,
                );
                lemma_entry_stored(prev, BOOT_PDE + 8 * i, entry);
            }
            self.mem.write_u64(BOOT_PDE + 8 * i, entry);
            proof {
                assert forall|j: int| 0 <= j < PAGE_MAP_SIZE implies #[trigger] word_at(
                    self.mem@,
                    BOOT_PML4 + 8 * j,
                ) == boot_pml4_entry(j) by {
                    assert(word_at(prev, BOOT_PML4 + 8 * j) == boot_pml4_entry(j));
                }
                assert forall|j: int| 0 <= j < PAGE_MAP_SIZE implies #[trigger] word_at(
                    self.mem@,
                    BOOT_PDPTE + 8 * j,
                ) == boot_pdpt_entry(j) by {
                    assert(word_at(prev, BOOT_PDPTE + 8 * j) == boot_pdpt_entry(j));
                }
                assert forall|j: int| 0 <= j < PAGE_MAP_SIZE implies #[trigger] word_at(
                    self.mem@,
                    BOOT_PDE + 8 * j,
                ) == pde_entry_upto(j, i + 1) by {
                    assert(word_at(prev, BOOT_PDE + 8 * j) == pde_entry_upto(j, i as int));
                }
            }
            i = i + 1;
        }
        sregs.cr3 = BOOT_PML4;
        sregs.cr4 = sregs.cr4 | X86_CR4_PAE;
        sregs.cr0 = sregs.cr0 | X86_CR0_PG;
        Ok(())
    }
}

} // verus!
