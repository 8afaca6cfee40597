//! Fixed guest-physical addresses, register bits and page-table bits.

use vstd::prelude::*;

verus! {

/// Size of the guest-physical range that the boot page tables map.
pub const GUEST_SIZE: u64 = 0x2000_0000;

/// Size of one page of the boot identity map.
pub const GUEST_PAGE_SIZE: u64 = 0x20_0000;

/// Guest-physical address of the boot descriptor table.
pub const BOOT_GDT: u64 = 0x1000;

/// Guest-physical address reserved for the boot information block.
pub const BOOT_INFO: u64 = 0x2000;

/// Guest-physical address of the boot PML4.
pub const BOOT_PML4: u64 = 0x10000;

/// Guest-physical address of the boot page-directory-pointer table.
pub const BOOT_PDPTE: u64 = 0x11000;

/// Guest-physical address of the boot page directory.
pub const BOOT_PDE: u64 = 0x12000;

/// CR0: protected mode enable.
pub const X86_CR0_PE: u64 = 0x1;

/// CR0: paging.
pub const X86_CR0_PG: u64 = 0x8000_0000;

/// CR4: physical address extension.
pub const X86_CR4_PAE: u64 = 0x20;

/// Boot table entry: present.
pub const X86_PDPT_P: u64 = 0x1;

/// Boot table entry: writable.
pub const X86_PDPT_RW: u64 = 0x2;

/// Boot table entry: large page.
pub const X86_PDPT_PS: u64 = 0x80;

/// EFER: SYSCALL/SYSRET.
pub const EFER_SCE: u64 = 0x1;

/// EFER: long mode enable.
pub const EFER_LME: u64 = 0x100;

/// EFER: long mode active.
pub const EFER_LMA: u64 = 0x400;

/// EFER: no-execute enable.
pub const EFER_NX: u64 = 0x800;

/// EFER: enable virtualization.
pub const EFER_SVME: u64 = 0x1000;

/// EFER: long mode segment limit enable.
pub const EFER_LMSLE: u64 = 0x2000;

/// EFER: fast FXSAVE/FXRSTOR.
pub const EFER_FFXSR: u64 = 0x4000;

/// End of the 32-bit guest-physical address space.
pub const KVM_32BIT_MAX_MEM_SIZE: u64 = 0x1_0000_0000;

/// Size of the device hole below 4 GiB.
pub const KVM_32BIT_GAP_SIZE: u64 = 0x3000_0000;

/// First guest-physical address of the device hole.
pub const KVM_32BIT_GAP_START: u64 = 0xD000_0000;

/// Number of offset bits of a 4 KiB page.
pub const PAGE_BITS: u64 = 12;

/// Number of offset bits of a 2 MiB page.
pub const PAGE_2M_BITS: u64 = 21;

/// Size of a 4 KiB page.
pub const PAGE_SIZE: u64 = 0x1000;

/// Size of a 2 MiB page.
pub const PAGE_2M_SIZE: u64 = 0x20_0000;

/// Bits of a page-table entry that hold the address of a table or of a
/// 4 KiB page.
pub const PAGE_MASK: u64 = 0xFFFF_F000;

/// Bits of a page-table entry that hold the address of a 2 MiB page.
pub const PAGE_2M_MASK: u64 = 0xFFE0_0000;

/// Page-table entry: present.
pub const PG_PRESENT: u64 = 0x1;

/// Page-table entry: writable.
pub const PG_RW: u64 = 0x2;

/// Page-table entry: accessible from user mode.
pub const PG_USER: u64 = 0x4;

/// Page-table entry: write-through.
pub const PG_PWT: u64 = 0x8;

/// Page-table entry: cache disabled.
pub const PG_PCD: u64 = 0x10;

/// Page-table entry: accessed since the bit was last cleared.
pub const PG_ACCESSED: u64 = 0x20;

/// Page-table entry: written since the bit was last cleared.
pub const PG_DIRTY: u64 = 0x40;

/// Page-directory entry: maps a 2 MiB page.
pub const PG_PSE: u64 = 0x80;

/// Page-table entry: page attribute table (same bit as `PG_PSE`).
pub const PG_PAT: u64 = 0x80;

/// Page-table entry: global. Unused, the guest never reloads CR3.
pub const PG_GLOBAL: u64 = 0;

/// Page-table entry: self-reference.
pub const PG_SELF: u64 = 0x200;

/// Page-table entry: execute disable. Unused.
pub const PG_XD: u64 = 0;

/// Width of a page-table entry in bits.
pub const BITS: u64 = 64;

/// Width of a physical address in bits.
pub const PHYS_BITS: u64 = 52;

/// Width of a virtual address in bits.
pub const VIRT_BITS: u64 = 48;

/// Index bits per page-table level.
pub const PAGE_MAP_BITS: u64 = 9;

/// Number of page-table levels.
pub const PAGE_LEVELS: u64 = 4;

/// Entries per page table.
pub const PAGE_MAP_SIZE: u64 = 512;

} // verus!
