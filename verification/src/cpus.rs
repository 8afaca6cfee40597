//! The virtual CPUs of a machine: which exist, and the registers they start
//! with.

use vstd::prelude::*;
use crate::boot::{
    gdt_loaded, gdt_stored, long_mode_enabled, page_tables_built, paging_enabled,
    starts_in_long_mode, SRegs, BOOT_TABLES_LEN,
};
use crate::error::{Error, NameIOCTL};
use crate::layout::{BOOT_GDT, BOOT_PML4};
use crate::mem::backed;
use crate::vm::VirtualMachine;

verus! {

/// The special registers that every virtual CPU starts with, given those
/// that the first one was created with.
pub open spec fn boot_sregs(sregs: SRegs) -> SRegs {
    long_mode_enabled(paging_enabled(gdt_loaded(sregs, BOOT_GDT)))
}

/// Registers prepared for booting select 64-bit mode with paging through the
/// boot page tables, whatever they held before.
pub proof fn lemma_boot_sregs_start_in_long_mode(sregs: SRegs)
    ensures
        starts_in_long_mode(boot_sregs(sregs)),
{
    let cr0 = sregs.cr0;
    let cr4 = sregs.cr4;
    let efer = sregs.efer;
    assert(((cr0 | 0x8000_0000u64) | 0x1u64) & 0x8000_0000u64 == 0x8000_0000u64) by (bit_vector);
    assert(((cr0 | 0x8000_0000u64) | 0x1u64) & 0x1u64 == 0x1u64) by (bit_vector);
    assert(((cr4 | 0x20u64) | 0x20u64) & 0x20u64 == 0x20u64) by (bit_vector);
    assert((efer | (0x100u64 | 0x400u64)) & 0x100u64 == 0x100u64) by (bit_vector);
    assert((efer | (0x100u64 | 0x400u64)) & 0x400u64 == 0x400u64) by (bit_vector);
}

/// The ids `0` to `n - 1` in order.
pub open spec fn first_ids(n: nat) -> Seq<u32> {
    Seq::new(n, |i: int| i as u32)
}

/// Whether the saved state of every virtual CPU in `vcpus` is among `count`
/// saved states, which are indexed by id.
pub open spec fn states_cover(vcpus: Seq<u32>, count: nat) -> bool {
    &&& vcpus.len() <= count
    &&& forall|k: int| 0 <= k < vcpus.len() ==> #[trigger] vcpus[k] < count
}

impl VirtualMachine {
    /// Writes the boot tables to guest memory and sets `sregs` to what a
    /// virtual CPU needs to start in 64-bit mode.
    ///
    /// Fails with `OutOfMemory`, and changes nothing, where the guest has no
    /// memory to hold the tables.
    pub fn init_sregs(&mut self, sregs: &mut SRegs) -> (r: Result<(), Error>)
        ensures
            r is Ok <==> backed(old(self).mem@.len(), BOOT_PML4 as int, BOOT_TABLES_LEN as int),
            r is Ok ==> {
                &&& page_tables_built(
                    gdt_stored(old(self).mem@, BOOT_GDT as int),
                    final(self).mem@,
                )
                &&& *final(sregs) == boot_sregs(*old(sregs))
                &&& starts_in_long_mode(*final(sregs))
            },
            r matches Err(e) ==> e is OutOfMemory && final(self).mem@ == old(self).mem@
                && *final(sregs) == *old(sregs),
            final(self).same_but_memory(*old(self)),
    {
        if !self.mem.is_backed(BOOT_PML4, BOOT_TABLES_LEN) {
            return Err(Error::OutOfMemory);
        }
        proof {
            lemma_boot_sregs_start_in_long_mode(*sregs);
        }
        match self.setup_system_gdt(sregs, BOOT_GDT) {
            Ok(()) => {},
            Err(e) => {
                return Err(e);
            },
        }
        match self.setup_system_page_tables(sregs) {
            Ok(()) => {},
            Err(e) => {
                return Err(e);
            },
        }
        self.setup_system_64bit(sregs)
    }

    /// Prepares the registers that every virtual CPU starts with, from those
    /// that the first one was created with, and returns the address at which
    /// they all start.
    ///
    /// Fails with `KernelNotLoaded` where no entry point is known, and with
    /// `OutOfMemory` where the guest has no memory to hold the boot tables;
    /// either way nothing is changed.
    pub fn init_cpus(&mut self, sregs: &mut SRegs) -> (r: Result<u64, Error>)
        ensures
            match r {
                Ok(entry) => {
                    &&& old(self).elf_entry == Some(entry)
                    &&& backed(old(self).mem@.len(), BOOT_PML4 as int, BOOT_TABLES_LEN as int)
                    &&& page_tables_built(
                        gdt_stored(old(self).mem@, BOOT_GDT as int),
                        final(self).mem@,
                    )
                    &&& *final(sregs) == boot_sregs(*old(sregs))
                    &&& starts_in_long_mode(*final(sregs))
                },
                Err(e) => {
                    &&& final(self).mem@ == old(self).mem@
                    &&& *final(sregs) == *old(sregs)
                    &&& if old(self).elf_entry is None {
                        e is KernelNotLoaded
                    } else {
                        e is OutOfMemory && !backed(
                            old(self).mem@.len(),
                            BOOT_PML4 as int,
                            BOOT_TABLES_LEN as int,
                        )
                    }
                },
            },
            final(self).same_but_memory(*old(self)),
    {
        let entry = match self.elf_entry {
            Some(entry) => entry,
            None => {
                return Err(Error::KernelNotLoaded);
            },
        };
        match self.init_sregs(sregs) {
            Ok(()) => Ok(entry),
            Err(e) => Err(e),
        }
    }

    /// Records that the virtual CPU `id` was created.
    ///
    /// Fails with `KernelNotLoaded` where no boot information block is known
    /// that the CPU could be given, and with `IOCTL(CreateVcpu)` where a CPU
    /// with a lower id is still missing; either way nothing is changed.
    pub fn create_vcpu(&mut self, id: u32) -> (r: Result<(), Error>)
        ensures
            r is Ok <==> old(self).mboot is Some && id <= old(self).vcpus@.len(),
            r is Ok ==> final(self).vcpus@ == old(self).vcpus@.insert(id as int, id),
            r matches Err(e) ==> final(self).vcpus@ == old(self).vcpus@ && if old(self).mboot
                is None {
                e is KernelNotLoaded
            } else {
                e == Error::IOCTL(NameIOCTL::CreateVcpu)
            },
            final(self).same_but_vcpus(*old(self)),
    {
        if self.mboot.is_none() {
            return Err(Error::KernelNotLoaded);
        }
        if id as usize > self.vcpus.len() {
            return Err(Error::IOCTL(NameIOCTL::CreateVcpu));
        }
        self.vcpus.insert(id as usize, id);
        Ok(())
    }

    /// Records the creation of every virtual CPU of the machine, by
    /// ascending id.
    ///
    /// Fails with `KernelNotLoaded`, and changes nothing, where the machine
    /// is to have a CPU and no boot information block is known.
    pub fn create_cpus(&mut self) -> (r: Result<(), Error>)
        ensures
            r is Ok <==> old(self).mboot is Some || old(self).num_cpus == 0,
            r is Ok ==> final(self).vcpus@ == first_ids(old(self).num_cpus as nat) + old(
                self,
            ).vcpus@,
            r matches Err(e) ==> e is KernelNotLoaded && final(self).vcpus@ == old(self).vcpus@,
            final(self).same_but_vcpus(*old(self)),
    {
        let ghost before = self.vcpus@;
        let mut i: u32 = 0;
        while i < self.num_cpus
            invariant
                i <= self.num_cpus,
                self.same_but_vcpus(*old(self)),
                self.mem@ == old(self).mem@,
                before == old(self).vcpus@,
                i > 0 ==> self.mboot is Some,
                self.vcpus@ == first_ids(i as nat) + before,
            decreases self.num_cpus - i,
        {
            match self.create_vcpu(i) {
                Ok(()) => {},
                Err(e) => {
                    assert(self.vcpus@ == before);
                    return Err(e);
                },
            }
            assert(self.vcpus@ == first_ids((i + 1) as nat) + before);
            i = i + 1;
        }
        Ok(())
    }

    /// Tells which saved state each virtual CPU is restored from: the result
    /// holds, for every CPU in the order of `vcpus`, the index of its state
    /// among the `count` saved ones, which is its id.
    ///
    /// Fails with `VCpuStatesNotInitialized` where there are fewer saved
    /// states than CPUs, or none for the id of one of them.
    pub fn restore_cpus(&self, count: usize) -> (r: Result<Vec<usize>, Error>)
        ensures
            r is Ok <==> states_cover(self.vcpus@, count as nat),
            r matches Ok(v) ==> v@.len() == self.vcpus@.len() && forall|k: int|
                0 <= k < v@.len() ==> #[trigger] v@[k] == self.vcpus@[k],
            r matches Err(e) ==> e is VCpuStatesNotInitialized,
    {
        if count < self.vcpus.len() {
            return Err(Error::VCpuStatesNotInitialized);
        }
        let mut picks: Vec<usize> = Vec::new();
        let mut k: usize = 0;
        while k < self.vcpus.len()
            invariant
                k <= self.vcpus@.len(),
                self.vcpus@.len() <= count,
                picks@.len() == k,
                forall|j: int| 0 <= j < k ==> #[trigger] self.vcpus@[j] < count,
                forall|j: int| 0 <= j < k ==> #[trigger] picks@[j] == self.vcpus@[j],
            decreases self.vcpus@.len() - k,
        {
            let id = self.vcpus[k];
            if id as usize >= count {
                return Err(Error::VCpuStatesNotInitialized);
            }
            picks.push(id as usize);
            k = k + 1;
        }
        Ok(picks)
    }

    /// Whether `other` differs from this machine in its list of virtual CPUs
    /// at most.
    pub open spec fn same_but_vcpus(self, other: VirtualMachine) -> bool {
        &&& self.mem == other.mem
        &&& self.elf_entry == other.elf_entry
        &&& self.klog == other.klog
        &&& self.mboot == other.mboot
        &&& self.num_cpus == other.num_cpus
        &&& self.control == other.control
        &&& self.extensions == other.extensions
        &&& self.additional == other.additional
        &&& self.checkpoint_num == other.checkpoint_num
    }
}

} // verus!
