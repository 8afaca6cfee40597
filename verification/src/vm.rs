//! The virtual machine: its memory, what is known of the loaded kernel, and
//! its configuration.

use vstd::prelude::*;
use std::sync::Arc;
use crate::control::{barrier_size, participants, ControlData};
use crate::error::Error;
use crate::mem::{mapped_len, GuestMemory};

verus! {

/// What the host's virtualization facility offers beyond the minimum.
#[derive(Debug, Clone, Copy, PartialEq, Eq, Structural)]
pub struct KVMExtensions {
    pub cap_tsc_deadline: bool,
    pub cap_irqchip: bool,
    pub cap_adjust_clock_stable: bool,
    pub cap_irqfd: bool,
    pub cap_vapic: bool,
}

impl Default for KVMExtensions {
    fn default() -> (e: KVMExtensions)
        ensures
            e == KVMExtensions::none(),
    {
        KVMExtensions {
            cap_tsc_deadline: false,
            cap_irqchip: false,
            cap_adjust_clock_stable: false,
            cap_irqfd: false,
            cap_vapic: false,
        }
    }
}

impl KVMExtensions {
    /// No extension at all.
    pub open spec fn none() -> KVMExtensions {
        KVMExtensions {
            cap_tsc_deadline: false,
            cap_irqchip: false,
            cap_adjust_clock_stable: false,
            cap_irqfd: false,
            cap_vapic: false,
        }
    }
}

/// How one guest is to be run.
#[derive(Debug, Clone)]
pub struct IsleParameterUhyve {
    /// Number of virtual CPUs.
    pub num_cpus: u32,
    /// Guest memory in bytes.
    pub mem_size: usize,
    /// Address of the guest's network interface.
    pub ip: Option<[u8; 4]>,
    /// The guest's gateway.
    pub gateway: Option<[u8; 4]>,
    /// The guest's network mask.
    pub mask: Option<[u8; 4]>,
    /// Hardware address of the guest's network interface.
    pub mac_addr: Option<String>,
    /// Name of the host's TAP device.
    pub netif: Option<String>,
    /// Whether every checkpoint holds all pages that were ever touched.
    pub full_checkpoint: bool,
    /// Seconds between two checkpoints; zero for none.
    pub checkpoint: u32,
    /// Where to migrate to when asked.
    pub migration_support: Option<[u8; 4]>,
}

/// One guest and what the coordinator knows of it.
pub struct VirtualMachine {
    /// The guest's memory.
    pub mem: GuestMemory,
    /// Entry point of the kernel, once one is loaded or restored.
    pub elf_entry: Option<u64>,
    /// Guest-physical address of the kernel's log.
    pub klog: Option<u64>,
    /// Guest-physical address of the boot information block.
    pub mboot: Option<u64>,
    /// Ids of the virtual CPUs created so far, in the order of their ids.
    pub vcpus: Vec<u32>,
    /// Number of virtual CPUs that the machine is to have.
    pub num_cpus: u32,
    /// Flags and barrier shared with the virtual CPU threads.
    pub control: Arc<ControlData>,
    /// Extensions found by `init`.
    pub extensions: KVMExtensions,
    /// The configuration the machine was made with.
    pub additional: IsleParameterUhyve,
    /// Number of the next checkpoint.
    pub checkpoint_num: u32,
}

impl VirtualMachine {
    /// A stopped machine with `size` bytes of guest memory and no kernel.
    ///
    /// Fails with `OutOfMemory` when the host refuses the mapping, or has
    /// no room for as many threads as the machine has CPUs.
    pub fn new(size: usize, num_cpus: u32, add: IsleParameterUhyve) -> (r: Result<
        VirtualMachine,
        Error,
    >)
        ensures
            r matches Ok(vm) ==> {
                &&& vm.mem@.len() == mapped_len(size as nat)
                &&& vm.elf_entry is None
                &&& vm.klog is None
                &&& vm.mboot is None
                &&& vm.vcpus@.len() == 0
                &&& vm.num_cpus == num_cpus
                &&& barrier_size(vm.control.barrier) == participants(num_cpus)
                &&& vm.extensions == KVMExtensions::none()
                &&& vm.additional == add
                &&& vm.checkpoint_num == 0
            },
            r matches Err(e) ==> e is OutOfMemory,
            size == 0 || mapped_len(size as nat) > usize::MAX || num_cpus >= usize::MAX ==> r
                is Err,
    {
        if num_cpus as u64 >= usize::MAX as u64 {
            return Err(Error::OutOfMemory);
        }
        let mem = match GuestMemory::new(size) {
            Ok(mem) => mem,
            Err(e) => {
                return Err(e);
            },
        };
        let control = ControlData::new(num_cpus);
        Ok(
            VirtualMachine {
                mem,
                elf_entry: None,
                klog: None,
                mboot: None,
                vcpus: Vec::new(),
                num_cpus,
                control: Arc::new(control),
                extensions: KVMExtensions::default(),
                additional: add,
                checkpoint_num: 0,
            },
        )
    }

    /// Whether the virtual CPU threads are meant to run.
    pub fn is_running(&mut self) -> (r: Result<bool, Error>)
        ensures
            r is Ok,
            *final(self) == *old(self),
    {
        Ok(self.control.is_running())
    }

    /// Length of the guest's memory mapping in bytes.
    pub fn mem_size(&self) -> (n: usize)
        ensures
            n == self.mem@.len(),
    {
        self.mem.size()
    }
}

} // verus!
