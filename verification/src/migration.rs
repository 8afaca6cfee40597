//! Migration: what is sent to the peer, in which order, and what the peer
//! makes of it.

use vstd::prelude::*;
use vstd::array::array_as_slice;
use vstd::bytes::{spec_u32_to_le_bytes, spec_u64_to_le_bytes};
use vstd::slice::slice_subrange;
use crate::checkpoint::{description, CheckpointConfig, ClockData, CLOCK_LEN};
use crate::codec;
use crate::error::Error;
use crate::layout::{KVM_32BIT_GAP_START, KVM_32BIT_MAX_MEM_SIZE};
use crate::loader::{klog_of, KLOG_OFFSET};
use crate::mem::{backed, dword_at, has_hole, image_of, run_of, word_at};
use crate::vm::VirtualMachine;

verus! {

/// Length of the record that describes a machine.
pub const CONFIG_LEN: usize = 40;

/// The record that describes a machine: the number of CPUs, the size of the
/// memory, the number of the checkpoint and the kernel's entry point, each
/// lowest byte first at its natural alignment, then one byte that tells a
/// full checkpoint. The bytes between and after them are zero.
pub open spec fn config_bytes(c: CheckpointConfig) -> Seq<u8> {
    spec_u32_to_le_bytes(c.num_cpus) + run_of(4, 0) + spec_u64_to_le_bytes(c.mem_size)
        + spec_u32_to_le_bytes(c.checkpoint_number) + run_of(4, 0) + spec_u64_to_le_bytes(
        c.elf_entry,
    ) + seq![
        if c.full {
            1u8
        } else {
            0u8
        },
    ] + run_of(7, 0)
}

/// The machine that a record describes. A record of another length, or one
/// whose byte for a full checkpoint is neither zero nor one, describes none.
pub open spec fn config_parsed(bytes: Seq<u8>) -> Option<CheckpointConfig> {
    if bytes.len() != CONFIG_LEN || bytes[32] > 1 {
        None
    } else {
        Some(
            CheckpointConfig {
                num_cpus: dword_at(bytes, 0),
                mem_size: word_at(bytes, 8),
                checkpoint_number: dword_at(bytes, 16),
                elf_entry: word_at(bytes, 24),
                full: bytes[32] == 1,
            },
        )
    }
}

/// A record describes the machine it was written for.
pub proof fn lemma_config_round_trip(c: CheckpointConfig)
    ensures
        config_bytes(c).len() == CONFIG_LEN,
        config_parsed(config_bytes(c)) == Some(c),
{
    vstd::bytes::lemma_auto_spec_u32_to_from_le_bytes();
    vstd::bytes::lemma_auto_spec_u64_to_from_le_bytes();
    let b = config_bytes(c);
    assert(b.len() == CONFIG_LEN);
    assert(b.subrange(0, 4) =~= spec_u32_to_le_bytes(c.num_cpus));
    assert(b.subrange(8, 16) =~= spec_u64_to_le_bytes(c.mem_size));
    assert(b.subrange(16, 20) =~= spec_u32_to_le_bytes(c.checkpoint_number));
    assert(b.subrange(24, 32) =~= spec_u64_to_le_bytes(c.elf_entry));
    assert(b[32] == if c.full {
        1u8
    } else {
        0u8
    });
}

impl CheckpointConfig {
    /// The record that describes this machine.
    pub fn to_bytes(&self) -> (bytes: Vec<u8>)
        ensures
            bytes@ == config_bytes(*self),
    {
        let zeros: [u8; 7] = [0, 0, 0, 0, 0, 0, 0];
        let full: [u8; 1] = [
            if self.full {
                1
            } else {
                0
            },
        ];
        let mut bytes: Vec<u8> = Vec::new();
        let num_cpus = codec::u32_bytes(self.num_cpus);
        let mem_size = codec::u64_bytes(self.mem_size);
        let number = codec::u32_bytes(self.checkpoint_number);
        let entry = codec::u64_bytes(self.elf_entry);
        bytes.extend_from_slice(array_as_slice(&num_cpus));
        bytes.extend_from_slice(slice_subrange(array_as_slice(&zeros), 0, 4));
        bytes.extend_from_slice(array_as_slice(&mem_size));
        bytes.extend_from_slice(array_as_slice(&number));
        bytes.extend_from_slice(slice_subrange(array_as_slice(&zeros), 0, 4));
        bytes.extend_from_slice(array_as_slice(&entry));
        bytes.extend_from_slice(array_as_slice(&full));
        bytes.extend_from_slice(array_as_slice(&zeros));
        proof {
            vstd::bytes::lemma_auto_spec_u32_to_from_le_bytes();
            vstd::bytes::lemma_auto_spec_u64_to_from_le_bytes();
            assert(bytes@ =~= config_bytes(*self));
        }
        bytes
    }

    /// The machine that a record describes, where it describes one.
    pub fn from_bytes(bytes: &[u8]) -> (r: Option<CheckpointConfig>)
        ensures
            r == config_parsed(bytes@),
    {
        if bytes.len() != CONFIG_LEN || bytes[32] > 1 {
            return None;
        }
        let num_cpus = slice_subrange(bytes, 0, 4);
        let mem_size = slice_subrange(bytes, 8, 16);
        let number = slice_subrange(bytes, 16, 20);
        let entry = slice_subrange(bytes, 24, 32);
        assert(num_cpus@.subrange(0, 4) == num_cpus@);
        assert(mem_size@.subrange(0, 8) == mem_size@);
        assert(number@.subrange(0, 4) == number@);
        assert(entry@.subrange(0, 8) == entry@);
        Some(
            CheckpointConfig {
                num_cpus: codec::read_u32(num_cpus),
                mem_size: codec::read_u64(mem_size),
                checkpoint_number: codec::read_u32(number),
                elf_entry: codec::read_u64(entry),
                full: bytes[32] == 1,
            },
        )
    }
}

/// One part of what a migration sends.
#[derive(Debug, Clone, Copy, PartialEq, Eq, Structural)]
pub enum MigrationStep {
    /// The record that describes the machine.
    Config(CheckpointConfig),
    /// The whole of the guest's memory.
    Memory,
    /// The saved state of the virtual CPU with this id.
    CpuState(u32),
    /// The guest's clock.
    Clock,
}

/// What a migration of the machine described by `meta` sends, in order: the
/// description, the memory, the state of each virtual CPU, and the clock
/// where the host has a stable one.
pub open spec fn migration_steps(meta: CheckpointConfig, vcpus: Seq<u32>, clock: bool) -> Seq<
    MigrationStep,
> {
    let states = Seq::new(vcpus.len(), |i: int| MigrationStep::CpuState(vcpus[i]));
    let head = seq![MigrationStep::Config(meta), MigrationStep::Memory] + states;
    if clock {
        head.push(MigrationStep::Clock)
    } else {
        head
    }
}

/// The description that a migration sends: that of a first checkpoint.
pub open spec fn migration_meta(vm: VirtualMachine, entry: u64) -> CheckpointConfig {
    CheckpointConfig { checkpoint_number: 0, ..description(vm, entry) }
}

/// Guest memory with a received memory image in place: every backed byte is
/// that of the image at the same address.
pub open spec fn image_stored(mem: Seq<u8>, image: Seq<u8>) -> Seq<u8> {
    Seq::new(
        mem.len(),
        |a: int|
            if backed(mem.len(), a, 1) {
                image[a]
            } else {
                mem[a]
            },
    )
}

/// Whether `after` is `before` with the kernel's addresses taken from a
/// received description.
pub open spec fn addresses_received(before: VirtualMachine, after: VirtualMachine, entry: u64)
    -> bool {
    &&& after.elf_entry == Some(entry)
    &&& after.mboot == Some(entry)
    &&& after.klog == klog_of(Some(entry))
    &&& after.vcpus == before.vcpus
    &&& after.num_cpus == before.num_cpus
    &&& after.control == before.control
    &&& after.extensions == before.extensions
    &&& after.additional == before.additional
    &&& after.checkpoint_num == before.checkpoint_num
}

impl VirtualMachine {
    /// What a migration of this machine sends, in order.
    ///
    /// Fails with `KernelNotLoaded` where no entry point is known.
    pub fn run_migration(&self) -> (r: Result<Vec<MigrationStep>, Error>)
        ensures
            match self.elf_entry {
                Some(entry) => r matches Ok(steps) && steps@ == migration_steps(
                    migration_meta(*self, entry),
                    self.vcpus@,
                    self.extensions.cap_adjust_clock_stable,
                ),
                None => r matches Err(e) && e is KernelNotLoaded,
            },
    {
        let mut meta = match self.get_checkpoint_config() {
            Ok(meta) => meta,
            Err(e) => {
                return Err(e);
            },
        };
        meta.checkpoint_number = 0;
        let mut steps: Vec<MigrationStep> = Vec::new();
        steps.push(MigrationStep::Config(meta));
        steps.push(MigrationStep::Memory);
        let ghost head = steps@;
        let mut k: usize = 0;
        while k < self.vcpus.len()
            invariant
                k <= self.vcpus@.len(),
                steps@ == head + Seq::new(k as nat, |i: int| MigrationStep::CpuState(self.vcpus@[i])),
            decreases self.vcpus@.len() - k,
        {
            steps.push(MigrationStep::CpuState(self.vcpus[k]));
            k = k + 1;
        }
        if self.extensions.cap_adjust_clock_stable {
            steps.push(MigrationStep::Clock);
        }
        Ok(steps)
    }

    /// Takes over a machine that a peer sent: `meta` is its description,
    /// `image` its memory and `clock` its clock, where one was sent.
    ///
    /// The kernel's addresses are taken from `meta`, then every backed byte
    /// of guest memory from `image`. Returns the clock to be set for the
    /// guest, where the host can set a stable one. Fails with `MigrationIO`
    /// where the image has not the size of the guest's memory, which is then
    /// left as it is, or where a clock is needed and none was sent.
    pub fn load_migration(&mut self, meta: &CheckpointConfig, image: &[u8], clock: Option<
        ClockData,
    >) -> (r: Result<Option<ClockData>, Error>)
        ensures
            addresses_received(*old(self), *final(self), meta.elf_entry),
            final(self).mem@ == if image@.len() == old(self).mem@.len() {
                image_stored(old(self).mem@, image@)
            } else {
                old(self).mem@
            },
            r is Ok <==> image@.len() == old(self).mem@.len() && (old(
                self,
            ).extensions.cap_adjust_clock_stable ==> clock is Some),
            r matches Ok(c) ==> c == if old(self).extensions.cap_adjust_clock_stable {
                clock
            } else {
                None
            },
            r matches Err(e) ==> e is MigrationIO,
    {
        self.klog = meta.elf_entry.checked_add(KLOG_OFFSET);
        self.mboot = Some(meta.elf_entry);
        self.elf_entry = Some(meta.elf_entry);

        let len: usize = self.mem.size();
        if image.len() != len {
            return Err(Error::MigrationIO);
        }
        let ghost before = self.mem@;
        if len as u64 <= KVM_32BIT_GAP_START {
            self.mem.write_bytes(0, image);
            assert(self.mem@ == image_stored(before, image@));
        } else {
            let low: usize = KVM_32BIT_GAP_START as usize;
            self.mem.write_bytes(0, slice_subrange(image, 0, low));
            if len as u64 > KVM_32BIT_MAX_MEM_SIZE {
                let high: usize = KVM_32BIT_MAX_MEM_SIZE as usize;
                self.mem.write_bytes(
                    KVM_32BIT_MAX_MEM_SIZE,
                    slice_subrange(image, high, len),
                );
            }
            assert(self.mem@ == image_stored(before, image@));
        }
        if self.extensions.cap_adjust_clock_stable {
            match clock {
                Some(c) => Ok(Some(c)),
                None => Err(Error::MigrationIO),
            }
        } else {
            Ok(None)
        }
    }
}

/// A machine that takes over the memory of another one as it went on the
/// wire has, at every backed address, the byte that the other had there;
/// where the memory has no hole, the two memories are the same.
pub proof fn lemma_image_arrives(source: Seq<u8>, dest: Seq<u8>)
    requires
        source.len() == dest.len(),
    ensures
        image_of(source).len() == source.len(),
        image_stored(dest, image_of(source)).len() == source.len(),
        forall|a: int|
            backed(source.len(), a, 1) ==> #[trigger] image_stored(dest, image_of(source))[a]
                == source[a],
        !has_hole(source.len()) ==> image_stored(dest, image_of(source)) == source,
{
    if !has_hole(source.len()) {
        assert(image_stored(dest, image_of(source)) =~= source);
    }
}

/// What a migration sends is, in this order: one description, the memory,
/// one saved state for each virtual CPU by position, and one clock where
/// the host has a stable one.
pub proof fn lemma_migration_order(meta: CheckpointConfig, vcpus: Seq<u32>, clock: bool)
    ensures
        ({
            let steps = migration_steps(meta, vcpus, clock);
            &&& steps.len() == 2 + vcpus.len() + if clock {
                1nat
            } else {
                0nat
            }
            &&& steps[0] == MigrationStep::Config(meta)
            &&& steps[1] == MigrationStep::Memory
            &&& forall|i: int|
                0 <= i < vcpus.len() ==> #[trigger] steps[2 + i] == MigrationStep::CpuState(vcpus[i])
            &&& clock ==> steps[steps.len() - 1] == MigrationStep::Clock
        }),
{
}

/// The number of bytes that one part of a migration takes on the wire, for
/// a guest with `mem_size` bytes of memory and saved CPU states of
/// `state_len` bytes each.
pub open spec fn step_len(step: MigrationStep, mem_size: u64, state_len: u64) -> nat {
    match step {
        MigrationStep::Config(_) => CONFIG_LEN as nat,
        MigrationStep::Memory => mem_size as nat,
        MigrationStep::CpuState(_) => state_len as nat,
        MigrationStep::Clock => CLOCK_LEN as nat,
    }
}

/// The number of bytes that the given parts take on the wire together.
pub open spec fn steps_len(steps: Seq<MigrationStep>, mem_size: u64, state_len: u64) -> nat
    decreases steps.len(),
{
    if steps.len() == 0 {
        0
    } else {
        steps_len(steps.drop_last(), mem_size, state_len) + step_len(
            steps.last(),
            mem_size,
            state_len,
        )
    }
}

impl MigrationStep {
    /// The number of bytes that this part of a migration takes on the wire.
    pub fn wire_len(&self, mem_size: u64, state_len: u64) -> (len: u64)
        ensures
            len == step_len(*self, mem_size, state_len),
    {
        match self {
            MigrationStep::Config(_) => CONFIG_LEN as u64,
            MigrationStep::Memory => mem_size,
            MigrationStep::CpuState(_) => state_len,
            MigrationStep::Clock => CLOCK_LEN as u64,
        }
    }
}

/// The description, the memory and the states of the first `n` virtual
/// CPUs.
spec fn steps_upto(meta: CheckpointConfig, vcpus: Seq<u32>, n: nat) -> Seq<MigrationStep> {
    seq![MigrationStep::Config(meta), MigrationStep::Memory] + Seq::new(
        n,
        |i: int| MigrationStep::CpuState(vcpus[i]),
    )
}

proof fn lemma_steps_upto_len(meta: CheckpointConfig, vcpus: Seq<u32>, n: nat, state_len: u64)
    requires
        n <= vcpus.len(),
    ensures
        steps_len(steps_upto(meta, vcpus, n), meta.mem_size, state_len) == CONFIG_LEN
            + meta.mem_size + n * state_len,
    decreases n,
{
    let steps = steps_upto(meta, vcpus, n);
    if n == 0 {
        reveal_with_fuel(steps_len, 3);
        let one = seq![MigrationStep::Config(meta)];
        assert(steps.drop_last() == one);
        assert(one.drop_last() == Seq::<MigrationStep>::empty());
        assert(steps_len(one, meta.mem_size, state_len) == CONFIG_LEN);
    } else {
        lemma_steps_upto_len(meta, vcpus, (n - 1) as nat, state_len);
        assert(steps.drop_last() == steps_upto(meta, vcpus, (n - 1) as nat));
        assert((n - 1) * state_len + state_len == n * state_len) by (nonlinear_arith);
    }
}

/// A migration sends one description, the whole memory, one saved state for
/// each virtual CPU and, where the host has a stable clock, the clock: so
/// many bytes and no more.
pub proof fn lemma_migration_len(
    meta: CheckpointConfig,
    vcpus: Seq<u32>,
    clock: bool,
    state_len: u64,
)
    ensures
        steps_len(migration_steps(meta, vcpus, clock), meta.mem_size, state_len) == CONFIG_LEN
            + meta.mem_size + vcpus.len() * state_len + if clock {
            CLOCK_LEN as nat
        } else {
            0nat
        },
{
    lemma_steps_upto_len(meta, vcpus, vcpus.len(), state_len);
    let head = steps_upto(meta, vcpus, vcpus.len());
    if clock {
        assert(migration_steps(meta, vcpus, clock).drop_last() == head);
    } else {
        assert(migration_steps(meta, vcpus, clock) == head);
    }
}

} // verus!
