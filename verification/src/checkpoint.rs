//! Checkpoints: their description, the names of their files, and the stream
//! of page records that holds the guest's memory.

use vstd::prelude::*;
use vstd::array::array_as_slice;
use vstd::bytes::spec_u64_to_le_bytes;
use vstd::slice::slice_subrange;
use vstd::string::StringExecFns;
use crate::codec;
use crate::error::Error;
use crate::layout::{
    PAGE_2M_MASK, PAGE_2M_SIZE, PAGE_MAP_SIZE, PAGE_MASK, PAGE_SIZE, PG_PSE,
};
use crate::loader::{is_invalid_file, klog_of, KLOG_OFFSET};
use crate::mem::{backed, patched, word_at, GuestMemory};
use crate::scan::{page_addr, page_len, scan_mode, scan_state, table_scanned, LEVEL_PML4};
use crate::vm::VirtualMachine;

verus! {

/// Length of the clock record at the start of a memory file.
pub const CLOCK_LEN: usize = 8;

/// The guest's clock.
#[derive(Debug, Clone, Copy, PartialEq, Eq, Structural)]
pub struct ClockData {
    /// Nanoseconds the guest has seen pass.
    pub clock: u64,
}

/// The clock record: the clock, lowest byte first.
pub open spec fn clock_bytes(clock: ClockData) -> Seq<u8> {
    spec_u64_to_le_bytes(clock.clock)
}

impl ClockData {
    /// The clock record of this clock.
    pub fn to_bytes(&self) -> (bytes: [u8; 8])
        ensures
            bytes@ == clock_bytes(*self),
    {
        codec::u64_bytes(self.clock)
    }

    /// The clock that a clock record holds, or `None` where `bytes` has not
    /// the length of one.
    pub fn from_bytes(bytes: &[u8]) -> (r: Option<ClockData>)
        ensures
            r == if bytes@.len() == CLOCK_LEN {
                Some(file_clock(bytes@))
            } else {
                None
            },
    {
        if bytes.len() != CLOCK_LEN {
            return None;
        }
        assert(bytes@.subrange(0, 8) == bytes@);
        Some(ClockData { clock: codec::read_u64(bytes) })
    }
}

/// A clock record holds the clock it was written for.
pub proof fn lemma_clock_round_trip(clock: ClockData)
    ensures
        clock_bytes(clock).len() == CLOCK_LEN,
        file_clock(clock_bytes(clock)) == clock,
{
    vstd::bytes::lemma_auto_spec_u64_to_from_le_bytes();
    assert(clock_bytes(clock).subrange(0, 8) == clock_bytes(clock));
}

/// What a checkpoint, or a migration, says of the machine it was taken from.
#[derive(Debug, Clone, Copy, PartialEq, Eq, Structural)]
pub struct CheckpointConfig {
    pub num_cpus: u32,
    pub mem_size: u64,
    pub checkpoint_number: u32,
    pub elf_entry: u64,
    pub full: bool,
}

/// The character of a decimal digit.
pub open spec fn digit(d: nat) -> char {
    if d == 0 {
        '0'
    } else if d == 1 {
        '1'
    } else if d == 2 {
        '2'
    } else if d == 3 {
        '3'
    } else if d == 4 {
        '4'
    } else if d == 5 {
        '5'
    } else if d == 6 {
        '6'
    } else if d == 7 {
        '7'
    } else if d == 8 {
        '8'
    } else {
        '9'
    }
}

/// The decimal digits of `n`, without leading zeros.
pub open spec fn decimal(n: nat) -> Seq<char>
    decreases n,
{
    if n < 10 {
        seq![digit(n)]
    } else {
        decimal(n / 10).push(digit(n % 10))
    }
}

/// The name of the file that holds the memory of checkpoint `number`.
pub open spec fn mem_file_name(number: u32) -> Seq<char> {
    "checkpoint/mem"@ + decimal(number as nat)
}

/// The number of the first checkpoint that restoring `chk` needs: its own
/// where it is a full one, else the first ever taken.
pub open spec fn first_needed(chk: CheckpointConfig) -> u32 {
    if chk.full {
        chk.checkpoint_number
    } else {
        0
    }
}

fn digit_str(d: u32) -> (s: &'static str)
    requires
        d < 10,
    ensures
        s@ == seq![digit(d as nat)],
{
    proof {
        reveal_strlit("0");
        reveal_strlit("1");
        reveal_strlit("2");
        reveal_strlit("3");
        reveal_strlit("4");
        reveal_strlit("5");
        reveal_strlit("6");
        reveal_strlit("7");
        reveal_strlit("8");
        reveal_strlit("9");
    }
    let s = if d == 0 {
        "0"
    } else if d == 1 {
        "1"
    } else if d == 2 {
        "2"
    } else if d == 3 {
        "3"
    } else if d == 4 {
        "4"
    } else if d == 5 {
        "5"
    } else if d == 6 {
        "6"
    } else if d == 7 {
        "7"
    } else if d == 8 {
        "8"
    } else {
        "9"
    };
    assert(s@ =~= seq![digit(d as nat)]);
    s
}

fn append_decimal(s: &mut String, n: u32)
    ensures
        final(s)@ == old(s)@ + decimal(n as nat),
    decreases n,
{
    if n >= 10 {
        append_decimal(s, n / 10);
    }
    s.append(digit_str(n % 10));
    assert(s@ =~= old(s)@ + decimal(n as nat));
}

impl CheckpointConfig {
    /// The name of the file that holds the memory of checkpoint `number`.
    pub fn get_mem_file_path(number: u32) -> (path: String)
        ensures
            path@ == mem_file_name(number),
    {
        let mut path = String::from_str("checkpoint/mem");
        append_decimal(&mut path, number);
        path
    }

    /// The number of the first checkpoint whose memory file is read to
    /// restore this one. The files are read from that one up to this
    /// checkpoint's own.
    pub fn first_needed(&self) -> (first: u32)
        ensures
            first == first_needed(*self),
    {
        if self.full {
            self.checkpoint_number
        } else {
            0
        }
    }
}

/// Where restoring a stream of page records stands: guest memory with the
/// records applied so far, and whether all of them could be applied.
pub struct RestoreState {
    pub mem: Seq<u8>,
    pub ok: bool,
}

/// A restore that has left guest memory as `mem`.
pub open spec fn restore_state(mem: Seq<u8>, ok: bool) -> RestoreState {
    RestoreState { mem, ok }
}

/// Whether bit 7 of a recorded entry marks a 2 MiB page.
pub open spec fn is_large(entry: u64) -> bool {
    entry & PG_PSE == PG_PSE
}

/// Guest memory after the page records in `stream` from `pos` on were
/// applied in order. Each record is an entry, lowest byte first, and the
/// bytes of its page, which go to the address in the entry. Fewer than eight
/// bytes end the stream. Restoring stops at a record whose page is cut short
/// or has no backed memory to go to.
pub open spec fn pages_restored(mem: Seq<u8>, stream: Seq<u8>, pos: int) -> RestoreState
    decreases stream.len() - pos,
{
    if pos < 0 || stream.len() - pos < 8 {
        restore_state(mem, true)
    } else {
        let entry = word_at(stream, pos);
        let addr = page_addr(entry, is_large(entry)) as int;
        let len = page_len(is_large(entry)) as int;
        if stream.len() - (pos + 8) < len || !backed(mem.len(), addr, len) {
            restore_state(mem, false)
        } else {
            pages_restored(
                patched(mem, addr, stream.subrange(pos + 8, pos + 8 + len)),
                stream,
                pos + 8 + len,
            )
        }
    }
}

/// Guest memory after a memory file was applied: a clock record, then page
/// records. A file too short for the clock record is refused.
pub open spec fn file_restored(mem: Seq<u8>, stream: Seq<u8>) -> RestoreState {
    if stream.len() < CLOCK_LEN {
        restore_state(mem, false)
    } else {
        pages_restored(mem, stream, CLOCK_LEN as int)
    }
}

/// The clock at the start of a memory file.
pub open spec fn file_clock(stream: Seq<u8>) -> ClockData {
    ClockData { clock: word_at(stream, 0) }
}

/// Applies the page records of a memory file to guest memory.
pub fn restore_file(mem: &mut GuestMemory, stream: &[u8]) -> (ok: bool)
    ensures
        restore_state(final(mem)@, ok) == file_restored(old(mem)@, stream@),
        final(mem)@.len() == old(mem)@.len(),
{
    let total: usize = stream.len();
    if total < CLOCK_LEN {
        return false;
    }
    let mut pos: usize = CLOCK_LEN;
    while total - pos >= 8
        invariant
            CLOCK_LEN <= pos <= total,
            total == stream@.len(),
            mem@.len() == old(mem)@.len(),
            pages_restored(mem@, stream@, pos as int) == file_restored(old(mem)@, stream@),
        decreases total - pos,
    {
        let head = slice_subrange(stream, pos, pos + 8);
        assert(head@.subrange(0, 8) == head@);
        let entry = codec::read_u64(head);
        let large = (entry & PG_PSE) == PG_PSE;
        let addr: u64 = if large {
            entry & PAGE_2M_MASK
        } else {
            entry & PAGE_MASK
        };
        let len: u64 = if large {
            PAGE_2M_SIZE
        } else {
            PAGE_SIZE
        };
        if ((total - (pos + 8)) as u64) < len || !mem.is_backed(addr, len) {
            return false;
        }
        let from: usize = pos + 8;
        let to: usize = from + len as usize;
        mem.write_bytes(addr, slice_subrange(stream, from, to));
        pos = to;
    }
    true
}

/// Guest memory after the first `upto` memory files of `streams` were
/// applied in order. Restoring stops at a file that is missing or cannot be
/// applied as a whole.
pub open spec fn files_restored(mem: Seq<u8>, streams: Seq<&[u8]>, upto: nat) -> RestoreState
    decreases upto,
{
    if upto == 0 {
        restore_state(mem, true)
    } else {
        let before = files_restored(mem, streams, (upto - 1) as nat);
        if !before.ok || upto > streams.len() {
            restore_state(before.mem, false)
        } else {
            file_restored(before.mem, streams[upto - 1]@)
        }
    }
}

/// The index of the file among the first `upto` at which restoring stopped,
/// or `upto` where it did not stop.
pub open spec fn stopped_at(mem: Seq<u8>, streams: Seq<&[u8]>, upto: nat) -> nat
    decreases upto,
{
    if upto == 0 {
        0
    } else if !files_restored(mem, streams, (upto - 1) as nat).ok {
        stopped_at(mem, streams, (upto - 1) as nat)
    } else if files_restored(mem, streams, upto).ok {
        upto
    } else {
        (upto - 1) as nat
    }
}

/// The number of memory files that restoring `chk` reads.
pub open spec fn files_needed(chk: CheckpointConfig) -> nat {
    (chk.checkpoint_number - first_needed(chk) + 1) as nat
}

/// A restore that has stopped stays as it is, whatever files follow.
proof fn lemma_restore_stops(mem: Seq<u8>, streams: Seq<&[u8]>, upto: nat, all: nat)
    requires
        upto <= all,
        !files_restored(mem, streams, upto).ok,
    ensures
        files_restored(mem, streams, all) == files_restored(mem, streams, upto),
        stopped_at(mem, streams, all) == stopped_at(mem, streams, upto),
    decreases all - upto,
{
    if upto < all {
        lemma_restore_stops(mem, streams, upto, (all - 1) as nat);
    }
}

/// Whether `after` is `before` with the checkpoint `chk` restored from the
/// memory files `streams`, as far as that went.
pub open spec fn checkpoint_loaded(
    before: VirtualMachine,
    after: VirtualMachine,
    chk: CheckpointConfig,
    streams: Seq<&[u8]>,
) -> bool {
    let done = files_restored(before.mem@, streams, files_needed(chk));
    &&& after.mem@ == done.mem
    &&& after.elf_entry == Some(chk.elf_entry)
    &&& after.mboot == Some(chk.elf_entry)
    &&& after.klog == klog_of(Some(chk.elf_entry))
    &&& after.checkpoint_num == if done.ok {
        (chk.checkpoint_number + 1) as u32
    } else {
        before.checkpoint_num
    }
    &&& after.vcpus == before.vcpus
    &&& after.num_cpus == before.num_cpus
    &&& after.control == before.control
    &&& after.extensions == before.extensions
    &&& after.additional == before.additional
}

/// The clock that restoring `chk` from `streams` makes the guest's: that of
/// the newest memory file, where the host can set a stable clock.
pub open spec fn clock_restored(stable: bool, chk: CheckpointConfig, streams: Seq<&[u8]>) -> Option<
    ClockData,
> {
    if stable {
        Some(file_clock(streams[files_needed(chk) - 1]@))
    } else {
        None
    }
}

/// What a checkpoint of the machine `vm`, whose kernel starts at `entry`,
/// says of it.
pub open spec fn description(vm: VirtualMachine, entry: u64) -> CheckpointConfig {
    CheckpointConfig {
        num_cpus: vm.num_cpus,
        mem_size: vm.mem@.len() as u64,
        checkpoint_number: vm.checkpoint_num,
        elf_entry: entry,
        full: vm.additional.full_checkpoint,
    }
}

impl VirtualMachine {
    /// What a checkpoint taken now says of this machine.
    ///
    /// Fails with `KernelNotLoaded` where no entry point is known.
    pub fn get_checkpoint_config(&self) -> (r: Result<CheckpointConfig, Error>)
        ensures
            match self.elf_entry {
                Some(entry) => r matches Ok(c) && c == description(*self, entry),
                None => r matches Err(e) && e is KernelNotLoaded,
            },
    {
        match self.elf_entry {
            Some(entry) => Ok(
                CheckpointConfig {
                    num_cpus: self.num_cpus,
                    mem_size: self.mem.size() as u64,
                    checkpoint_number: self.checkpoint_num,
                    elf_entry: entry,
                    full: self.additional.full_checkpoint,
                },
            ),
            None => Err(Error::KernelNotLoaded),
        }
    }

    /// Writes the memory file of the next checkpoint to `out`: the clock
    /// record, then the records of the pages that `scan_page_tables` picks.
    /// Returns what the checkpoint says of the machine. The checkpoint
    /// counts once `checkpoint_written` is called.
    ///
    /// Fails with `KernelNotLoaded` where no entry point is known and with
    /// `WriteCheckpoint` where no number is left for a checkpoint after this
    /// one; either way nothing is changed. Fails with `WriteCheckpoint` also
    /// where the scan stops, with what was done up to there left in place.
    pub fn create_checkpoint(&mut self, clock: &ClockData, out: &mut Vec<u8>) -> (r: Result<
        CheckpointConfig,
        Error,
    >)
        ensures
            match old(self).elf_entry {
                Some(entry) => if old(self).checkpoint_num < u32::MAX {
                    let scanned = table_scanned(
                        scan_state(old(self).mem@, old(out)@ + clock_bytes(*clock), true),
                        LEVEL_PML4 as nat,
                        entry + PAGE_SIZE,
                        PAGE_MAP_SIZE as nat,
                        scan_mode(old(self).additional.full_checkpoint, old(self).checkpoint_num),
                    );
                    &&& final(self).mem@ == scanned.mem
                    &&& final(out)@ == scanned.out
                    &&& r is Ok <==> scanned.ok
                    &&& r matches Ok(c) ==> c == description(*old(self), entry)
                    &&& r matches Err(e) ==> e is WriteCheckpoint
                } else {
                    &&& r matches Err(e) && e is WriteCheckpoint
                    &&& final(self).mem@ == old(self).mem@
                    &&& final(out)@ == old(out)@
                },
                None => {
                    &&& r matches Err(e) && e is KernelNotLoaded
                    &&& final(self).mem@ == old(self).mem@
                    &&& final(out)@ == old(out)@
                },
            },
            final(self).same_but_memory(*old(self)),
    {
        let config = match self.get_checkpoint_config() {
            Ok(config) => config,
            Err(e) => {
                return Err(e);
            },
        };
        if self.checkpoint_num == u32::MAX {
            return Err(Error::WriteCheckpoint);
        }
        let bytes = clock.to_bytes();
        out.extend_from_slice(array_as_slice(&bytes));
        assert(out@ == old(out)@ + clock_bytes(*clock));
        match self.scan_page_tables(out) {
            Ok(()) => Ok(config),
            Err(e) => Err(e),
        }
    }

    /// Counts the checkpoint that `create_checkpoint` prepared as taken.
    pub fn checkpoint_written(&mut self)
        ensures
            final(self).checkpoint_num == if old(self).checkpoint_num < u32::MAX {
                (old(self).checkpoint_num + 1) as u32
            } else {
                old(self).checkpoint_num
            },
            final(self).mem == old(self).mem,
            final(self).same_but_counter(*old(self)),
    {
        if self.checkpoint_num < u32::MAX {
            self.checkpoint_num = self.checkpoint_num + 1;
        }
    }

    /// Whether `other` differs from this machine in the number of its next
    /// checkpoint and in its memory at most.
    pub open spec fn same_but_counter(self, other: VirtualMachine) -> bool {
        &&& self.elf_entry == other.elf_entry
        &&& self.klog == other.klog
        &&& self.mboot == other.mboot
        &&& self.vcpus == other.vcpus
        &&& self.num_cpus == other.num_cpus
        &&& self.control == other.control
        &&& self.extensions == other.extensions
        &&& self.additional == other.additional
    }

    /// Restores the checkpoint `chk` from its memory files. `streams` holds
    /// the contents of the files from `chk.first_needed()` on, in order, as
    /// far as they could be read.
    ///
    /// The files are applied in order. On success the next checkpoint gets
    /// the number after that of `chk`, and the clock to be set for the guest
    /// is returned, where the host can set one. Fails with `InvalidFile` and
    /// the name of the first file that is missing or cannot be applied; what
    /// was restored up to there stays. Fails with `ReadCheckpoint`, and
    /// changes nothing, where no number follows that of `chk`.
    pub fn load_checkpoint(&mut self, chk: &CheckpointConfig, streams: &[&[u8]]) -> (r: Result<
        Option<ClockData>,
        Error,
    >)
        ensures
            chk.checkpoint_number == u32::MAX ==> *final(self) == *old(self) && (r matches Err(e)
                && e is ReadCheckpoint),
            chk.checkpoint_number < u32::MAX ==> {
                let done = files_restored(old(self).mem@, streams@, files_needed(*chk));
                &&& checkpoint_loaded(*old(self), *final(self), *chk, streams@)
                &&& r is Ok <==> done.ok
                &&& r matches Ok(clock) ==> clock == clock_restored(
                    old(self).extensions.cap_adjust_clock_stable,
                    *chk,
                    streams@,
                )
                &&& r matches Err(e) ==> is_invalid_file(
                    e,
                    mem_file_name(
                        (first_needed(*chk) + stopped_at(
                            old(self).mem@,
                            streams@,
                            files_needed(*chk),
                        )) as u32,
                    ),
                )
            },
    {
        if chk.checkpoint_number == u32::MAX {
            return Err(Error::ReadCheckpoint);
        }
        self.klog = chk.elf_entry.checked_add(KLOG_OFFSET);
        self.mboot = Some(chk.elf_entry);
        self.elf_entry = Some(chk.elf_entry);

        let first: u32 = chk.first_needed();
        let count: u64 = (chk.checkpoint_number - first) as u64 + 1;
        let given: u64 = streams.len() as u64;
        let ghost start = old(self).mem@;
        let mut clock: Option<ClockData> = None;
        let mut k: u64 = 0;
        while k < count
            invariant
                k <= count,
                chk.checkpoint_number < u32::MAX,
                count == files_needed(*chk),
                count <= u32::MAX,
                first == first_needed(*chk),
                first + count - 1 == chk.checkpoint_number,
                given == streams@.len(),
                start == old(self).mem@,
                restore_state(self.mem@, true) == files_restored(start, streams@, k as nat),
                stopped_at(start, streams@, k as nat) == k,
                k > 0 ==> k <= given && clock == Some(file_clock(streams@[k - 1]@)),
                self.elf_entry == Some(chk.elf_entry),
                self.mboot == Some(chk.elf_entry),
                self.klog == klog_of(Some(chk.elf_entry)),
                self.checkpoint_num == old(self).checkpoint_num,
                self.vcpus == old(self).vcpus,
                self.num_cpus == old(self).num_cpus,
                self.control == old(self).control,
                self.extensions == old(self).extensions,
                self.additional == old(self).additional,
            decreases count - k,
        {
            let applied = if k < given {
                let stream = streams[k as usize];
                if stream.len() >= CLOCK_LEN {
                    let head = slice_subrange(stream, 0, CLOCK_LEN);
                    assert(head@.subrange(0, 8) == stream@.subrange(0, 8));
                    clock = ClockData::from_bytes(head);
                }
                restore_file(&mut self.mem, stream)
            } else {
                false
            };
            if !applied {
                proof {
                    lemma_restore_stops(start, streams@, (k + 1) as nat, count as nat);
                }
                return Err(Error::InvalidFile(CheckpointConfig::get_mem_file_path(first + k as u32)));
            }
            k = k + 1;
        }
        self.checkpoint_num = chk.checkpoint_number + 1;
        if self.extensions.cap_adjust_clock_stable {
            Ok(clock)
        } else {
            Ok(None)
        }
    }
}

} // verus!
