//! Walking the guest's page tables for the pages that a checkpoint holds.

use vstd::prelude::*;
use vstd::array::array_as_slice;
use vstd::bytes::spec_u64_to_le_bytes;
use crate::codec;
use crate::error::Error;
use crate::layout::{
    PAGE_2M_MASK, PAGE_2M_SIZE, PAGE_MAP_SIZE, PAGE_MASK, PAGE_SIZE, PG_ACCESSED, PG_DIRTY,
    PG_PRESENT, PG_PSE,
};
use crate::mem::{backed, lemma_backed_within, patched, word_at, GuestMemory};
use crate::vm::VirtualMachine;

verus! {

/// Which pages a scan picks, and whether it resets what it picked them by.
#[derive(Debug, Clone, Copy, PartialEq, Eq, Structural)]
pub struct ScanMode {
    /// The bit that a present page must have to be picked.
    pub flag: u64,
    /// Whether the accessed and dirty bits of a picked page are cleared.
    pub clear: bool,
}

/// The mode of the scan for checkpoint number `checkpoint_num`: after the
/// first checkpoint an incremental one picks the pages written since, any
/// other the pages ever touched; only incremental ones clear the bits.
pub open spec fn scan_mode(full_checkpoint: bool, checkpoint_num: u32) -> ScanMode {
    ScanMode {
        flag: if !full_checkpoint && checkpoint_num > 0 {
            PG_DIRTY
        } else {
            PG_ACCESSED
        },
        clear: !full_checkpoint,
    }
}

/// Where a scan stands: guest memory as the scan has left it so far, the
/// records it has written, and whether it is still running. A scan stops at
/// the first table or page that is not backed by guest memory.
pub struct ScanState {
    pub mem: Seq<u8>,
    pub out: Seq<u8>,
    pub ok: bool,
}

/// The state of a scan that has left guest memory as `mem` and written
/// `out`.
pub open spec fn scan_state(mem: Seq<u8>, out: Seq<u8>, ok: bool) -> ScanState {
    ScanState { mem, out, ok }
}

/// Index of the page tables, the lowest level.
pub const LEVEL_PT: u8 = 0;

/// Index of the page directories, whose entries may map 2 MiB pages.
pub const LEVEL_PD: u8 = 1;

/// Index of the PML4, the highest level.
pub const LEVEL_PML4: u8 = 3;

/// The entry as it is left in its table once its page was picked.
pub open spec fn entry_kept(entry: u64, mode: ScanMode) -> u64 {
    if mode.clear {
        entry & !(PG_DIRTY | PG_ACCESSED)
    } else {
        entry
    }
}

/// The entry as it stands in the record of its page: bit 7 is set for a
/// 2 MiB page and clear for a 4 KiB page.
pub open spec fn entry_recorded(entry: u64, large: bool, mode: ScanMode) -> u64 {
    if large {
        entry_kept(entry, mode)
    } else {
        entry_kept(entry, mode) & !PG_PSE
    }
}

/// Guest-physical address of the page that a leaf entry maps.
pub open spec fn page_addr(entry: u64, large: bool) -> u64 {
    if large {
        entry & PAGE_2M_MASK
    } else {
        entry & PAGE_MASK
    }
}

/// Size of the page that a leaf entry maps.
pub open spec fn page_len(large: bool) -> u64 {
    if large {
        PAGE_2M_SIZE
    } else {
        PAGE_SIZE
    }
}

/// The scan after the page of the leaf entry `entry`, which is stored at
/// `at`, was picked: the entry is updated in place, then the record of the
/// page is written, which is the entry followed by the bytes of the page as
/// they are then.
pub open spec fn page_emitted(st: ScanState, at: int, entry: u64, large: bool, mode: ScanMode)
    -> ScanState {
    let addr = page_addr(entry, large) as int;
    let len = page_len(large) as int;
    if !backed(st.mem.len(), addr, len) {
        ScanState { ok: false, ..st }
    } else {
        let mem = if mode.clear {
            patched(st.mem, at, spec_u64_to_le_bytes(entry_kept(entry, mode)))
        } else {
            st.mem
        };
        ScanState {
            mem,
            out: st.out + spec_u64_to_le_bytes(entry_recorded(entry, large, mode)) + mem.subrange(
                addr,
                addr + len,
            ),
            ok: true,
        }
    }
}

/// The scan after the entry stored at `at` in a table of level `level` was
/// visited, and all that it leads to.
pub open spec fn entry_scanned(st: ScanState, level: nat, at: int, mode: ScanMode) -> ScanState
    decreases level, 0nat, 0nat,
{
    let entry = word_at(st.mem, at);
    if !st.ok {
        st
    } else if level == LEVEL_PT {
        if entry & (PG_PRESENT | mode.flag) == (PG_PRESENT | mode.flag) {
            page_emitted(st, at, entry, false, mode)
        } else {
            st
        }
    } else if entry & PG_PRESENT != PG_PRESENT {
        st
    } else if level == LEVEL_PD && entry & PG_PSE == PG_PSE {
        if entry & mode.flag == mode.flag {
            page_emitted(st, at, entry, true, mode)
        } else {
            st
        }
    } else {
        table_scanned(
            st,
            (level - 1) as nat,
            (entry & PAGE_MASK) as int,
            PAGE_MAP_SIZE as nat,
            mode,
        )
    }
}

/// The scan after the first `upto` entries of the table of level `level` at
/// guest-physical address `table` were visited in order.
pub open spec fn table_scanned(st: ScanState, level: nat, table: int, upto: nat, mode: ScanMode)
    -> ScanState
    decreases level, 1nat, upto,
{
    if !st.ok {
        st
    } else if !backed(st.mem.len(), table, PAGE_SIZE as int) {
        ScanState { ok: false, ..st }
    } else if upto == 0 {
        st
    } else {
        entry_scanned(
            table_scanned(st, level, table, (upto - 1) as nat, mode),
            level,
            table + 8 * (upto - 1),
            mode,
        )
    }
}

/// A scan that has stopped in a table stays as it is for the rest of the
/// table.
proof fn lemma_scan_stops(
    st: ScanState,
    level: nat,
    table: int,
    upto: nat,
    all: nat,
    mode: ScanMode,
)
    requires
        upto <= all,
        !table_scanned(st, level, table, upto, mode).ok,
    ensures
        table_scanned(st, level, table, all, mode) == table_scanned(st, level, table, upto, mode),
    decreases all - upto,
{
    if upto < all {
        lemma_scan_stops(st, level, table, upto, (all - 1) as nat, mode);
        let before = table_scanned(st, level, table, (all - 1) as nat, mode);
        assert(!before.ok);
        if st.ok && backed(st.mem.len(), table, PAGE_SIZE as int) {
            assert(table_scanned(st, level, table, all, mode) == entry_scanned(
                before,
                level,
                table + 8 * (all - 1),
                mode,
            ));
            assert(entry_scanned(before, level, table + 8 * (all - 1), mode) == before);
        }
    }
}

/// Picks the page of a leaf entry.
fn emit_page(mem: &mut GuestMemory, out: &mut Vec<u8>, at: u64, entry: u64, large: bool, mode: &ScanMode)
    -> (ok: bool)
    requires
        backed(old(mem)@.len(), at as int, 8),
    ensures
        scan_state(final(mem)@, final(out)@, ok) == page_emitted(
            scan_state(old(mem)@, old(out)@, true),
            at as int,
            entry,
            large,
            *mode,
        ),
        final(mem)@.len() == old(mem)@.len(),
{
    let ghost start = scan_state(mem@, out@, true);
    let ghost end = page_emitted(start, at as int, entry, large, *mode);
    let addr: u64 = if large {
        entry & PAGE_2M_MASK
    } else {
        entry & PAGE_MASK
    };
    let len: u64 = if large {
        PAGE_2M_SIZE
    } else {
        PAGE_SIZE
    };
    if !mem.is_backed(addr, len) {
        return false;
    }
    let kept: u64 = if mode.clear {
        entry & !(PG_DIRTY | PG_ACCESSED)
    } else {
        entry
    };
    if mode.clear {
        mem.write_u64(at, kept);
    }
    let recorded: u64 = if large {
        kept
    } else {
        kept & !PG_PSE
    };
    let bytes = codec::u64_bytes(recorded);
    out.extend_from_slice(array_as_slice(&bytes));
    mem.read_into(addr, len, out);
    assert(mem@ == end.mem);
    assert(out@ == end.out);
    true
}

/// Visits every entry of the table of level `level` at `table`, and all that
/// they lead to.
fn scan_table(mem: &mut GuestMemory, out: &mut Vec<u8>, level: u8, table: u64, mode: &ScanMode)
    -> (ok: bool)
    requires
        level <= LEVEL_PML4,
    ensures
        scan_state(final(mem)@, final(out)@, ok) == table_scanned(
            scan_state(old(mem)@, old(out)@, true),
            level as nat,
            table as int,
            PAGE_MAP_SIZE as nat,
            *mode,
        ),
        final(mem)@.len() == old(mem)@.len(),
    decreases level,
{
    let ghost start = scan_state(mem@, out@, true);
    if !mem.is_backed(table, PAGE_SIZE) {
        return false;
    }
    let mut i: u64 = 0;
    while i < PAGE_MAP_SIZE
        invariant
            i <= PAGE_MAP_SIZE,
            level <= LEVEL_PML4,
            start == scan_state(old(mem)@, old(out)@, true),
            mem@.len() == start.mem.len(),
            backed(start.mem.len(), table as int, PAGE_SIZE as int),
            scan_state(mem@, out@, true) == table_scanned(
                start,
                level as nat,
                table as int,
                i as nat,
                *mode,
            ),
        decreases PAGE_MAP_SIZE - i,
    {
        let ghost now = scan_state(mem@, out@, true);
        proof {
            lemma_backed_within(
                start.mem.len(),
                table as int,
                PAGE_SIZE as int,
                table + 8 * i,
                8,
            );
        }
        let at: u64 = table + 8 * i;
        let entry: u64 = match mem.read_u64(at) {
            Some(entry) => entry,
            None => 0,
        };
        let ok = if level == LEVEL_PT {
            if (entry & (PG_PRESENT | mode.flag)) == (PG_PRESENT | mode.flag) {
                emit_page(mem, out, at, entry, false, mode)
            } else {
                true
            }
        } else if (entry & PG_PRESENT) != PG_PRESENT {
            true
        } else if level == LEVEL_PD && (entry & PG_PSE) == PG_PSE {
            if (entry & mode.flag) == mode.flag {
                emit_page(mem, out, at, entry, true, mode)
            } else {
                true
            }
        } else {
            scan_table(mem, out, level - 1, entry & PAGE_MASK, mode)
        };
        let ghost next = entry_scanned(now, level as nat, at as int, *mode);
        assert(mem@ == next.mem && out@ == next.out && ok == next.ok);
        assert(next == table_scanned(start, level as nat, table as int, (i + 1) as nat, *mode));
        if !ok {
            proof {
                lemma_scan_stops(
                    start,
                    level as nat,
                    table as int,
                    (i + 1) as nat,
                    PAGE_MAP_SIZE as nat,
                    *mode,
                );
            }
            return false;
        }
        i = i + 1;
    }
    true
}

impl VirtualMachine {
    /// The mode of the scan for the next checkpoint.
    pub fn scan_mode(&self) -> (mode: ScanMode)
        ensures
            mode == scan_mode(self.additional.full_checkpoint, self.checkpoint_num),
    {
        ScanMode {
            flag: if !self.additional.full_checkpoint && self.checkpoint_num > 0 {
                PG_DIRTY
            } else {
                PG_ACCESSED
            },
            clear: !self.additional.full_checkpoint,
        }
    }

    /// Walks the guest's page tables, whose PML4 lies one page above the
    /// kernel's entry point, and appends to `out` one record for every page
    /// that the next checkpoint holds, in the order of the tables. An
    /// incremental checkpoint clears the accessed and dirty bits of the
    /// pages it picks.
    ///
    /// Fails with `KernelNotLoaded`, and changes nothing, where no entry
    /// point is known, and with `WriteCheckpoint` at the first table or page
    /// that guest memory does not back; what was done up to there stays.
    pub fn scan_page_tables(&mut self, out: &mut Vec<u8>) -> (r: Result<(), Error>)
        ensures
            match old(self).elf_entry {
                None => {
                    &&& r matches Err(e) && e is KernelNotLoaded
                    &&& final(self).mem@ == old(self).mem@
                    &&& final(out)@ == old(out)@
                },
                Some(entry) => {
                    let scanned = table_scanned(
                        scan_state(old(self).mem@, old(out)@, true),
                        LEVEL_PML4 as nat,
                        entry + PAGE_SIZE,
                        PAGE_MAP_SIZE as nat,
                        scan_mode(old(self).additional.full_checkpoint, old(self).checkpoint_num),
                    );
                    &&& final(self).mem@ == scanned.mem
                    &&& final(out)@ == scanned.out
                    &&& r is Ok <==> scanned.ok
                    &&& r matches Err(e) ==> e is WriteCheckpoint
                },
            },
            final(self).same_but_memory(*old(self)),
    {
        let entry = match self.elf_entry {
            Some(entry) => entry,
            None => {
                return Err(Error::KernelNotLoaded);
            },
        };
        let mode = self.scan_mode();
        if entry > u64::MAX - PAGE_SIZE {
            return Err(Error::WriteCheckpoint);
        }
        if scan_table(&mut self.mem, out, LEVEL_PML4, entry + PAGE_SIZE, &mode) {
            Ok(())
        } else {
            Err(Error::WriteCheckpoint)
        }
    }
}

} // verus!
