//! What restoring a checkpoint gives back of the memory it was taken from.

use vstd::prelude::*;
use vstd::bytes::spec_u64_to_le_bytes;
use crate::checkpoint::{
    clock_bytes, file_clock, file_restored, files_restored, is_large, pages_restored, ClockData,
    CLOCK_LEN,
};
use crate::layout::{PAGE_MAP_SIZE, PAGE_MASK, PAGE_SIZE, PG_PRESENT, PG_PSE};
use crate::mem::{backed, lemma_patched_keeps, patched, word_at};
use crate::scan::{
    entry_kept, entry_recorded, entry_scanned, page_addr, page_emitted, page_len, scan_state,
    table_scanned, ScanMode, ScanState, LEVEL_PD, LEVEL_PML4, LEVEL_PT,
};

verus! {

/// Whether the bytes of `stream` from `pos` on are whole page records for a
/// guest with `len` bytes of memory: each has its page and the page has
/// backed memory to go to. Where `source` is given, each record also holds
/// the bytes that `source` has at the address of its page.
pub open spec fn holds_pages(stream: Seq<u8>, pos: int, len: nat, source: Option<Seq<u8>>) -> bool
    decreases stream.len() - pos,
{
    if pos >= stream.len() {
        pos == stream.len()
    } else {
        let entry = word_at(stream, pos);
        let addr = page_addr(entry, is_large(entry)) as int;
        let size = page_len(is_large(entry)) as int;
        &&& 0 <= pos
        &&& pos + 8 + size <= stream.len()
        &&& backed(len, addr, size)
        &&& source matches Some(m) ==> stream.subrange(pos + 8, pos + 8 + size) == m.subrange(
            addr,
            addr + size,
        )
        &&& holds_pages(stream, pos + 8 + size, len, source)
    }
}

/// Whether the address `a` lies in the page of a record of `stream` from
/// `pos` on.
pub open spec fn covered(stream: Seq<u8>, pos: int, a: int) -> bool
    decreases stream.len() - pos,
{
    if pos < 0 || stream.len() - pos < 8 {
        false
    } else {
        let entry = word_at(stream, pos);
        let addr = page_addr(entry, is_large(entry)) as int;
        let size = page_len(is_large(entry)) as int;
        if stream.len() - (pos + 8) < size {
            false
        } else {
            addr <= a < addr + size || covered(stream, pos + 8 + size, a)
        }
    }
}

/// The memory that the records of a scan are held against: the memory that
/// was scanned, unless the scan changes it as it goes.
pub open spec fn source_of(mem: Seq<u8>, mode: ScanMode) -> Option<Seq<u8>> {
    if mode.clear {
        None
    } else {
        Some(mem)
    }
}

/// Restoring whole page records succeeds. It leaves every byte that no
/// record covers as it was, and sets every byte that a record covers to
/// what the source of the records has there.
pub proof fn lemma_pages_restore(
    dest: Seq<u8>,
    stream: Seq<u8>,
    pos: int,
    source: Option<Seq<u8>>,
)
    requires
        0 <= pos,
        holds_pages(stream, pos, dest.len(), source),
        source matches Some(m) ==> m.len() == dest.len(),
    ensures
        pages_restored(dest, stream, pos).ok,
        pages_restored(dest, stream, pos).mem.len() == dest.len(),
        forall|a: int|
            0 <= a < dest.len() && !covered(stream, pos, a) ==> #[trigger] pages_restored(
                dest,
                stream,
                pos,
            ).mem[a] == dest[a],
        source matches Some(m) ==> forall|a: int|
            0 <= a < dest.len() && covered(stream, pos, a) ==> #[trigger] pages_restored(
                dest,
                stream,
                pos,
            ).mem[a] == m[a],
    decreases stream.len() - pos,
{
    if pos < stream.len() {
        let entry = word_at(stream, pos);
        let addr = page_addr(entry, is_large(entry)) as int;
        let size = page_len(is_large(entry)) as int;
        let data = stream.subrange(pos + 8, pos + 8 + size);
        let next = patched(dest, addr, data);
        lemma_pages_restore(next, stream, pos + 8 + size, source);
        let end = pages_restored(dest, stream, pos);
        assert(end == pages_restored(next, stream, pos + 8 + size));
        assert forall|a: int| 0 <= a < dest.len() && !covered(stream, pos, a) implies end.mem[a]
            == dest[a] by {
            assert(!covered(stream, pos + 8 + size, a));
            assert(next[a] == dest[a]);
        }
        match source {
            Some(m) => {
                assert forall|a: int|
                    0 <= a < dest.len() && covered(stream, pos, a) implies end.mem[a] == m[a] by {
                    if !covered(stream, pos + 8 + size, a) {
                        assert(addr <= a < addr + size);
                        assert(next[a] == data[a - addr]);
                        assert(m.subrange(addr, addr + size)[a - addr] == m[a]);
                    }
                }
            },
            None => {},
        }
    }
}

/// Whole page records stay whole page records when one more is written
/// after them.
pub proof fn lemma_one_more_page(
    stream: Seq<u8>,
    pos: int,
    len: nat,
    source: Option<Seq<u8>>,
    entry: u64,
    data: Seq<u8>,
)
    requires
        0 <= pos,
        holds_pages(stream, pos, len, source),
        data.len() == page_len(is_large(entry)),
        backed(len, page_addr(entry, is_large(entry)) as int, page_len(is_large(entry)) as int),
        source matches Some(m) ==> data == m.subrange(
            page_addr(entry, is_large(entry)) as int,
            page_addr(entry, is_large(entry)) + page_len(is_large(entry)),
        ),
    ensures
        holds_pages(stream + spec_u64_to_le_bytes(entry) + data, pos, len, source),
    decreases stream.len() - pos,
{
    vstd::bytes::lemma_auto_spec_u64_to_from_le_bytes();
    let more = stream + spec_u64_to_le_bytes(entry) + data;
    if pos == stream.len() {
        assert(more.subrange(pos, pos + 8) == spec_u64_to_le_bytes(entry));
        assert(word_at(more, pos) == entry);
        assert(more.subrange(pos + 8, pos + 8 + data.len()) == data);
        assert(holds_pages(more, pos + 8 + data.len(), len, source));
    } else {
        let head = word_at(stream, pos);
        let size = page_len(is_large(head)) as int;
        assert(more.subrange(pos, pos + 8) == stream.subrange(pos, pos + 8));
        assert(word_at(more, pos) == head);
        assert(more.subrange(pos + 8, pos + 8 + size) == stream.subrange(pos + 8, pos + 8 + size));
        lemma_one_more_page(stream, pos + 8 + size, len, source, entry, data);
    }
}

/// The entry in the record of a page tells the size and the address of the
/// page, whether or not its accessed and dirty bits were cleared.
proof fn lemma_record_tells_page(entry: u64, large: bool, mode: ScanMode)
    requires
        large ==> entry & PG_PSE == PG_PSE,
    ensures
        is_large(entry_recorded(entry, large, mode)) == large,
        page_addr(entry_recorded(entry, large, mode), large) == page_addr(entry, large),
{
    assert(entry & 0x80 == 0x80 ==> (entry & !(0x40u64 | 0x20u64)) & 0x80 == 0x80) by (bit_vector);
    assert((entry & !0x80u64) & 0x80 != 0x80) by (bit_vector);
    assert(((entry & !(0x40u64 | 0x20u64)) & !0x80u64) & 0x80 != 0x80) by (bit_vector);
    assert((entry & !(0x40u64 | 0x20u64)) & 0xFFE0_0000 == entry & 0xFFE0_0000) by (bit_vector);
    assert((entry & !0x80u64) & 0xFFFF_F000 == entry & 0xFFFF_F000) by (bit_vector);
    assert(((entry & !(0x40u64 | 0x20u64)) & !0x80u64) & 0xFFFF_F000 == entry & 0xFFFF_F000)
        by (bit_vector);
}

/// Picking a page adds one whole record to the records written so far.
proof fn lemma_page_emitted_holds(
    st: ScanState,
    at: int,
    entry: u64,
    large: bool,
    mode: ScanMode,
    pos: int,
)
    requires
        st.ok,
        0 <= pos,
        0 <= at,
        at + 8 <= st.mem.len(),
        large ==> entry & PG_PSE == PG_PSE,
        holds_pages(st.out, pos, st.mem.len(), source_of(st.mem, mode)),
    ensures
        ({
            let end = page_emitted(st, at, entry, large, mode);
            &&& end.mem.len() == st.mem.len()
            &&& !mode.clear ==> end.mem == st.mem
            &&& st.out.len() <= end.out.len()
            &&& end.out.subrange(0, st.out.len() as int) == st.out
            &&& end.ok ==> holds_pages(end.out, pos, st.mem.len(), source_of(end.mem, mode))
        }),
{
    let end = page_emitted(st, at, entry, large, mode);
    let addr = page_addr(entry, large) as int;
    let size = page_len(large) as int;
    if backed(st.mem.len(), addr, size) {
        lemma_record_tells_page(entry, large, mode);
        lemma_patched_keeps(st.mem, at, spec_u64_to_le_bytes(entry_kept(entry, mode)));
        let recorded = entry_recorded(entry, large, mode);
        let data = end.mem.subrange(addr, addr + size);
        lemma_one_more_page(st.out, pos, st.mem.len(), source_of(st.mem, mode), recorded, data);
        assert(end.out == st.out + spec_u64_to_le_bytes(recorded) + data);
        assert(end.out.subrange(0, st.out.len() as int) == st.out);
    } else {
        assert(end.out.subrange(0, st.out.len() as int) == st.out);
    }
}

/// Visiting an entry adds whole records to the records written so far, and
/// leaves the memory as it was unless the scan clears bits.
proof fn lemma_entry_scanned_holds(st: ScanState, level: nat, at: int, mode: ScanMode, pos: int)
    requires
        st.ok,
        0 <= pos,
        0 <= at,
        at + 8 <= st.mem.len(),
        holds_pages(st.out, pos, st.mem.len(), source_of(st.mem, mode)),
    ensures
        ({
            let end = entry_scanned(st, level, at, mode);
            &&& end.mem.len() == st.mem.len()
            &&& !mode.clear ==> end.mem == st.mem
            &&& st.out.len() <= end.out.len()
            &&& end.out.subrange(0, st.out.len() as int) == st.out
            &&& end.ok ==> holds_pages(end.out, pos, st.mem.len(), source_of(end.mem, mode))
        }),
    decreases level, 0nat, 0nat,
{
    let entry = word_at(st.mem, at);
    assert(st.out.subrange(0, st.out.len() as int) == st.out);
    if level == LEVEL_PT {
        if entry & (PG_PRESENT | mode.flag) == (PG_PRESENT | mode.flag) {
            lemma_page_emitted_holds(st, at, entry, false, mode, pos);
        }
    } else if entry & PG_PRESENT != PG_PRESENT {
    } else if level == LEVEL_PD && entry & PG_PSE == PG_PSE {
        if entry & mode.flag == mode.flag {
            lemma_page_emitted_holds(st, at, entry, true, mode, pos);
        }
    } else {
        lemma_table_scanned_holds(
            st,
            (level - 1) as nat,
            (entry & PAGE_MASK) as int,
            PAGE_MAP_SIZE as nat,
            mode,
            pos,
        );
    }
}

/// Visiting the entries of a table adds whole records to the records
/// written so far, and leaves the memory as it was unless the scan clears
/// bits.
proof fn lemma_table_scanned_holds(
    st: ScanState,
    level: nat,
    table: int,
    upto: nat,
    mode: ScanMode,
    pos: int,
)
    requires
        st.ok,
        0 <= pos,
        upto <= PAGE_MAP_SIZE,
        holds_pages(st.out, pos, st.mem.len(), source_of(st.mem, mode)),
    ensures
        ({
            let end = table_scanned(st, level, table, upto, mode);
            &&& end.mem.len() == st.mem.len()
            &&& !mode.clear ==> end.mem == st.mem
            &&& st.out.len() <= end.out.len()
            &&& end.out.subrange(0, st.out.len() as int) == st.out
            &&& end.ok ==> holds_pages(end.out, pos, st.mem.len(), source_of(end.mem, mode))
        }),
    decreases level, 1nat, upto,
{
    assert(st.out.subrange(0, st.out.len() as int) == st.out);
    if backed(st.mem.len(), table, PAGE_SIZE as int) && upto > 0 {
        lemma_table_scanned_holds(st, level, table, (upto - 1) as nat, mode, pos);
        let before = table_scanned(st, level, table, (upto - 1) as nat, mode);
        let at = table + 8 * (upto - 1);
        let end = entry_scanned(before, level, at, mode);
        assert(table_scanned(st, level, table, upto, mode) == end);
        if before.ok {
            lemma_entry_scanned_holds(before, level, at, mode, pos);
            assert(end.out.subrange(0, st.out.len() as int) =~= before.out.subrange(
                0,
                st.out.len() as int,
            )) by {
                assert(end.out.subrange(0, before.out.len() as int) == before.out);
                assert forall|i: int| 0 <= i < st.out.len() implies end.out[i] == before.out[i] by {
                    assert(end.out.subrange(0, before.out.len() as int)[i] == end.out[i]);
                }
            }
        } else {
            assert(end == before);
        }
    }
}

/// The memory file of a checkpoint that was taken without a fault can be
/// restored into any memory of the size of the one it was taken from. The
/// restore brings the clock back, leaves every byte that no record covers
/// as it was, and, where the checkpoint was a full one, sets every byte that
/// a record covers to what the memory it was taken from has there.
pub proof fn lemma_checkpoint_restores(
    mem: Seq<u8>,
    clock: ClockData,
    entry: u64,
    mode: ScanMode,
    dest: Seq<u8>,
)
    requires
        dest.len() == mem.len(),
        table_scanned(
            scan_state(mem, clock_bytes(clock), true),
            LEVEL_PML4 as nat,
            entry + PAGE_SIZE,
            PAGE_MAP_SIZE as nat,
            mode,
        ).ok,
    ensures
        ({
            let taken = table_scanned(
                scan_state(mem, clock_bytes(clock), true),
                LEVEL_PML4 as nat,
                entry + PAGE_SIZE,
                PAGE_MAP_SIZE as nat,
                mode,
            );
            let restored = file_restored(dest, taken.out);
            &&& restored.ok
            &&& restored.mem.len() == dest.len()
            &&& file_clock(taken.out) == clock
            &&& forall|a: int|
                0 <= a < dest.len() && !covered(taken.out, CLOCK_LEN as int, a)
                    ==> #[trigger] restored.mem[a] == dest[a]
            &&& !mode.clear ==> taken.mem == mem && forall|a: int|
                0 <= a < dest.len() && covered(taken.out, CLOCK_LEN as int, a)
                    ==> #[trigger] restored.mem[a] == mem[a]
        }),
{
    vstd::bytes::lemma_auto_spec_u64_to_from_le_bytes();
    let head = clock_bytes(clock);
    let start = scan_state(mem, head, true);
    lemma_table_scanned_holds(
        start,
        LEVEL_PML4 as nat,
        entry + PAGE_SIZE,
        PAGE_MAP_SIZE as nat,
        mode,
        CLOCK_LEN as int,
    );
    let taken = table_scanned(
        start,
        LEVEL_PML4 as nat,
        entry + PAGE_SIZE,
        PAGE_MAP_SIZE as nat,
        mode,
    );
    let source = source_of(taken.mem, mode);
    lemma_pages_restore(dest, taken.out, CLOCK_LEN as int, source);
    assert(taken.out.subrange(0, 8) == taken.out.subrange(0, 8).subrange(0, 8));
    assert(taken.out.subrange(0, 8) == head);
}

/// What restoring whole page records sets a byte to that a record covers
/// does not depend on what the memory held before.
pub proof fn lemma_covered_bytes_come_from_the_records(
    one: Seq<u8>,
    other: Seq<u8>,
    stream: Seq<u8>,
    pos: int,
)
    requires
        0 <= pos,
        one.len() == other.len(),
        holds_pages(stream, pos, one.len(), None),
    ensures
        forall|a: int|
            0 <= a < one.len() && covered(stream, pos, a) ==> #[trigger] pages_restored(
                one,
                stream,
                pos,
            ).mem[a] == pages_restored(other, stream, pos).mem[a],
    decreases stream.len() - pos,
{
    if pos < stream.len() {
        let entry = word_at(stream, pos);
        let addr = page_addr(entry, is_large(entry)) as int;
        let size = page_len(is_large(entry)) as int;
        let data = stream.subrange(pos + 8, pos + 8 + size);
        let next_one = patched(one, addr, data);
        let next_other = patched(other, addr, data);
        lemma_covered_bytes_come_from_the_records(next_one, next_other, stream, pos + 8 + size);
        lemma_pages_restore(next_one, stream, pos + 8 + size, None);
        lemma_pages_restore(next_other, stream, pos + 8 + size, None);
        assert forall|a: int| 0 <= a < one.len() && covered(stream, pos, a) implies pages_restored(
            one,
            stream,
            pos,
        ).mem[a] == pages_restored(other, stream, pos).mem[a] by {
            if !covered(stream, pos + 8 + size, a) {
                assert(next_one[a] == data[a - addr]);
                assert(next_other[a] == data[a - addr]);
            }
        }
    }
}

/// Whether each of the first `upto` memory files has its clock and, behind
/// it, whole page records for a guest with `len` bytes of memory.
pub open spec fn files_hold_pages(streams: Seq<&[u8]>, upto: nat, len: nat) -> bool {
    forall|k: int|
        0 <= k < upto ==> (#[trigger] streams[k])@.len() >= CLOCK_LEN && holds_pages(
            streams[k]@,
            CLOCK_LEN as int,
            len,
            None,
        )
}

/// Whether a record of any of the first `upto` memory files covers `a`.
pub open spec fn covered_by_any(streams: Seq<&[u8]>, upto: nat, a: int) -> bool {
    exists|k: int| 0 <= k < upto && covered((#[trigger] streams[k])@, CLOCK_LEN as int, a)
}

/// A chain of memory files that were each written without a fault restores
/// without one. Every byte that the newest file covers ends up as that file
/// alone sets it, whatever the older files and the memory held; every byte
/// that no file covers stays as it was.
pub proof fn lemma_chain_restores(dest: Seq<u8>, streams: Seq<&[u8]>, upto: nat, other: Seq<u8>)
    requires
        upto <= streams.len(),
        other.len() == dest.len(),
        files_hold_pages(streams, upto, dest.len()),
    ensures
        files_restored(dest, streams, upto).ok,
        files_restored(dest, streams, upto).mem.len() == dest.len(),
        upto > 0 ==> forall|a: int|
            0 <= a < dest.len() && covered(streams[upto - 1]@, CLOCK_LEN as int, a)
                ==> #[trigger] files_restored(dest, streams, upto).mem[a] == file_restored(
                other,
                streams[upto - 1]@,
            ).mem[a],
        forall|a: int|
            0 <= a < dest.len() && !covered_by_any(streams, upto, a) ==> #[trigger] files_restored(
                dest,
                streams,
                upto,
            ).mem[a] == dest[a],
    decreases upto,
{
    if upto > 0 {
        lemma_chain_restores(dest, streams, (upto - 1) as nat, other);
        let before = files_restored(dest, streams, (upto - 1) as nat);
        let newest = streams[upto - 1]@;
        assert(newest.len() >= CLOCK_LEN && holds_pages(newest, CLOCK_LEN as int, dest.len(), None));
        lemma_pages_restore(before.mem, newest, CLOCK_LEN as int, None);
        lemma_covered_bytes_come_from_the_records(before.mem, other, newest, CLOCK_LEN as int);
        let end = files_restored(dest, streams, upto);
        assert(end == file_restored(before.mem, newest));
        assert forall|a: int| 0 <= a < dest.len() && !covered_by_any(streams, upto, a) implies end.mem[a]
            == dest[a] by {
            assert(!covered(streams[upto - 1]@, CLOCK_LEN as int, a));
            assert(!covered_by_any(streams, (upto - 1) as nat, a)) by {
                if covered_by_any(streams, (upto - 1) as nat, a) {
                    let k = choose|k: int|
                        0 <= k < upto - 1 && covered((#[trigger] streams[k])@, CLOCK_LEN as int, a);
                    assert(covered(streams[k]@, CLOCK_LEN as int, a));
                }
            }
            assert(before.mem[a] == dest[a]);
        }
    }
}

/// Page records that match a source are whole page records.
proof fn lemma_holds_whatever_the_source(stream: Seq<u8>, pos: int, len: nat, source: Seq<u8>)
    requires
        holds_pages(stream, pos, len, Some(source)),
    ensures
        holds_pages(stream, pos, len, None),
    decreases stream.len() - pos,
{
    if pos < stream.len() {
        let entry = word_at(stream, pos);
        let size = page_len(is_large(entry)) as int;
        lemma_holds_whatever_the_source(stream, pos + 8 + size, len, source);
    }
}

/// The memory file of a checkpoint that was taken without a fault has its
/// clock and, behind it, whole page records for a guest with as much memory
/// as the one it was taken from.
pub proof fn lemma_checkpoint_holds_pages(
    mem: Seq<u8>,
    clock: ClockData,
    entry: u64,
    mode: ScanMode,
)
    requires
        table_scanned(
            scan_state(mem, clock_bytes(clock), true),
            LEVEL_PML4 as nat,
            entry + PAGE_SIZE,
            PAGE_MAP_SIZE as nat,
            mode,
        ).ok,
    ensures
        ({
            let taken = table_scanned(
                scan_state(mem, clock_bytes(clock), true),
                LEVEL_PML4 as nat,
                entry + PAGE_SIZE,
                PAGE_MAP_SIZE as nat,
                mode,
            );
            &&& taken.mem.len() == mem.len()
            &&& taken.out.len() >= CLOCK_LEN
            &&& holds_pages(taken.out, CLOCK_LEN as int, mem.len(), None)
        }),
{
    vstd::bytes::lemma_auto_spec_u64_to_from_le_bytes();
    let start = scan_state(mem, clock_bytes(clock), true);
    lemma_table_scanned_holds(
        start,
        LEVEL_PML4 as nat,
        entry + PAGE_SIZE,
        PAGE_MAP_SIZE as nat,
        mode,
        CLOCK_LEN as int,
    );
    let taken = table_scanned(
        start,
        LEVEL_PML4 as nat,
        entry + PAGE_SIZE,
        PAGE_MAP_SIZE as nat,
        mode,
    );
    if !mode.clear {
        lemma_holds_whatever_the_source(taken.out, CLOCK_LEN as int, mem.len(), taken.mem);
    }
}

} // verus!
