//! Guest-physical memory: one anonymous mapping, addressed by guest-physical
//! address, with the 32-bit device hole left unbacked.

use vstd::prelude::*;
use vstd::bytes::{
    spec_u32_from_le_bytes, spec_u32_to_le_bytes, spec_u64_from_le_bytes, spec_u64_to_le_bytes,
};
use vstd::array::array_as_slice;
use memmap::MmapMut;
use crate::codec;
use crate::error::Error;
use crate::layout::{KVM_32BIT_GAP_SIZE, KVM_32BIT_GAP_START, KVM_32BIT_MAX_MEM_SIZE};

verus! {

/// `memmap::MmapMut`, a readable and writable memory mapping.
#[verifier::external_type_specification]
#[verifier::external_body]
pub struct ExMmapMut(MmapMut);

/// The bytes of a mapping, by offset from its start.
pub uninterp spec fn mapped_bytes(map: MmapMut) -> Seq<u8>;

/// `MmapMut::map_anon`: on success the mapping has the length asked for.
/// A length of zero is refused. Nothing is claimed of the initial bytes.
#[verifier::external_body]
fn map_anon(len: usize) -> (r: Option<MmapMut>)
    ensures
        r matches Some(m) ==> mapped_bytes(m).len() == len,
        len == 0 ==> r is None,
{
    MmapMut::map_anon(len).ok()
}

/// `MmapMut::deref`, then the slice's `len`: the length of the mapping.
#[verifier::external_body]
fn map_len(map: &MmapMut) -> (n: usize)
    ensures
        n == mapped_bytes(*map).len(),
{
    map.len()
}

/// `MmapMut::deref`, then a range of the slice: the bytes from `from` up to
/// `to`. The range lies in backed memory, so that its bytes can be read.
#[verifier::external_body]
fn map_slice(map: &MmapMut, from: usize, to: usize) -> (s: &[u8])
    requires
        from <= to,
        backed(mapped_bytes(*map).len(), from as int, to - from),
    ensures
        s@ == mapped_bytes(*map).subrange(from as int, to as int),
{
    &map[from..to]
}

/// `MmapMut::deref_mut`, then `copy_from_slice` on a range of the slice: the
/// bytes from `at` on become those of `data`, the others stay. The range
/// lies in backed memory, so that its bytes can be written.
#[verifier::external_body]
fn map_write(map: &mut MmapMut, at: usize, data: &[u8])
    requires
        backed(mapped_bytes(*old(map)).len(), at as int, data@.len() as int),
    ensures
        mapped_bytes(*final(map)) == patched(mapped_bytes(*old(map)), at as int, data@),
{
    map[at..at + data.len()].copy_from_slice(data);
}

/// `MmapMut::deref_mut`, then `fill` on a range of the slice: the `count`
/// bytes from `at` on become `value`, the others stay. The range lies in
/// backed memory, so that its bytes can be written.
#[verifier::external_body]
fn map_fill(map: &mut MmapMut, at: usize, count: usize, value: u8)
    requires
        backed(mapped_bytes(*old(map)).len(), at as int, count as int),
    ensures
        mapped_bytes(*final(map)) == patched(
            mapped_bytes(*old(map)),
            at as int,
            run_of(count as nat, value),
        ),
{
    map[at..at + count].fill(value);
}

/// `MmapMut::deref_mut`, then a range of the slice: the bytes from `from` up
/// to `to`, to be read and written in place. The range lies in backed
/// memory. What is written through the window is written to the mapping, and
/// nothing else of the mapping changes.
#[verifier::external_body]
fn map_window(map: &mut MmapMut, from: usize, to: usize) -> (w: &mut [u8])
    requires
        from <= to,
        backed(mapped_bytes(*old(map)).len(), from as int, to - from),
    ensures
        w@ == mapped_bytes(*old(map)).subrange(from as int, to as int),
        final(w)@.len() == to - from,
        mapped_bytes(*final(map)) == patched(mapped_bytes(*old(map)), from as int, final(w)@),
{
    &mut map[from..to]
}

/// `mem` with the bytes from `at` on replaced by `data`.
pub open spec fn patched(mem: Seq<u8>, at: int, data: Seq<u8>) -> Seq<u8> {
    Seq::new(
        mem.len(),
        |i: int|
            if at <= i < at + data.len() {
                data[i - at]
            } else {
                mem[i]
            },
    )
}

/// `count` bytes of value `value`.
pub open spec fn run_of(count: nat, value: u8) -> Seq<u8> {
    Seq::new(count, |i: int| value)
}

/// The 32-bit value stored lowest byte first at `addr`.
pub open spec fn dword_at(mem: Seq<u8>, addr: int) -> u32 {
    spec_u32_from_le_bytes(mem.subrange(addr, addr + 4))
}

/// The 64-bit value stored lowest byte first at `addr`.
pub open spec fn word_at(mem: Seq<u8>, addr: int) -> u64 {
    spec_u64_from_le_bytes(mem.subrange(addr, addr + 8))
}

/// Length of the mapping that holds a guest of `size` bytes: a guest that
/// reaches past the start of the device hole is mapped with room for the
/// hole.
pub open spec fn mapped_len(size: nat) -> nat {
    if size <= KVM_32BIT_GAP_START {
        size
    } else {
        (size + KVM_32BIT_GAP_START) as nat
    }
}

/// Whether a mapping of `len` bytes leaves the device hole unbacked.
pub open spec fn has_hole(len: nat) -> bool {
    len > KVM_32BIT_GAP_START
}

/// Whether the `count` bytes from guest-physical address `addr` on are all
/// backed by a mapping of `len` bytes: they lie inside the mapping, which
/// lies within the addresses of the machine, and, where the mapping has the
/// hole, wholly below or wholly above it.
pub open spec fn backed(len: nat, addr: int, count: int) -> bool {
    &&& 0 <= addr
    &&& 0 <= count
    &&& addr + count <= len
    &&& addr + count <= usize::MAX
    &&& has_hole(len) ==> addr + count <= KVM_32BIT_GAP_START || addr
        >= KVM_32BIT_MAX_MEM_SIZE
}

/// The memory as it goes on the wire: every backed byte as it is, and zero
/// for every byte of the hole.
pub open spec fn image_of(mem: Seq<u8>) -> Seq<u8> {
    Seq::new(
        mem.len(),
        |a: int|
            if backed(mem.len(), a, 1) {
                mem[a]
            } else {
                0u8
            },
    )
}

/// One contiguous range of backed guest memory, as it is registered with the
/// control device. The range lies at the same offset in the mapping as in
/// guest-physical space.
#[derive(Debug, Clone, Copy, PartialEq, Eq, Structural)]
pub struct MemoryRegion {
    pub slot: u32,
    pub flags: u32,
    pub guest_phys_addr: u64,
    pub memory_size: u64,
}

/// The ranges that a mapping of `len` bytes backs: one, or one below and one
/// above the hole.
pub open spec fn regions_of(len: nat) -> Seq<MemoryRegion> {
    let low = MemoryRegion {
        slot: 0,
        flags: 0,
        guest_phys_addr: 0,
        memory_size: if has_hole(len) {
            KVM_32BIT_GAP_START
        } else {
            len as u64
        },
    };
    if len > KVM_32BIT_MAX_MEM_SIZE {
        seq![
            low,
            MemoryRegion {
                slot: 1,
                flags: 0,
                guest_phys_addr: KVM_32BIT_MAX_MEM_SIZE,
                memory_size: (len - KVM_32BIT_MAX_MEM_SIZE) as u64,
            },
        ]
    } else {
        seq![low]
    }
}

/// The memory of one guest.
pub struct GuestMemory {
    map: MmapMut,
}

impl View for GuestMemory {
    type V = Seq<u8>;

    /// The bytes of the mapping, by guest-physical address. Bytes inside the
    /// hole are part of the view and never read or written.
    open spec fn view(&self) -> Seq<u8> {
        mapped_bytes(*self.mapping())
    }
}

impl GuestMemory {
    /// The length of the mapping that holds a guest of `size` bytes, where
    /// the address space has room for it.
    pub fn mapping_len(size: usize) -> (r: Option<usize>)
        ensures
            r == if mapped_len(size as nat) <= usize::MAX {
                Some(mapped_len(size as nat) as usize)
            } else {
                None
            },
    {
        if size as u64 <= KVM_32BIT_GAP_START {
            Some(size)
        } else if size as u64 > usize::MAX as u64 - KVM_32BIT_GAP_START {
            None
        } else {
            Some(size + KVM_32BIT_GAP_START as usize)
        }
    }

    /// The guest memory that a mapping holds, where the host has granted
    /// one.
    ///
    /// Fails with `OutOfMemory` where it has not.
    pub fn with_mapping(map: Option<MmapMut>) -> (r: Result<GuestMemory, Error>)
        ensures
            match map {
                Some(m) => r matches Ok(mem) && mem@ == mapped_bytes(m),
                None => r matches Err(e) && e is OutOfMemory,
            },
    {
        match map {
            Some(map) => Ok(GuestMemory { map }),
            None => Err(Error::OutOfMemory),
        }
    }

    /// Maps memory for a guest of `size` bytes.
    ///
    /// Fails with `OutOfMemory` when the host refuses the mapping, which it
    /// always does for a size of zero or for one whose mapping would not fit
    /// the address space.
    pub fn new(size: usize) -> (r: Result<GuestMemory, Error>)
        ensures
            r matches Ok(m) ==> m@.len() == mapped_len(size as nat),
            r matches Err(e) ==> e is OutOfMemory,
            size == 0 || mapped_len(size as nat) > usize::MAX ==> r is Err,
    {
        match GuestMemory::mapping_len(size) {
            Some(len) => GuestMemory::with_mapping(map_anon(len)),
            None => Err(Error::OutOfMemory),
        }
    }

    /// Length of the mapping in bytes, the hole included.
    pub fn size(&self) -> (n: usize)
        ensures
            n == self@.len(),
    {
        map_len(&self.map)
    }

    /// Whether the `count` bytes from `addr` on can be read and written.
    pub fn is_backed(&self, addr: u64, count: u64) -> (b: bool)
        ensures
            b == backed(self@.len(), addr as int, count as int),
    {
        let len: u64 = self.size() as u64;
        if count > u64::MAX - addr {
            return false;
        }
        let end: u64 = addr + count;
        end <= len && (len <= KVM_32BIT_GAP_START || end <= KVM_32BIT_GAP_START || addr
            >= KVM_32BIT_MAX_MEM_SIZE)
    }

    /// The ranges of backed memory, lowest first.
    pub fn regions(&self) -> (r: Vec<MemoryRegion>)
        ensures
            r@ == regions_of(self@.len()),
    {
        let len: u64 = self.size() as u64;
        let mut r: Vec<MemoryRegion> = Vec::new();
        if len > KVM_32BIT_GAP_START {
            r.push(
                MemoryRegion {
                    slot: 0,
                    flags: 0,
                    guest_phys_addr: 0,
                    memory_size: KVM_32BIT_GAP_START,
                },
            );
            if len > KVM_32BIT_MAX_MEM_SIZE {
                r.push(
                    MemoryRegion {
                        slot: 1,
                        flags: 0,
                        guest_phys_addr: KVM_32BIT_MAX_MEM_SIZE,
                        memory_size: len - KVM_32BIT_MAX_MEM_SIZE,
                    },
                );
            }
        } else {
            r.push(MemoryRegion { slot: 0, flags: 0, guest_phys_addr: 0, memory_size: len });
        }
        r
    }

    /// The byte at `addr`, or `None` where `addr` is not backed.
    pub fn read_u8(&self, addr: u64) -> (r: Option<u8>)
        ensures
            r == if backed(self@.len(), addr as int, 1) {
                Some(self@[addr as int])
            } else {
                None
            },
    {
        if !self.is_backed(addr, 1) {
            return None;
        }
        let at: usize = addr as usize;
        let s = map_slice(&self.map, at, at + 1);
        Some(s[0])
    }

    /// The 32-bit value at `addr`, or `None` where its bytes are not all
    /// backed.
    pub fn read_u32(&self, addr: u64) -> (r: Option<u32>)
        ensures
            r == if backed(self@.len(), addr as int, 4) {
                Some(dword_at(self@, addr as int))
            } else {
                None
            },
    {
        if !self.is_backed(addr, 4) {
            return None;
        }
        let at: usize = addr as usize;
        let s = map_slice(&self.map, at, at + 4);
        assert(s@.subrange(0, 4) == s@);
        Some(codec::read_u32(s))
    }

    /// The 64-bit value at `addr`, or `None` where its bytes are not all
    /// backed.
    pub fn read_u64(&self, addr: u64) -> (r: Option<u64>)
        ensures
            r == if backed(self@.len(), addr as int, 8) {
                Some(word_at(self@, addr as int))
            } else {
                None
            },
    {
        if !self.is_backed(addr, 8) {
            return None;
        }
        let at: usize = addr as usize;
        let s = map_slice(&self.map, at, at + 8);
        assert(s@.subrange(0, 8) == s@);
        Some(codec::read_u64(s))
    }

    /// The `count` bytes from `addr` on, or `None` where they are not all
    /// backed.
    pub fn slice(&self, addr: u64, count: u64) -> (r: Option<&[u8]>)
        ensures
            r is Some == backed(self@.len(), addr as int, count as int),
            r matches Some(s) ==> s@ == self@.subrange(addr as int, addr + count),
    {
        if !self.is_backed(addr, count) {
            return None;
        }
        let at: usize = addr as usize;
        Some(map_slice(&self.map, at, at + count as usize))
    }

    /// Appends to `out` the `count` bytes from `addr` on as they go on the
    /// wire: what the memory holds, with zeros for the bytes of the hole.
    /// Leaves `out` as it is and returns `false` where the bytes do not all
    /// lie in the mapping.
    pub fn copy_image(&self, addr: u64, count: u64, out: &mut Vec<u8>) -> (done: bool)
        ensures
            done == (addr + count <= self@.len()),
            final(out)@ == if done {
                old(out)@ + image_of(self@).subrange(addr as int, addr + count)
            } else {
                old(out)@
            },
    {
        let len: u64 = self.size() as u64;
        if count > u64::MAX - addr || addr + count > len {
            return false;
        }
        let end: u64 = addr + count;
        let ghost image = image_of(self@);
        let mut at: u64 = addr;
        if len > KVM_32BIT_GAP_START {
            if at < KVM_32BIT_GAP_START {
                let stop: u64 = if end < KVM_32BIT_GAP_START {
                    end
                } else {
                    KVM_32BIT_GAP_START
                };
                self.read_into(at, stop - at, out);
                assert(out@ == old(out)@ + image.subrange(addr as int, stop as int));
                at = stop;
            }
            while at < end && at < KVM_32BIT_MAX_MEM_SIZE
                invariant
                    addr <= at <= end,
                    end <= len,
                    len == self@.len(),
                    len > KVM_32BIT_GAP_START,
                    image == image_of(self@),
                    at < end ==> KVM_32BIT_GAP_START <= at,
                    out@ == old(out)@ + image.subrange(addr as int, at as int),
                decreases end - at,
            {
                out.push(0);
                at = at + 1;
                assert(out@ == old(out)@ + image.subrange(addr as int, at as int));
            }
        }
        if at < end {
            self.read_into(at, end - at, out);
            assert(out@ == old(out)@ + image.subrange(addr as int, end as int));
        }
        true
    }

    /// A window onto the `count` bytes from `addr` on, to be read and
    /// written in place, or `None` where they are not all backed.
    pub fn as_mut_window(&mut self, addr: u64, count: u64) -> (r: Option<&mut [u8]>)
        ensures
            r is Some == backed(old(self)@.len(), addr as int, count as int),
            match r {
                Some(w) => {
                    &&& w@ == old(self)@.subrange(addr as int, addr + count)
                    &&& final(w)@.len() == count
                    &&& final(self)@ == patched(old(self)@, addr as int, final(w)@)
                },
                None => final(self)@ == old(self)@,
            },
    {
        if !self.is_backed(addr, count) {
            return None;
        }
        let at: usize = addr as usize;
        Some(map_window(&mut self.map, at, at + count as usize))
    }

    /// The mapping that holds the guest's memory.
    #[verifier::when_used_as_spec(spec_mapping)]
    pub fn mapping(&self) -> (map: &MmapMut)
        ensures
            map == self.spec_mapping(),
    {
        &self.map
    }

    /// The mapping that holds the guest's memory.
    pub closed spec fn spec_mapping(&self) -> &MmapMut {
        &self.map
    }

    /// Appends the `count` bytes from `addr` on to `out`. Leaves `out` as it
    /// is and returns `false` where the bytes are not all backed.
    pub fn read_into(&self, addr: u64, count: u64, out: &mut Vec<u8>) -> (done: bool)
        ensures
            done == backed(self@.len(), addr as int, count as int),
            final(out)@ == if done {
                old(out)@ + self@.subrange(addr as int, addr + count)
            } else {
                old(out)@
            },
    {
        if !self.is_backed(addr, count) {
            return false;
        }
        let at: usize = addr as usize;
        let s = map_slice(&self.map, at, at + count as usize);
        out.extend_from_slice(s);
        true
    }

    /// Stores `data` from `addr` on. Leaves the memory as it is and returns
    /// `false` where the bytes to be written are not all backed.
    pub fn write_bytes(&mut self, addr: u64, data: &[u8]) -> (done: bool)
        ensures
            done == backed(old(self)@.len(), addr as int, data@.len() as int),
            final(self)@ == if done {
                patched(old(self)@, addr as int, data@)
            } else {
                old(self)@
            },
    {
        let count: usize = data.len();
        if !self.is_backed(addr, count as u64) {
            return false;
        }
        map_write(&mut self.map, addr as usize, data);
        true
    }

    /// Stores `value` at `addr`, or returns `false` where `addr` is not
    /// backed.
    pub fn write_u8(&mut self, addr: u64, value: u8) -> (done: bool)
        ensures
            done == backed(old(self)@.len(), addr as int, 1),
            final(self)@ == if done {
                patched(old(self)@, addr as int, seq![value])
            } else {
                old(self)@
            },
    {
        let b: [u8; 1] = [value];
        assert(b@ == seq![value]);
        self.write_bytes(addr, array_as_slice(&b))
    }

    /// Stores `value` lowest byte first at `addr`, or returns `false` where
    /// the four bytes are not all backed.
    pub fn write_u32(&mut self, addr: u64, value: u32) -> (done: bool)
        ensures
            done == backed(old(self)@.len(), addr as int, 4),
            final(self)@ == if done {
                patched(old(self)@, addr as int, spec_u32_to_le_bytes(value))
            } else {
                old(self)@
            },
    {
        proof {
            vstd::bytes::lemma_auto_spec_u32_to_from_le_bytes();
        }
        let b = codec::u32_bytes(value);
        self.write_bytes(addr, array_as_slice(&b))
    }

    /// Stores `value` lowest byte first at `addr`, or returns `false` where
    /// the eight bytes are not all backed.
    pub fn write_u64(&mut self, addr: u64, value: u64) -> (done: bool)
        ensures
            done == backed(old(self)@.len(), addr as int, 8),
            final(self)@ == if done {
                patched(old(self)@, addr as int, spec_u64_to_le_bytes(value))
            } else {
                old(self)@
            },
    {
        proof {
            vstd::bytes::lemma_auto_spec_u64_to_from_le_bytes();
        }
        let b = codec::u64_bytes(value);
        self.write_bytes(addr, array_as_slice(&b))
    }

    /// Sets the `count` bytes from `addr` on to `value`. Leaves the memory
    /// as it is and returns `false` where they are not all backed.
    pub fn fill(&mut self, addr: u64, count: u64, value: u8) -> (done: bool)
        ensures
            done == backed(old(self)@.len(), addr as int, count as int),
            final(self)@ == if done {
                patched(old(self)@, addr as int, run_of(count as nat, value))
            } else {
                old(self)@
            },
    {
        if !self.is_backed(addr, count) {
            return false;
        }
        map_fill(&mut self.map, addr as usize, count as usize, value);
        true
    }
}

/// A range inside a backed range is backed.
pub proof fn lemma_backed_within(len: nat, addr: int, count: int, at: int, n: int)
    requires
        backed(len, addr, count),
        addr <= at,
        0 <= n,
        at + n <= addr + count,
    ensures
        backed(len, at, n),
{
}

/// Bytes outside a stored range keep their values, bytes inside take the
/// stored ones.
pub proof fn lemma_patched_bytes(mem: Seq<u8>, at: int, data: Seq<u8>, from: int, to: int)
    requires
        0 <= from <= to <= mem.len(),
    ensures
        patched(mem, at, data).len() == mem.len(),
        to <= at || at + data.len() <= from ==> patched(mem, at, data).subrange(from, to)
            == mem.subrange(from, to),
        at <= from && to <= at + data.len() ==> patched(mem, at, data).subrange(from, to)
            == data.subrange(from - at, to - at),
{
    if to <= at || at + data.len() <= from {
        assert(patched(mem, at, data).subrange(from, to) =~= mem.subrange(from, to));
    }
    if at <= from && to <= at + data.len() {
        assert(patched(mem, at, data).subrange(from, to) =~= data.subrange(from - at, to - at));
    }
}

/// A 64-bit value reads back from where it was stored.
pub proof fn lemma_word_stored(mem: Seq<u8>, at: int, value: u64)
    requires
        0 <= at,
        at + 8 <= mem.len(),
    ensures
        word_at(patched(mem, at, spec_u64_to_le_bytes(value)), at) == value,
{
    vstd::bytes::lemma_auto_spec_u64_to_from_le_bytes();
    let data = spec_u64_to_le_bytes(value);
    lemma_patched_bytes(mem, at, data, at, at + 8);
    assert(data.subrange(0, 8) =~= data);
}

/// A 32-bit value reads back from where it was stored.
pub proof fn lemma_dword_stored(mem: Seq<u8>, at: int, value: u32)
    requires
        0 <= at,
        at + 4 <= mem.len(),
    ensures
        dword_at(patched(mem, at, spec_u32_to_le_bytes(value)), at) == value,
{
    vstd::bytes::lemma_auto_spec_u32_to_from_le_bytes();
    let data = spec_u32_to_le_bytes(value);
    lemma_patched_bytes(mem, at, data, at, at + 4);
    assert(data.subrange(0, 4) =~= data);
}

/// A 64-bit value is untouched by a store that does not reach its bytes.
pub proof fn lemma_word_kept(mem: Seq<u8>, at: int, data: Seq<u8>, addr: int)
    requires
        0 <= addr,
        addr + 8 <= mem.len(),
        addr + 8 <= at || at + data.len() <= addr,
    ensures
        word_at(patched(mem, at, data), addr) == word_at(mem, addr),
{
    lemma_patched_bytes(mem, at, data, addr, addr + 8);
}

/// A 32-bit value is untouched by a store that does not reach its bytes.
pub proof fn lemma_dword_kept(mem: Seq<u8>, at: int, data: Seq<u8>, addr: int)
    requires
        0 <= addr,
        addr + 4 <= mem.len(),
        addr + 4 <= at || at + data.len() <= addr,
    ensures
        dword_at(patched(mem, at, data), addr) == dword_at(mem, addr),
{
    lemma_patched_bytes(mem, at, data, addr, addr + 4);
}

/// What a store keeps: the length of the memory, and every value and every
/// range of bytes that it does not reach.
pub proof fn lemma_patched_keeps(mem: Seq<u8>, at: int, data: Seq<u8>)
    ensures
        ({
            let m = patched(mem, at, data);
            &&& m.len() == mem.len()
            &&& forall|a: int|
                0 <= a && a + 8 <= mem.len() && (a + 8 <= at || at + data.len() <= a)
                    ==> #[trigger] word_at(m, a) == word_at(mem, a)
            &&& forall|a: int|
                0 <= a && a + 4 <= mem.len() && (a + 4 <= at || at + data.len() <= a)
                    ==> #[trigger] dword_at(m, a) == dword_at(mem, a)
            &&& forall|a: int, b: int|
                0 <= a <= b <= mem.len() && (b <= at || at + data.len() <= a)
                    ==> #[trigger] m.subrange(a, b) == mem.subrange(a, b)
        }),
{
    let m = patched(mem, at, data);
    assert forall|a: int|
        0 <= a && a + 8 <= mem.len() && (a + 8 <= at || at + data.len() <= a) implies #[trigger] word_at(
        m,
        a,
    ) == word_at(mem, a) by {
        lemma_word_kept(mem, at, data, a);
    }
    assert forall|a: int|
        0 <= a && a + 4 <= mem.len() && (a + 4 <= at || at + data.len() <= a) implies #[trigger] dword_at(
        m,
        a,
    ) == dword_at(mem, a) by {
        lemma_dword_kept(mem, at, data, a);
    }
    assert forall|a: int, b: int|
        0 <= a <= b <= mem.len() && (b <= at || at + data.len() <= a) implies #[trigger] m.subrange(
        a,
        b,
    ) == mem.subrange(a, b) by {
        lemma_patched_bytes(mem, at, data, a, b);
    }
}

/// Eight zero bytes hold the value zero.
pub proof fn lemma_word_of_zeros(mem: Seq<u8>, addr: int)
    requires
        0 <= addr,
        addr + 8 <= mem.len(),
        forall|i: int| addr <= i < addr + 8 ==> mem[i] == 0,
    ensures
        word_at(mem, addr) == 0,
{
    vstd::bytes::lemma_auto_spec_u64_to_from_le_bytes();
    vstd::bytes::spec_u64_to_le_bytes_to_open(0);
    assert(0u64 & 0xff == 0 && (0u64 >> 8) & 0xff == 0 && (0u64 >> 16) & 0xff == 0 && (0u64 >> 24)
        & 0xff == 0 && (0u64 >> 32) & 0xff == 0 && (0u64 >> 40) & 0xff == 0 && (0u64 >> 48) & 0xff
        == 0 && (0u64 >> 56) & 0xff == 0) by (bit_vector);
    assert(mem.subrange(addr, addr + 8) =~= spec_u64_to_le_bytes(0));
}

/// The memory of a guest that reaches past the start of the device hole has
/// no byte inside the hole, and has every byte from the end of the hole up
/// to the end of its mapping.
pub proof fn lemma_hole_is_unbacked(size: nat, addr: int)
    requires
        size > KVM_32BIT_GAP_START,
        mapped_len(size) <= usize::MAX,
    ensures
        KVM_32BIT_GAP_START <= addr < KVM_32BIT_GAP_START + KVM_32BIT_GAP_SIZE ==> !backed(
            mapped_len(size),
            addr,
            1,
        ),
        KVM_32BIT_GAP_START + KVM_32BIT_GAP_SIZE <= addr < size + KVM_32BIT_GAP_START ==> backed(
            mapped_len(size),
            addr,
            1,
        ),
{
}

/// The regions of a memory hold exactly its backed bytes.
pub proof fn lemma_regions_are_backed(len: nat, addr: int)
    requires
        len <= usize::MAX,
    ensures
        backed(len, addr, 1) <==> exists|k: int|
            0 <= k < regions_of(len).len() && (#[trigger] regions_of(len)[k]).guest_phys_addr
                <= addr < regions_of(len)[k].guest_phys_addr + regions_of(len)[k].memory_size,
{
    let regions = regions_of(len);
    if backed(len, addr, 1) {
        if addr < KVM_32BIT_MAX_MEM_SIZE {
            assert(regions[0].guest_phys_addr <= addr < regions[0].guest_phys_addr
                + regions[0].memory_size);
        } else {
            assert(regions[1].guest_phys_addr <= addr < regions[1].guest_phys_addr
                + regions[1].memory_size);
        }
    }
}

} // verus!
