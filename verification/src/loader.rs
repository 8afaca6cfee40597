//! Loading a kernel image: its segments go to guest memory, and the boot
//! information block at the start of the image is filled in.

use vstd::prelude::*;
use vstd::array::array_as_slice;
use vstd::bytes::{spec_u32_to_le_bytes, spec_u64_to_le_bytes};
use vstd::slice::slice_subrange;
use crate::elf::{
    headers_of, read_headers, ElfFile, ElfHeaders, ProgramHeader, ELFCLASS64, EM_X86_64, ET_EXEC,
    OSABI_UNIKERNEL, PT_LOAD,
};
use crate::error::Error;
use crate::mem::{
    backed, dword_at, lemma_backed_within, lemma_dword_kept, lemma_dword_stored,
    lemma_patched_bytes, lemma_patched_keeps, lemma_word_kept, lemma_word_stored, patched, run_of,
    word_at, GuestMemory,
};
use crate::vm::VirtualMachine;

verus! {

/// Length of the boot information block.
pub const BOOT_INFO_LEN: u64 = 0xC4;

/// Offset of the kernel's log from the start of the image.
pub const KLOG_OFFSET: u64 = 0x5000;

/// I/O address of the guest's serial line.
pub const PORT_UART: u64 = 0x800;

/// Boot information: guest-physical start of the image.
pub const BOOT_PHYS_START: u64 = 0x08;

/// Boot information: size of the guest's memory.
pub const BOOT_PHYS_LIMIT: u64 = 0x10;

/// Boot information: CPU frequency in MHz.
pub const BOOT_CPU_FREQ: u64 = 0x18;

/// Boot information: number of CPUs.
pub const BOOT_CPUS: u64 = 0x24;

/// Boot information: id of the boot CPU's interrupt controller.
pub const BOOT_APIC_ID: u64 = 0x30;

/// Boot information: size of the loaded image.
pub const BOOT_IMAGE_SIZE: u64 = 0x38;

/// Boot information: number of NUMA nodes.
pub const BOOT_NUMA_NODES: u64 = 0x60;

/// Boot information: marks a guest of this monitor.
pub const BOOT_MONITOR: u64 = 0x94;

/// Boot information: I/O address of the serial line.
pub const BOOT_UART: u64 = 0x98;

/// Boot information: the guest's network address.
pub const BOOT_IP: u64 = 0xB0;

/// Boot information: the guest's gateway.
pub const BOOT_GATEWAY: u64 = 0xB4;

/// Boot information: the guest's network mask.
pub const BOOT_MASK: u64 = 0xB8;

/// Boot information: host address of the guest's memory.
pub const BOOT_HOST_BASE: u64 = 0xBC;

/// What the host contributes to the boot information.
#[derive(Debug, Clone, Copy)]
pub struct BootParams {
    /// Measured CPU frequency in MHz.
    pub cpu_freq: u32,
    /// Whether the guest is told where the serial line is.
    pub verbose: bool,
    /// Host address of the guest's memory.
    pub host_base: u64,
}

/// The values that go into the boot information block, but for the start of
/// the image and the size of the memory.
#[derive(Debug, Clone, Copy)]
pub struct BootInfo {
    pub cpu_freq: u32,
    pub verbose: bool,
    pub ip: Option<[u8; 4]>,
    pub gateway: Option<[u8; 4]>,
    pub mask: Option<[u8; 4]>,
    pub host_base: u64,
}

/// `mem` with `octets`, where there are any, stored at `at`.
pub open spec fn octets_stored(mem: Seq<u8>, at: int, octets: Option<[u8; 4]>) -> Seq<u8> {
    match octets {
        Some(a) => patched(mem, at, a@),
        None => mem,
    }
}

/// `mem` with the boot information block at `base` filled in.
pub open spec fn boot_info_stored(mem: Seq<u8>, base: int, info: BootInfo) -> Seq<u8> {
    let m = patched(mem, base + BOOT_PHYS_START, spec_u64_to_le_bytes(base as u64));
    let m = patched(m, base + BOOT_PHYS_LIMIT, spec_u64_to_le_bytes(mem.len() as u64));
    let m = patched(m, base + BOOT_CPU_FREQ, spec_u32_to_le_bytes(info.cpu_freq));
    let m = patched(m, base + BOOT_CPUS, spec_u32_to_le_bytes(1));
    let m = patched(m, base + BOOT_APIC_ID, spec_u32_to_le_bytes(0));
    let m = patched(m, base + BOOT_NUMA_NODES, spec_u32_to_le_bytes(1));
    let m = patched(m, base + BOOT_MONITOR, spec_u32_to_le_bytes(1));
    let m = if info.verbose {
        patched(m, base + BOOT_UART, spec_u64_to_le_bytes(PORT_UART))
    } else {
        m
    };
    let m = octets_stored(m, base + BOOT_IP, info.ip);
    let m = octets_stored(m, base + BOOT_GATEWAY, info.gateway);
    let m = octets_stored(m, base + BOOT_MASK, info.mask);
    patched(m, base + BOOT_HOST_BASE, spec_u64_to_le_bytes(info.host_base))
}

/// `mem` with the size of one more segment added to the image size in the
/// boot information block at `base`. The sum is taken modulo 2^64.
pub open spec fn size_added(mem: Seq<u8>, base: int, memsz: u64) -> Seq<u8> {
    patched(
        mem,
        base + BOOT_IMAGE_SIZE,
        spec_u64_to_le_bytes(word_at(mem, base + BOOT_IMAGE_SIZE).wrapping_add(memsz)),
    )
}

/// `mem` with one segment in place: its bytes from the image, then zeros up
/// to its size in memory.
pub open spec fn segment_placed(mem: Seq<u8>, image: Seq<u8>, seg: ProgramHeader) -> Seq<u8> {
    let copied = patched(
        mem,
        seg.paddr as int,
        image.subrange(seg.offset as int, seg.offset + seg.filesz),
    );
    patched(copied, seg.paddr + seg.filesz, run_of((seg.memsz - seg.filesz) as nat, 0))
}

/// The first loadable segment among the first `upto` program headers.
pub open spec fn first_load(phdrs: Seq<ProgramHeader>, upto: nat) -> Option<ProgramHeader>
    decreases upto,
{
    if upto == 0 {
        None
    } else {
        match first_load(phdrs, (upto - 1) as nat) {
            Some(seg) => Some(seg),
            None => if phdrs[upto - 1].progtype == PT_LOAD {
                Some(phdrs[upto - 1])
            } else {
                None
            },
        }
    }
}

/// Guest memory after the loadable segments among the first `upto` program
/// headers were placed in order. Each adds its size to the image size in the
/// boot information block, which lies where the first of them was loaded and
/// is filled in right after that one is placed.
pub open spec fn loaded(
    mem: Seq<u8>,
    image: Seq<u8>,
    phdrs: Seq<ProgramHeader>,
    upto: nat,
    info: BootInfo,
) -> Seq<u8>
    decreases upto,
{
    if upto == 0 {
        mem
    } else {
        let before = loaded(mem, image, phdrs, (upto - 1) as nat, info);
        let seg = phdrs[upto - 1];
        if seg.progtype != PT_LOAD {
            before
        } else {
            let placed = segment_placed(before, image, seg);
            match first_load(phdrs, (upto - 1) as nat) {
                Some(first) => size_added(placed, first.paddr as int, seg.memsz),
                None => boot_info_stored(
                    size_added(placed, seg.paddr as int, seg.memsz),
                    seg.paddr as int,
                    info,
                ),
            }
        }
    }
}

/// Whether a segment lies inside the image and goes to backed memory.
pub open spec fn segment_fits(len: nat, image_len: nat, seg: ProgramHeader) -> bool {
    &&& seg.filesz <= seg.memsz
    &&& seg.offset + seg.filesz <= image_len
    &&& backed(len, seg.paddr as int, seg.memsz as int)
}

/// Whether the first `upto` program headers can be loaded: every loadable
/// segment fits, and the boot information block at the first of them is
/// backed.
pub open spec fn segments_fit(
    phdrs: Seq<ProgramHeader>,
    upto: nat,
    len: nat,
    image_len: nat,
) -> bool
    decreases upto,
{
    if upto == 0 {
        true
    } else {
        let seg = phdrs[upto - 1];
        &&& segments_fit(phdrs, (upto - 1) as nat, len, image_len)
        &&& seg.progtype == PT_LOAD ==> {
            &&& segment_fits(len, image_len, seg)
            &&& first_load(phdrs, (upto - 1) as nat) is None ==> backed(
                len,
                seg.paddr as int,
                BOOT_INFO_LEN as int,
            )
        }
    }
}

/// Whether an image is a kernel for this machine: a 64-bit executable for
/// x86-64 with the unikernel mark.
pub open spec fn is_kernel(elf: ElfHeaders) -> bool {
    &&& elf.ehdr.class == ELFCLASS64
    &&& elf.ehdr.osabi == OSABI_UNIKERNEL
    &&& elf.ehdr.elftype == ET_EXEC
    &&& elf.ehdr.machine == EM_X86_64
}

/// Whether an image with the given headers can be loaded into a memory of
/// `len` bytes.
pub open spec fn loadable(elf: ElfHeaders, len: nat, image_len: nat) -> bool {
    is_kernel(elf) && segments_fit(elf.phdrs, elf.phdrs.len(), len, image_len)
}

/// The address of the kernel's log for an image loaded at `base`, where it
/// can be told.
pub open spec fn klog_of(base: Option<u64>) -> Option<u64> {
    match base {
        Some(b) => b.checked_add(KLOG_OFFSET),
        None => None,
    }
}

/// The start address of a segment, where there is one.
pub open spec fn start_of(seg: Option<ProgramHeader>) -> Option<u64> {
    match seg {
        Some(s) => Some(s.paddr),
        None => None,
    }
}

/// The boot values for a machine with the given network addresses.
pub open spec fn boot_info_of(
    ip: Option<[u8; 4]>,
    gateway: Option<[u8; 4]>,
    mask: Option<[u8; 4]>,
    boot: BootParams,
) -> BootInfo {
    BootInfo {
        cpu_freq: boot.cpu_freq,
        verbose: boot.verbose,
        ip,
        gateway,
        mask,
        host_base: boot.host_base,
    }
}

fn store_octets(mem: &mut GuestMemory, at: u64, octets: &Option<[u8; 4]>)
    requires
        backed(old(mem)@.len(), at as int, 4),
    ensures
        final(mem)@ == octets_stored(old(mem)@, at as int, *octets),
{
    match octets {
        Some(a) => {
            mem.write_bytes(at, array_as_slice(a));
        },
        None => {},
    }
}

fn store_boot_info(mem: &mut GuestMemory, base: u64, info: &BootInfo)
    requires
        backed(old(mem)@.len(), base as int, BOOT_INFO_LEN as int),
    ensures
        final(mem)@ == boot_info_stored(old(mem)@, base as int, *info),
{
    let len: u64 = mem.size() as u64;
    let ghost n = mem@.len();
    proof {
        lemma_backed_within(n, base as int, BOOT_INFO_LEN as int, base + BOOT_PHYS_START, 8);
        lemma_backed_within(n, base as int, BOOT_INFO_LEN as int, base + BOOT_PHYS_LIMIT, 8);
        lemma_backed_within(n, base as int, BOOT_INFO_LEN as int, base + BOOT_CPU_FREQ, 4);
        lemma_backed_within(n, base as int, BOOT_INFO_LEN as int, base + BOOT_CPUS, 4);
        lemma_backed_within(n, base as int, BOOT_INFO_LEN as int, base + BOOT_APIC_ID, 4);
        lemma_backed_within(n, base as int, BOOT_INFO_LEN as int, base + BOOT_NUMA_NODES, 4);
        lemma_backed_within(n, base as int, BOOT_INFO_LEN as int, base + BOOT_MONITOR, 4);
        lemma_backed_within(n, base as int, BOOT_INFO_LEN as int, base + BOOT_UART, 8);
        lemma_backed_within(n, base as int, BOOT_INFO_LEN as int, base + BOOT_IP, 4);
        lemma_backed_within(n, base as int, BOOT_INFO_LEN as int, base + BOOT_GATEWAY, 4);
        lemma_backed_within(n, base as int, BOOT_INFO_LEN as int, base + BOOT_MASK, 4);
        lemma_backed_within(n, base as int, BOOT_INFO_LEN as int, base + BOOT_HOST_BASE, 8);
    }
    mem.write_u64(base + BOOT_PHYS_START, base);
    mem.write_u64(base + BOOT_PHYS_LIMIT, len);
    mem.write_u32(base + BOOT_CPU_FREQ, info.cpu_freq);
    mem.write_u32(base + BOOT_CPUS, 1);
    mem.write_u32(base + BOOT_APIC_ID, 0);
    mem.write_u32(base + BOOT_NUMA_NODES, 1);
    mem.write_u32(base + BOOT_MONITOR, 1);
    if info.verbose {
        mem.write_u64(base + BOOT_UART, PORT_UART);
    }
    store_octets(mem, base + BOOT_IP, &info.ip);
    store_octets(mem, base + BOOT_GATEWAY, &info.gateway);
    store_octets(mem, base + BOOT_MASK, &info.mask);
    mem.write_u64(base + BOOT_HOST_BASE, info.host_base);
}

fn add_size(mem: &mut GuestMemory, base: u64, memsz: u64)
    requires
        backed(old(mem)@.len(), base as int, BOOT_INFO_LEN as int),
    ensures
        final(mem)@ == size_added(old(mem)@, base as int, memsz),
{
    proof {
        lemma_backed_within(
            mem@.len(),
            base as int,
            BOOT_INFO_LEN as int,
            base + BOOT_IMAGE_SIZE,
            8,
        );
    }
    let at: u64 = base + BOOT_IMAGE_SIZE;
    let size: u64 = match mem.read_u64(at) {
        Some(v) => v,
        None => 0,
    };
    mem.write_u64(at, size.wrapping_add(memsz));
}

fn place_segment(mem: &mut GuestMemory, image: &[u8], seg: &ProgramHeader)
    requires
        segment_fits(old(mem)@.len(), image@.len(), *seg),
    ensures
        final(mem)@ == segment_placed(old(mem)@, image@, *seg),
{
    let ghost n = mem@.len();
    let image_len: usize = image.len();
    proof {
        lemma_backed_within(n, seg.paddr as int, seg.memsz as int, seg.paddr as int, seg.filesz as int);
        lemma_backed_within(
            n,
            seg.paddr as int,
            seg.memsz as int,
            seg.paddr + seg.filesz,
            seg.memsz - seg.filesz,
        );
    }
    let from: usize = seg.offset as usize;
    let to: usize = (seg.offset + seg.filesz) as usize;
    mem.write_bytes(seg.paddr, slice_subrange(image, from, to));
    mem.fill(seg.paddr + seg.filesz, seg.memsz - seg.filesz, 0);
}

/// Whether every loadable segment fits the image and the memory.
fn check_segments(phdrs: &Vec<ProgramHeader>, len: usize, image_len: usize, mem: &GuestMemory) -> (ok: bool)
    requires
        len == mem@.len(),
    ensures
        ok == segments_fit(phdrs@, phdrs@.len(), len as nat, image_len as nat),
{
    let mut seen_load = false;
    let mut i: usize = 0;
    while i < phdrs.len()
        invariant
            i <= phdrs@.len(),
            len == mem@.len(),
            segments_fit(phdrs@, i as nat, len as nat, image_len as nat),
            seen_load == first_load(phdrs@, i as nat) is Some,
        decreases phdrs@.len() - i,
    {
        let seg = phdrs[i];
        if seg.progtype == PT_LOAD {
            let inside = seg.filesz <= seg.memsz && seg.offset <= image_len as u64 && seg.filesz
                <= image_len as u64 - seg.offset;
            let fits = inside && mem.is_backed(seg.paddr, seg.memsz) && (seen_load
                || mem.is_backed(seg.paddr, BOOT_INFO_LEN));
            if !fits {
                assert(!segments_fit(phdrs@, (i + 1) as nat, len as nat, image_len as nat));
                proof {
                    lemma_unfit_stays(phdrs@, (i + 1) as nat, phdrs@.len(), len as nat, image_len as nat);
                }
                return false;
            }
            seen_load = true;
        }
        i = i + 1;
    }
    true
}

/// Program headers that cannot be loaded cannot be loaded with more headers
/// after them.
proof fn lemma_unfit_stays(
    phdrs: Seq<ProgramHeader>,
    upto: nat,
    all: nat,
    len: nat,
    image_len: nat,
)
    requires
        upto <= all,
        !segments_fit(phdrs, upto, len, image_len),
    ensures
        !segments_fit(phdrs, all, len, image_len),
    decreases all - upto,
{
    if upto < all {
        lemma_unfit_stays(phdrs, upto, (all - 1) as nat, len, image_len);
    }
}

/// Places every loadable segment and fills in the boot information block.
/// Returns where the first segment went.
fn place_segments(
    mem: &mut GuestMemory,
    phdrs: &Vec<ProgramHeader>,
    image: &[u8],
    info: &BootInfo,
) -> (base: Option<u64>)
    requires
        segments_fit(phdrs@, phdrs@.len(), old(mem)@.len(), image@.len()),
    ensures
        final(mem)@ == loaded(old(mem)@, image@, phdrs@, phdrs@.len(), *info),
        base == start_of(first_load(phdrs@, phdrs@.len())),
{
    let ghost start = mem@;
    let mut base: Option<u64> = None;
    let mut i: usize = 0;
    while i < phdrs.len()
        invariant
            i <= phdrs@.len(),
            segments_fit(phdrs@, phdrs@.len(), start.len(), image@.len()),
            mem@ == loaded(start, image@, phdrs@, i as nat, *info),
            mem@.len() == start.len(),
            base == start_of(first_load(phdrs@, i as nat)),
            base matches Some(b) ==> backed(start.len(), b as int, BOOT_INFO_LEN as int),
        decreases phdrs@.len() - i,
    {
        let seg = phdrs[i];
        proof {
            lemma_fit_before(phdrs@, (i + 1) as nat, phdrs@.len(), start.len(), image@.len());
        }
        if seg.progtype == PT_LOAD {
            place_segment(mem, image, &seg);
            match base {
                Some(b) => {
                    add_size(mem, b, seg.memsz);
                },
                None => {
                    add_size(mem, seg.paddr, seg.memsz);
                    store_boot_info(mem, seg.paddr, info);
                    base = Some(seg.paddr);
                },
            }
        }
        i = i + 1;
    }
    base
}

/// Program headers that can be loaded can be loaded without the last of
/// them.
proof fn lemma_fit_before(
    phdrs: Seq<ProgramHeader>,
    upto: nat,
    all: nat,
    len: nat,
    image_len: nat,
)
    requires
        upto <= all,
        segments_fit(phdrs, all, len, image_len),
    ensures
        segments_fit(phdrs, upto, len, image_len),
    decreases all - upto,
{
    if upto < all {
        lemma_fit_before(phdrs, upto, (all - 1) as nat, len, image_len);
    }
}

/// Whether `after` is `before` with the kernel of the given headers loaded.
pub open spec fn kernel_loaded(
    before: VirtualMachine,
    after: VirtualMachine,
    elf: ElfHeaders,
    image: Seq<u8>,
    boot: BootParams,
) -> bool {
    let info = boot_info_of(
        before.additional.ip,
        before.additional.gateway,
        before.additional.mask,
        boot,
    );
    let base = start_of(first_load(elf.phdrs, elf.phdrs.len()));
    &&& after.mem@ == loaded(before.mem@, image, elf.phdrs, elf.phdrs.len(), info)
    &&& after.elf_entry == Some(elf.ehdr.entry)
    &&& after.mboot == if base is Some {
        base
    } else {
        before.mboot
    }
    &&& after.klog == if base is Some {
        klog_of(base)
    } else {
        before.klog
    }
    &&& after.vcpus == before.vcpus
    &&& after.num_cpus == before.num_cpus
    &&& after.control == before.control
    &&& after.extensions == before.extensions
    &&& after.additional == before.additional
    &&& after.checkpoint_num == before.checkpoint_num
}

/// Whether `e` reports the file at `path` as invalid.
pub open spec fn is_invalid_file(e: Error, path: Seq<char>) -> bool {
    e matches Error::InvalidFile(p) && p@ == path
}

fn invalid_file(path: &str) -> (e: Error)
    ensures
        is_invalid_file(e, path@),
{
    Error::InvalidFile(path.to_owned())
}

impl VirtualMachine {
    /// Loads the kernel whose headers are `elf` and whose file is `image`.
    ///
    /// Every loadable segment is copied to its physical address and padded
    /// with zeros to its size in memory, in the order of the program
    /// headers. The boot information block at the start of the first one is
    /// filled in. Fails with `InvalidFile(path)`, and changes nothing, where
    /// the headers are not those of a kernel for this machine or a segment
    /// does not fit the image or the memory.
    pub fn load_image(&mut self, path: &str, elf: &ElfFile, image: &[u8], boot: &BootParams) -> (r:
        Result<(), Error>)
        ensures
            r is Ok <==> loadable(elf@, old(self).mem@.len(), image@.len()),
            r is Ok ==> kernel_loaded(*old(self), *final(self), elf@, image@, *boot),
            r matches Err(e) ==> is_invalid_file(e, path@) && *final(self) == *old(self),
    {
        let len = self.mem.size();
        let kernel = elf.ehdr.class == ELFCLASS64 && elf.ehdr.osabi == OSABI_UNIKERNEL
            && elf.ehdr.elftype == ET_EXEC && elf.ehdr.machine == EM_X86_64;
        if !kernel || !check_segments(&elf.phdrs, len, image.len(), &self.mem) {
            return Err(invalid_file(path));
        }
        let info = BootInfo {
            cpu_freq: boot.cpu_freq,
            verbose: boot.verbose,
            ip: self.additional.ip,
            gateway: self.additional.gateway,
            mask: self.additional.mask,
            host_base: boot.host_base,
        };
        let base = place_segments(&mut self.mem, &elf.phdrs, image, &info);
        self.elf_entry = Some(elf.ehdr.entry);
        match base {
            Some(b) => {
                self.mboot = Some(b);
                self.klog = b.checked_add(KLOG_OFFSET);
            },
            None => {},
        }
        Ok(())
    }

    /// Loads the kernel in the file `image`, which was read from `path`.
    ///
    /// Does what `load_image` does with the headers of the image. Fails with
    /// `InvalidFile(path)`, and changes nothing, also where the image has no
    /// headers.
    pub fn load_kernel(&mut self, path: &str, image: &[u8], boot: &BootParams) -> (r: Result<
        (),
        Error,
    >)
        ensures
            r is Ok <==> (headers_of(image@) matches Some(elf) && loadable(
                elf,
                old(self).mem@.len(),
                image@.len(),
            )),
            r is Ok ==> kernel_loaded(
                *old(self),
                *final(self),
                headers_of(image@).unwrap(),
                image@,
                *boot,
            ),
            r matches Err(e) ==> is_invalid_file(e, path@) && *final(self) == *old(self),
    {
        match read_headers(image) {
            Some(elf) => self.load_image(path, &elf, image, boot),
            None => Err(invalid_file(path)),
        }
    }
}

/// Whether the boot information block at `base` holds the values of `info`
/// for an image loaded at `base` into a memory of `limit` bytes.
pub open spec fn boot_info_holds(mem: Seq<u8>, base: int, info: BootInfo, limit: u64) -> bool {
    &&& word_at(mem, base + BOOT_PHYS_START) == base
    &&& word_at(mem, base + BOOT_PHYS_LIMIT) == limit
    &&& dword_at(mem, base + BOOT_CPU_FREQ) == info.cpu_freq
    &&& dword_at(mem, base + BOOT_CPUS) == 1
    &&& dword_at(mem, base + BOOT_APIC_ID) == 0
    &&& dword_at(mem, base + BOOT_NUMA_NODES) == 1
    &&& dword_at(mem, base + BOOT_MONITOR) == 1
    &&& info.verbose ==> word_at(mem, base + BOOT_UART) == PORT_UART
    &&& info.ip matches Some(a) ==> mem.subrange(base + BOOT_IP, base + BOOT_IP + 4) == a@
    &&& info.gateway matches Some(a) ==> mem.subrange(base + BOOT_GATEWAY, base + BOOT_GATEWAY + 4)
        == a@
    &&& info.mask matches Some(a) ==> mem.subrange(base + BOOT_MASK, base + BOOT_MASK + 4) == a@
    &&& word_at(mem, base + BOOT_HOST_BASE) == info.host_base
}

/// The values of a boot information block are kept by a store that reaches
/// none of its bytes but, at most, those of the image size.
pub proof fn lemma_boot_info_kept(
    mem: Seq<u8>,
    at: int,
    data: Seq<u8>,
    base: int,
    info: BootInfo,
    limit: u64,
)
    requires
        0 <= base,
        base + BOOT_INFO_LEN <= mem.len(),
        boot_info_holds(mem, base, info, limit),
        at + data.len() <= base || base + BOOT_INFO_LEN <= at || (base + BOOT_IMAGE_SIZE <= at
            && at + data.len() <= base + BOOT_IMAGE_SIZE + 8),
    ensures
        boot_info_holds(patched(mem, at, data), base, info, limit),
{
    let m = patched(mem, at, data);
    lemma_word_kept(mem, at, data, base + BOOT_PHYS_START);
    lemma_word_kept(mem, at, data, base + BOOT_PHYS_LIMIT);
    lemma_dword_kept(mem, at, data, base + BOOT_CPU_FREQ);
    lemma_dword_kept(mem, at, data, base + BOOT_CPUS);
    lemma_dword_kept(mem, at, data, base + BOOT_APIC_ID);
    lemma_dword_kept(mem, at, data, base + BOOT_NUMA_NODES);
    lemma_dword_kept(mem, at, data, base + BOOT_MONITOR);
    lemma_word_kept(mem, at, data, base + BOOT_UART);
    lemma_patched_bytes(mem, at, data, base + BOOT_IP, base + BOOT_IP + 4);
    lemma_patched_bytes(mem, at, data, base + BOOT_GATEWAY, base + BOOT_GATEWAY + 4);
    lemma_patched_bytes(mem, at, data, base + BOOT_MASK, base + BOOT_MASK + 4);
    lemma_word_kept(mem, at, data, base + BOOT_HOST_BASE);
}

/// A boot information block that was filled in reads back as the values it
/// was filled with.
pub proof fn lemma_boot_info_reads_back(mem: Seq<u8>, base: int, info: BootInfo)
    requires
        0 <= base,
        base + BOOT_INFO_LEN <= mem.len(),
        mem.len() <= u64::MAX,
    ensures
        boot_info_stored(mem, base, info).len() == mem.len(),
        boot_info_holds(boot_info_stored(mem, base, info), base, info, mem.len() as u64),
{
    vstd::bytes::lemma_auto_spec_u32_to_from_le_bytes();
    vstd::bytes::lemma_auto_spec_u64_to_from_le_bytes();
    broadcast use vstd::array::array_len_matches_n;

    let m1 = patched(mem, base + BOOT_PHYS_START, spec_u64_to_le_bytes(base as u64));
    let m2 = patched(m1, base + BOOT_PHYS_LIMIT, spec_u64_to_le_bytes(mem.len() as u64));
    let m3 = patched(m2, base + BOOT_CPU_FREQ, spec_u32_to_le_bytes(info.cpu_freq));
    let m4 = patched(m3, base + BOOT_CPUS, spec_u32_to_le_bytes(1));
    let m5 = patched(m4, base + BOOT_APIC_ID, spec_u32_to_le_bytes(0));
    let m6 = patched(m5, base + BOOT_NUMA_NODES, spec_u32_to_le_bytes(1));
    let m7 = patched(m6, base + BOOT_MONITOR, spec_u32_to_le_bytes(1));
    let m8 = if info.verbose {
        patched(m7, base + BOOT_UART, spec_u64_to_le_bytes(PORT_UART))
    } else {
        m7
    };
    let m9 = octets_stored(m8, base + BOOT_IP, info.ip);
    let m10 = octets_stored(m9, base + BOOT_GATEWAY, info.gateway);
    let m11 = octets_stored(m10, base + BOOT_MASK, info.mask);
    let m12 = patched(m11, base + BOOT_HOST_BASE, spec_u64_to_le_bytes(info.host_base));

    lemma_word_stored(mem, base + BOOT_PHYS_START, base as u64);
    lemma_patched_keeps(mem, base + BOOT_PHYS_START, spec_u64_to_le_bytes(base as u64));
    lemma_word_stored(m1, base + BOOT_PHYS_LIMIT, mem.len() as u64);
    lemma_patched_keeps(m1, base + BOOT_PHYS_LIMIT, spec_u64_to_le_bytes(mem.len() as u64));
    lemma_dword_stored(m2, base + BOOT_CPU_FREQ, info.cpu_freq);
    lemma_patched_keeps(m2, base + BOOT_CPU_FREQ, spec_u32_to_le_bytes(info.cpu_freq));
    lemma_dword_stored(m3, base + BOOT_CPUS, 1);
    lemma_patched_keeps(m3, base + BOOT_CPUS, spec_u32_to_le_bytes(1));
    lemma_dword_stored(m4, base + BOOT_APIC_ID, 0);
    lemma_patched_keeps(m4, base + BOOT_APIC_ID, spec_u32_to_le_bytes(0));
    lemma_dword_stored(m5, base + BOOT_NUMA_NODES, 1);
    lemma_patched_keeps(m5, base + BOOT_NUMA_NODES, spec_u32_to_le_bytes(1));
    lemma_dword_stored(m6, base + BOOT_MONITOR, 1);
    lemma_patched_keeps(m6, base + BOOT_MONITOR, spec_u32_to_le_bytes(1));
    if info.verbose {
        lemma_word_stored(m7, base + BOOT_UART, PORT_UART);
        lemma_patched_keeps(m7, base + BOOT_UART, spec_u64_to_le_bytes(PORT_UART));
    }
    lemma_octets_stored(m8, base + BOOT_IP, info.ip);
    lemma_octets_stored(m9, base + BOOT_GATEWAY, info.gateway);
    lemma_octets_stored(m10, base + BOOT_MASK, info.mask);
    lemma_word_stored(m11, base + BOOT_HOST_BASE, info.host_base);
    lemma_patched_keeps(m11, base + BOOT_HOST_BASE, spec_u64_to_le_bytes(info.host_base));
}

/// What storing four octets, or none, changes: the octets read back, and
/// what lies outside them is kept.
proof fn lemma_octets_stored(mem: Seq<u8>, at: int, octets: Option<[u8; 4]>)
    requires
        0 <= at,
        at + 4 <= mem.len(),
    ensures
        ({
            let m = octets_stored(mem, at, octets);
            &&& m.len() == mem.len()
            &&& octets matches Some(a) ==> m.subrange(at, at + 4) == a@
            &&& forall|a: int|
                0 <= a && a + 8 <= mem.len() && (a + 8 <= at || at + 4 <= a) ==> #[trigger] word_at(
                    m,
                    a,
                ) == word_at(mem, a)
            &&& forall|a: int|
                0 <= a && a + 4 <= mem.len() && (a + 4 <= at || at + 4 <= a)
                    ==> #[trigger] dword_at(m, a) == dword_at(mem, a)
            &&& forall|a: int, b: int|
                0 <= a <= b <= mem.len() && (b <= at || at + 4 <= a) ==> #[trigger] m.subrange(a, b)
                    == mem.subrange(a, b)
        }),
{
    broadcast use vstd::array::array_len_matches_n;

    match octets {
        Some(a) => {
            lemma_patched_keeps(mem, at, a@);
            lemma_patched_bytes(mem, at, a@, at, at + 4);
            assert(a@.subrange(0, 4) == a@);
        },
        None => {},
    }
}

/// Whether no loadable segment among the first `upto` program headers, but
/// the first one, reaches the boot information block of the first one.
pub open spec fn boot_info_untouched(phdrs: Seq<ProgramHeader>, upto: nat) -> bool
    decreases upto,
{
    if upto == 0 {
        true
    } else {
        let seg = phdrs[upto - 1];
        &&& boot_info_untouched(phdrs, (upto - 1) as nat)
        &&& seg.progtype == PT_LOAD ==> (first_load(phdrs, (upto - 1) as nat) matches Some(first)
            ==> seg.paddr + seg.memsz <= first.paddr || first.paddr + BOOT_INFO_LEN <= seg.paddr)
    }
}

/// After a kernel was loaded, the boot information block reads back as the
/// values it was filled with, provided that no later segment was loaded
/// over it.
pub proof fn lemma_loaded_boot_info(
    mem: Seq<u8>,
    image: Seq<u8>,
    phdrs: Seq<ProgramHeader>,
    upto: nat,
    info: BootInfo,
)
    requires
        upto <= phdrs.len(),
        mem.len() <= u64::MAX,
        segments_fit(phdrs, upto, mem.len(), image.len()),
        boot_info_untouched(phdrs, upto),
    ensures
        loaded(mem, image, phdrs, upto, info).len() == mem.len(),
        first_load(phdrs, upto) matches Some(first) ==> {
            &&& first.paddr + BOOT_INFO_LEN <= mem.len()
            &&& boot_info_holds(
                loaded(mem, image, phdrs, upto, info),
                first.paddr as int,
                info,
                mem.len() as u64,
            )
        },
    decreases upto,
{
    if upto > 0 {
        lemma_loaded_boot_info(mem, image, phdrs, (upto - 1) as nat, info);
        let before = loaded(mem, image, phdrs, (upto - 1) as nat, info);
        let seg = phdrs[upto - 1];
        if seg.progtype == PT_LOAD {
            let bytes = image.subrange(seg.offset as int, seg.offset + seg.filesz);
            let zeros = run_of((seg.memsz - seg.filesz) as nat, 0);
            let copied = patched(before, seg.paddr as int, bytes);
            let placed = patched(copied, seg.paddr + seg.filesz, zeros);
            assert(placed == segment_placed(before, image, seg));
            vstd::bytes::lemma_auto_spec_u64_to_from_le_bytes();
            match first_load(phdrs, (upto - 1) as nat) {
                Some(first) => {
                    let limit = mem.len() as u64;
                    lemma_boot_info_kept(before, seg.paddr as int, bytes, first.paddr as int, info, limit);
                    lemma_boot_info_kept(
                        copied,
                        seg.paddr + seg.filesz,
                        zeros,
                        first.paddr as int,
                        info,
                        limit,
                    );
                    let size = spec_u64_to_le_bytes(
                        word_at(placed, first.paddr + BOOT_IMAGE_SIZE).wrapping_add(seg.memsz),
                    );
                    lemma_boot_info_kept(
                        placed,
                        first.paddr + BOOT_IMAGE_SIZE,
                        size,
                        first.paddr as int,
                        info,
                        limit,
                    );
                },
                None => {
                    lemma_boot_info_reads_back(
                        size_added(placed, seg.paddr as int, seg.memsz),
                        seg.paddr as int,
                        info,
                    );
                },
            }
        }
    }
}

/// An image whose file header is not that of a 64-bit x86-64 executable with
/// the unikernel mark cannot be loaded, whatever its segments are.
pub proof fn lemma_wrong_header_rejected(elf: ElfHeaders, len: nat, image_len: nat)
    requires
        elf.ehdr.class != ELFCLASS64 || elf.ehdr.osabi != OSABI_UNIKERNEL || elf.ehdr.elftype
            != ET_EXEC || elf.ehdr.machine != EM_X86_64,
    ensures
        !loadable(elf, len, image_len),
{
}

} // verus!
