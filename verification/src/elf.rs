//! The headers of a kernel image, as the ELF parser yields them.

use vstd::prelude::*;
use vstd::slice::slice_to_vec;

verus! {

/// Class byte of a 64-bit image.
pub const ELFCLASS64: u8 = 2;

/// Encoding byte of an image with little-endian fields.
pub const ELFDATA2LSB: u8 = 1;

/// Encoding byte of an image with big-endian fields.
pub const ELFDATA2MSB: u8 = 2;

/// OS/ABI byte that marks a unikernel image.
pub const OSABI_UNIKERNEL: u8 = 0x42;

/// File type of an executable.
pub const ET_EXEC: u16 = 2;

/// Machine of an x86-64 image.
pub const EM_X86_64: u16 = 62;

/// Type of a program header whose segment is loaded.
pub const PT_LOAD: u32 = 1;

/// Length of the file header of a 64-bit image.
pub const HEADER_LEN: usize = 64;

/// Offset of the section count in the file header of a 64-bit image.
pub const SECTION_COUNT_AT: usize = 60;

/// What the loader reads of a file header.
#[derive(Debug, Clone, Copy, PartialEq, Eq, Structural)]
pub struct FileHeader {
    pub class: u8,
    pub osabi: u8,
    pub elftype: u16,
    pub machine: u16,
    pub entry: u64,
}

/// What the loader reads of a program header.
#[derive(Debug, Clone, Copy, PartialEq, Eq, Structural)]
pub struct ProgramHeader {
    pub progtype: u32,
    pub offset: u64,
    pub paddr: u64,
    pub filesz: u64,
    pub memsz: u64,
}

/// The headers of one image.
#[derive(Debug, Clone)]
pub struct ElfFile {
    pub ehdr: FileHeader,
    pub phdrs: Vec<ProgramHeader>,
}

/// `ElfFile` with its program headers as a sequence.
pub struct ElfHeaders {
    pub ehdr: FileHeader,
    pub phdrs: Seq<ProgramHeader>,
}

impl View for ElfFile {
    type V = ElfHeaders;

    open spec fn view(&self) -> ElfHeaders {
        ElfHeaders { ehdr: self.ehdr, phdrs: self.phdrs@ }
    }
}

/// What `elf::File::open_stream` makes of the bytes of an image: its file
/// header and program headers, or nothing where it reports an error.
pub uninterp spec fn parsed(image: Seq<u8>) -> Option<ElfHeaders>;

/// Whether an image starts like a 64-bit ELF file in a known byte order.
pub open spec fn identified(image: Seq<u8>) -> bool {
    &&& image.len() >= HEADER_LEN
    &&& image[0] == 0x7f
    &&& image[1] == 0x45
    &&& image[2] == 0x4c
    &&& image[3] == 0x46
    &&& image[4] == ELFCLASS64
    &&& (image[5] == ELFDATA2LSB || image[5] == ELFDATA2MSB)
}

/// An image with its section count set to zero.
pub open spec fn without_sections(image: Seq<u8>) -> Seq<u8> {
    image.update(SECTION_COUNT_AT as int, 0).update(SECTION_COUNT_AT + 1, 0)
}

/// The headers of an image: those of an identified image, parsed without its
/// sections.
pub open spec fn headers_of(image: Seq<u8>) -> Option<ElfHeaders> {
    if identified(image) {
        parsed(without_sections(image))
    } else {
        None
    }
}

/// `elf::File::open_stream` on a cursor over `image`, with the fields that
/// the loader reads copied out of the result.
///
/// The parser panics on an unknown byte order, and on a section table that
/// is malformed or larger than memory. An identified image with no sections
/// has a byte order and makes the parser read nothing beyond the program
/// headers.
#[verifier::external_body]
fn open_stream(image: &[u8]) -> (r: Option<ElfFile>)
    requires
        identified(image@),
        image@[SECTION_COUNT_AT as int] == 0,
        image@[SECTION_COUNT_AT + 1] == 0,
    ensures
        match r {
            Some(f) => parsed(image@) == Some(f@),
            None => parsed(image@) is None,
        },
{
    let f = elf::File::open_stream(&mut std::io::Cursor::new(image)).ok()?;
    let h = f.ehdr;
    Some(ElfFile {
        ehdr: FileHeader { class: h.class.0, osabi: h.osabi.0, elftype: h.elftype.0, machine: h.machine.0, entry: h.entry },
        phdrs: f.phdrs.iter().map(|p| ProgramHeader { progtype: p.progtype.0, offset: p.offset, paddr: p.paddr, filesz: p.filesz, memsz: p.memsz }).collect(),
    })
}

/// Whether `image` starts like a 64-bit ELF file in a known byte order.
pub fn is_identified(image: &[u8]) -> (b: bool)
    ensures
        b == identified(image@),
{
    image.len() >= HEADER_LEN && image[0] == 0x7f && image[1] == 0x45 && image[2] == 0x4c
        && image[3] == 0x46 && image[4] == ELFCLASS64 && (image[5] == ELFDATA2LSB || image[5]
        == ELFDATA2MSB)
}

/// Reads the file header and the program headers of an image.
///
/// The section table is not read: the parser gets a copy of the image that
/// declares no sections. Returns `None` for an image that is not identified
/// or that the parser refuses.
pub fn read_headers(image: &[u8]) -> (r: Option<ElfFile>)
    ensures
        match r {
            Some(f) => headers_of(image@) == Some(f@),
            None => headers_of(image@) is None,
        },
{
    if !is_identified(image) {
        return None;
    }
    let mut copy: Vec<u8> = slice_to_vec(image);
    copy.set(SECTION_COUNT_AT, 0);
    copy.set(SECTION_COUNT_AT + 1, 0);
    assert(copy@ == without_sections(image@));
    open_stream(copy.as_slice())
}

} // verus!
