//! Segment descriptors of the boot descriptor table.

use vstd::prelude::*;

verus! {

/// Index of the null descriptor.
pub const BOOT_NULL: u64 = 0;

/// Index of the code segment descriptor.
pub const BOOT_CODE: u64 = 1;

/// Index of the data segment descriptor.
pub const BOOT_DATA: u64 = 2;

/// Number of descriptors in the boot table.
pub const BOOT_MAX: u64 = 3;

/// Flags of the boot code segment: present, code, readable, 64-bit, page
/// granular.
pub const CODE_FLAGS: u16 = 0xA09B;

/// Flags of the boot data segment: present, data, writable, 32-bit stack,
/// page granular.
pub const DATA_FLAGS: u16 = 0xC093;

/// Limit of the boot segments, in pages.
pub const BOOT_LIMIT: u32 = 0xFFFFF;

/// A segment as the virtual CPU holds it.
#[derive(Debug, Clone, Copy, PartialEq, Eq, Structural)]
pub struct Segment {
    pub base: u64,
    pub limit: u32,
    pub selector: u16,
    pub type_: u8,
    pub present: u8,
    pub dpl: u8,
    pub db: u8,
    pub s: u8,
    pub l: u8,
    pub g: u8,
    pub avl: u8,
    pub unusable: u8,
    pub padding: u8,
}

/// The eight bytes of a descriptor with the given access flags, base and
/// limit, as one number. Bits 8 to 11 of `flags` are not part of a
/// descriptor, nor is a limit beyond 20 bits.
pub open spec fn descriptor(flags: u16, base: u32, limit: u32) -> u64 {
    ((base as u64 & 0xff00_0000u64) << 32) | ((flags as u64 & 0x0000_f0ffu64) << 40) | ((
    limit as u64 & 0x000f_0000u64) << 32) | ((base as u64 & 0x00ff_ffffu64) << 16) | (limit as u64
        & 0x0000_ffffu64)
}

/// The segment that the descriptor `bits` at `index` of a table describes.
pub open spec fn segment_of(bits: u64, index: u8) -> Segment {
    let present = ((bits & 0x0000_8000_0000_0000u64) >> 47) as u8;
    Segment {
        base: ((bits & 0xff00_0000_0000_0000u64) >> 32) | ((bits & 0x0000_00ff_ffff_0000u64)
            >> 16),
        limit: (((bits & 0x000f_0000_0000_0000u64) >> 32) | (bits & 0x0000_0000_0000_ffffu64)) as u32,
        selector: (index as u16 * 8) as u16,
        type_: ((bits & 0x0000_0f00_0000_0000u64) >> 40) as u8,
        present,
        dpl: ((bits & 0x0000_6000_0000_0000u64) >> 45) as u8,
        db: ((bits & 0x0040_0000_0000_0000u64) >> 54) as u8,
        s: ((bits & 0x0000_1000_0000_0000u64) >> 44) as u8,
        l: ((bits & 0x0020_0000_0000_0000u64) >> 53) as u8,
        g: ((bits & 0x0080_0000_0000_0000u64) >> 55) as u8,
        avl: ((bits & 0x0010_0000_0000_0000u64) >> 52) as u8,
        unusable: if present == 0 {
            1
        } else {
            0
        },
        padding: 0,
    }
}

/// One descriptor of a descriptor table.
#[derive(Debug, Clone, Copy, PartialEq, Eq, Structural)]
pub struct Entry {
    bits: u64,
}

impl View for Entry {
    type V = u64;

    closed spec fn view(&self) -> u64 {
        self.bits
    }
}

impl Entry {
    /// The descriptor with the given access flags, base and limit.
    pub fn new(flags: u16, base: u32, limit: u32) -> (e: Entry)
        ensures
            e@ == descriptor(flags, base, limit),
    {
        Entry {
            bits: ((base as u64 & 0xff00_0000u64) << 32) | ((flags as u64 & 0x0000_f0ffu64) << 40)
                | ((limit as u64 & 0x000f_0000u64) << 32) | ((base as u64 & 0x00ff_ffffu64) << 16)
                | (limit as u64 & 0x0000_ffffu64),
        }
    }

    /// The eight bytes of the descriptor as one number.
    pub fn as_u64(&self) -> (bits: u64)
        ensures
            bits == self@,
    {
        self.bits
    }

    /// Sets `seg` to the segment that this descriptor, at `index` of its
    /// table, describes.
    pub fn apply_to_kvm(&self, index: u8, seg: &mut Segment)
        ensures
            *final(seg) == segment_of(self@, index),
    {
        let bits = self.bits;
        let present: u64 = (bits & 0x0000_8000_0000_0000u64) >> 47;
        let dpl: u64 = (bits & 0x0000_6000_0000_0000u64) >> 45;
        let kind: u64 = (bits & 0x0000_0f00_0000_0000u64) >> 40;
        let db: u64 = (bits & 0x0040_0000_0000_0000u64) >> 54;
        let s: u64 = (bits & 0x0000_1000_0000_0000u64) >> 44;
        let l: u64 = (bits & 0x0020_0000_0000_0000u64) >> 53;
        let g: u64 = (bits & 0x0080_0000_0000_0000u64) >> 55;
        let avl: u64 = (bits & 0x0010_0000_0000_0000u64) >> 52;
        let limit: u64 = ((bits & 0x000f_0000_0000_0000u64) >> 32) | (bits
            & 0x0000_0000_0000_ffffu64);
        assert(present <= 1 && dpl <= 3 && kind <= 15 && db <= 1 && s <= 1 && l <= 1 && g <= 1
            && avl <= 1 && limit <= 0xf_ffff) by (bit_vector)
            requires
                present == (bits & 0x0000_8000_0000_0000u64) >> 47,
                dpl == (bits & 0x0000_6000_0000_0000u64) >> 45,
                kind == (bits & 0x0000_0f00_0000_0000u64) >> 40,
                db == (bits & 0x0040_0000_0000_0000u64) >> 54,
                s == (bits & 0x0000_1000_0000_0000u64) >> 44,
                l == (bits & 0x0020_0000_0000_0000u64) >> 53,
                g == (bits & 0x0080_0000_0000_0000u64) >> 55,
                avl == (bits & 0x0010_0000_0000_0000u64) >> 52,
                limit == ((bits & 0x000f_0000_0000_0000u64) >> 32) | (bits
                    & 0x0000_0000_0000_ffffu64),
        ;
        seg.base = ((bits & 0xff00_0000_0000_0000u64) >> 32) | ((bits & 0x0000_00ff_ffff_0000u64)
            >> 16);
        seg.limit = limit as u32;
        seg.selector = index as u16 * 8;
        seg.type_ = kind as u8;
        seg.present = present as u8;
        seg.dpl = dpl as u8;
        seg.db = db as u8;
        seg.s = s as u8;
        seg.l = l as u8;
        seg.g = g as u8;
        seg.avl = avl as u8;
        seg.unusable = if present == 0 {
            1
        } else {
            0
        };
        seg.padding = 0;
    }
}

/// A segment whose fields are all zero.
pub open spec fn zero_segment() -> Segment {
    Segment {
        base: 0,
        limit: 0,
        selector: 0,
        type_: 0,
        present: 0,
        dpl: 0,
        db: 0,
        s: 0,
        l: 0,
        g: 0,
        avl: 0,
        unusable: 0,
        padding: 0,
    }
}

impl Default for Segment {
    fn default() -> (seg: Segment)
        ensures
            seg == zero_segment(),
    {
        Segment {
            base: 0,
            limit: 0,
            selector: 0,
            type_: 0,
            present: 0,
            dpl: 0,
            db: 0,
            s: 0,
            l: 0,
            g: 0,
            avl: 0,
            unusable: 0,
            padding: 0,
        }
    }
}

/// A descriptor describes the segment it was made for: its base, the low 20
/// bits of its limit, and each bit field of its flags.
pub proof fn lemma_descriptor_fields(flags: u16, base: u32, limit: u32, index: u8)
    ensures
        ({
            let seg = segment_of(descriptor(flags, base, limit), index);
            &&& seg.base == base
            &&& seg.limit == limit & 0xf_ffff
            &&& seg.type_ == flags & 0xf
            &&& seg.s == (flags >> 4) & 1
            &&& seg.dpl == (flags >> 5) & 3
            &&& seg.present == (flags >> 7) & 1
            &&& seg.avl == (flags >> 12) & 1
            &&& seg.l == (flags >> 13) & 1
            &&& seg.db == (flags >> 14) & 1
            &&& seg.g == (flags >> 15) & 1
        }),
{
    let bits = descriptor(flags, base, limit);
    assert(({
        let b = ((base as u64 & 0xff00_0000u64) << 32) | ((flags as u64 & 0x0000_f0ffu64) << 40)
            | ((limit as u64 & 0x000f_0000u64) << 32) | ((base as u64 & 0x00ff_ffffu64) << 16) | (
        limit as u64 & 0x0000_ffffu64);
        &&& ((b & 0xff00_0000_0000_0000u64) >> 32) | ((b & 0x0000_00ff_ffff_0000u64) >> 16)
            == base as u64
        &&& (((b & 0x000f_0000_0000_0000u64) >> 32) | (b & 0x0000_0000_0000_ffffu64)) as u32
            == limit & 0xf_ffff
        &&& ((b & 0x0000_0f00_0000_0000u64) >> 40) as u8 == flags & 0xf
        &&& ((b & 0x0000_1000_0000_0000u64) >> 44) as u8 == (flags >> 4) & 1
        &&& ((b & 0x0000_6000_0000_0000u64) >> 45) as u8 == (flags >> 5) & 3
        &&& ((b & 0x0000_8000_0000_0000u64) >> 47) as u8 == (flags >> 7) & 1
        &&& ((b & 0x0010_0000_0000_0000u64) >> 52) as u8 == (flags >> 12) & 1
        &&& ((b & 0x0020_0000_0000_0000u64) >> 53) as u8 == (flags >> 13) & 1
        &&& ((b & 0x0040_0000_0000_0000u64) >> 54) as u8 == (flags >> 14) & 1
        &&& ((b & 0x0080_0000_0000_0000u64) >> 55) as u8 == (flags >> 15) & 1
    })) by (bit_vector);
}

} // verus!
