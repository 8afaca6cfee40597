//! The kernel's log, a NUL-terminated text in guest memory.

use vstd::prelude::*;
use vstd::utf8::{decode_utf8, valid_utf8};
use crate::mem::{backed, GuestMemory};
use crate::vm::VirtualMachine;

verus! {

/// `std::str::from_utf8`: the text that the bytes encode, where they are
/// valid UTF-8, and nothing where they are not.
#[verifier::external_body]
fn text_of(bytes: &[u8]) -> (r: Option<&str>)
    ensures
        r is Some == valid_utf8(bytes@),
        r matches Some(s) ==> s@ == decode_utf8(bytes@),
{
    std::str::from_utf8(bytes).ok()
}

/// The address at which a text that starts at or before `at` ends: that of
/// the first byte from `at` on that is zero or not backed.
pub open spec fn text_end(mem: Seq<u8>, at: int) -> int
    decreases mem.len() - at,
{
    if !backed(mem.len(), at, 1) || mem[at] == 0 {
        at
    } else {
        text_end(mem, at + 1)
    }
}

/// The bytes of the text that starts at `at`.
pub open spec fn text_bytes(mem: Seq<u8>, at: int) -> Seq<u8> {
    if text_end(mem, at) == at {
        Seq::empty()
    } else {
        mem.subrange(at, text_end(mem, at))
    }
}

/// The text at `at`, or the empty text where the bytes there are not valid
/// UTF-8.
pub open spec fn text_at(mem: Seq<u8>, at: int) -> Seq<char> {
    if valid_utf8(text_bytes(mem, at)) {
        decode_utf8(text_bytes(mem, at))
    } else {
        Seq::empty()
    }
}

impl GuestMemory {
    /// The text that starts at `at` and ends before the first byte that is
    /// zero or not backed.
    pub fn text(&self, at: u64) -> (r: String)
        ensures
            r@ == text_at(self@, at as int),
    {
        let len = self.size();
        let mut end: u64 = at;
        loop
            invariant_except_break
                at <= end,
                len == self@.len(),
                text_end(self@, end as int) == text_end(self@, at as int),
                end == at || backed(self@.len(), at as int, end - at),
            ensures
                at <= end,
                end == text_end(self@, at as int),
                end == at || backed(self@.len(), at as int, end - at),
            decreases self@.len() - end,
        {
            match self.read_u8(end) {
                Some(b) => {
                    if b == 0 {
                        break ;
                    }
                },
                None => {
                    break ;
                },
            }
            end = end + 1;
        }
        if end == at {
            assert(decode_utf8(Seq::<u8>::empty()) == Seq::<char>::empty());
            return String::new();
        }
        let bytes: &[u8] = match self.slice(at, end - at) {
            Some(bytes) => bytes,
            None => {
                return String::new();
            },
        };
        match text_of(bytes) {
            Some(s) => s.to_owned(),
            None => String::new(),
        }
    }
}

impl VirtualMachine {
    /// What the kernel has logged so far: the text at the address of its
    /// log, or the empty text where that address is not known or the bytes
    /// there are not valid UTF-8.
    pub fn output(&self) -> (r: String)
        ensures
            r@ == match self.klog {
                Some(at) => text_at(self.mem@, at as int),
                None => Seq::empty(),
            },
    {
        match self.klog {
            Some(at) => self.mem.text(at),
            None => String::new(),
        }
    }
}

} // verus!
