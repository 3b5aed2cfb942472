//! Walks over a buffer of raw code, in which instructions of two and of four
//! bytes are mixed.
//!
//! How long an instruction is, and what it decodes to, is decided by the
//! surrounding toolchain: each step takes the length classifier, and the
//! decoding walk the decoder as well, as a function value.

use vstd::prelude::*;
use crate::le::{le_u16, le_u32, read_u16, read_u32};
use crate::{is_decoder, is_length_classifier, DecodingError};

verus! {

/// The halfword that starts at `at`.
pub open spec fn halfword_at(buffer: Seq<u8>, at: int) -> u16 {
    le_u16(buffer.subrange(at, at + 2))
}

/// The raw instruction of `length` bytes that starts at `at`: a halfword,
/// widened, or a full word.
pub open spec fn raw_instruction_at(buffer: Seq<u8>, at: int, length: int) -> u32 {
    if length == 2 {
        halfword_at(buffer, at) as u32
    } else {
        le_u32(buffer.subrange(at, at + 4))
    }
}

/// Yields the address of each instruction in a buffer, in ascending order.
pub struct LocationIter<'a> {
    memory_view: &'a [u8],
    address: u64,
    current_index: usize,
}

impl<'a> LocationIter<'a> {
    /// The bytes that the walk goes over.
    pub closed spec fn buffer(&self) -> Seq<u8> {
        self.memory_view@
    }

    /// The address of the first byte of the buffer.
    pub closed spec fn base(&self) -> u64 {
        self.address
    }

    /// The offset in the buffer of the next instruction.
    pub closed spec fn cursor(&self) -> nat {
        self.current_index as nat
    }

    /// The cursor is inside the buffer or at its end, and every address of
    /// the buffer is representable.
    pub open spec fn wf(&self) -> bool {
        &&& self.base() + self.buffer().len() <= u64::MAX
        &&& self.cursor() <= self.buffer().len()
    }

    /// A walk from the start of `memory_view`, whose first byte has the
    /// address `address`.
    pub fn new(memory_view: &'a [u8], address: u64) -> (r: Self)
        requires
            address + memory_view@.len() <= u64::MAX,
        ensures
            r.wf(),
            r.buffer() == memory_view@,
            r.base() == address,
            r.cursor() == 0,
    {
        LocationIter { memory_view, address, current_index: 0 }
    }

    /// Yields the address of the instruction at the cursor and moves the
    /// cursor past it, by the length that `length` gives for its first
    /// halfword, though never past the end of the buffer. Yields nothing once
    /// no halfword is left.
    pub fn next<L: Fn(u16) -> usize>(&mut self, length: L) -> (r: Option<u64>)
        requires
            old(self).wf(),
            is_length_classifier(length),
        ensures
            final(self).wf(),
            final(self).buffer() == old(self).buffer(),
            final(self).base() == old(self).base(),
            old(self).cursor() + 2 > old(self).buffer().len() ==> r is None && final(self).cursor()
                == old(self).cursor(),
            old(self).cursor() + 2 <= old(self).buffer().len() ==> {
                &&& r == Some((old(self).base() + old(self).cursor()) as u64)
                &&& final(self).cursor() > old(self).cursor()
                &&& exists|n: usize|
                    {
                        &&& length.ensures(
                            (halfword_at(old(self).buffer(), old(self).cursor() as int),),
                            n,
                        )
                        &&& final(self).cursor() == vstd::math::min(
                            old(self).cursor() + n,
                            old(self).buffer().len() as int,
                        )
                    }
            },
    {
        let len = self.memory_view.len();
        let at = self.current_index;
        if len - at < 2 {
            return None;
        }
        let hword = read_u16(&self.memory_view[at..at + 2]);
        let n = length(hword);
        self.current_index = if len - at < n {
            len
        } else {
            at + n
        };
        assert(length.ensures((halfword_at(self.memory_view@, at as int),), n));
        Some(self.address + at as u64)
    }
}

/// Yields what each instruction in a buffer decodes to, in ascending order of
/// address.
pub struct InstructionIter<'a> {
    memory_view: &'a [u8],
    current_index: usize,
}

impl<'a> InstructionIter<'a> {
    /// The bytes that the walk goes over.
    pub closed spec fn buffer(&self) -> Seq<u8> {
        self.memory_view@
    }

    /// The offset in the buffer of the next instruction.
    pub closed spec fn cursor(&self) -> nat {
        self.current_index as nat
    }

    /// The cursor is inside the buffer or at its end.
    pub open spec fn wf(&self) -> bool {
        self.cursor() <= self.buffer().len()
    }

    /// A walk from the start of `memory_view`.
    pub fn new(memory_view: &'a [u8]) -> (r: Self)
        ensures
            r.wf(),
            r.buffer() == memory_view@,
            r.cursor() == 0,
    {
        InstructionIter { memory_view, current_index: 0 }
    }

    /// Yields what `decode` makes of the instruction at the cursor and moves
    /// the cursor past it. The instruction has the length that `length` gives
    /// for its first halfword; one of two bytes is handed to `decode` widened.
    /// Yields nothing, and stays, once the buffer holds no whole instruction
    /// at the cursor.
    pub fn next<I, L: Fn(u16) -> usize, D: Fn(u32) -> Result<I, DecodingError>>(
        &mut self,
        length: L,
        decode: D,
    ) -> (r: Option<Result<I, DecodingError>>)
        requires
            old(self).wf(),
            is_length_classifier(length),
            is_decoder(decode),
        ensures
            final(self).wf(),
            final(self).buffer() == old(self).buffer(),
            old(self).cursor() + 2 > old(self).buffer().len() ==> r is None,
            old(self).cursor() + 4 <= old(self).buffer().len() ==> r is Some,
            r is None ==> final(self).cursor() == old(self).cursor() && (old(self).cursor() + 2
                <= old(self).buffer().len() ==> length.ensures(
                (halfword_at(old(self).buffer(), old(self).cursor() as int),),
                4,
            )),
            r is Some ==> {
                &&& final(self).cursor() > old(self).cursor()
                &&& length.ensures(
                    (halfword_at(old(self).buffer(), old(self).cursor() as int),),
                    (final(self).cursor() - old(self).cursor()) as usize,
                )
                &&& decode.ensures(
                    (
                        raw_instruction_at(
                            old(self).buffer(),
                            old(self).cursor() as int,
                            final(self).cursor() - old(self).cursor(),
                        ),
                    ),
                    r->Some_0,
                )
            },
    {
        let len = self.memory_view.len();
        let at = self.current_index;
        if len - at < 2 {
            return None;
        }
        let hword = read_u16(&self.memory_view[at..at + 2]);
        let n = length(hword);
        if n == 2 {
            self.current_index = at + 2;
            Some(decode(hword as u32))
        } else if len - at < 4 {
            None
        } else {
            let word = read_u32(&self.memory_view[at..at + 4]);
            self.current_index = at + 4;
            Some(decode(word))
        }
    }
}

} // verus!
