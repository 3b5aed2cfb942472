//! Decode front-end for the RISC-U subset of RISC-V: expansion of compressed
//! instructions, walks over raw code buffers, and loading of RISC-U ELF64 images.

use vstd::prelude::*;

pub mod decompress;
pub mod elf;
pub mod iter;
pub mod le;
pub mod permute;
pub mod word;

verus! {

/// Why a bit pattern could not be turned into an instruction.
#[derive(Clone, Copy, Debug, PartialEq, Eq, Structural)]
pub enum DecodingError {
    /// The pattern can never be a valid instruction.
    Illegal,
    /// The pattern is set aside for other or future extensions.
    Reserved,
    /// The pattern is a valid instruction that is not supported yet.
    Unimplemented,
}

/// A length classifier can be asked about every halfword and answers 2 or 4.
pub open spec fn is_length_classifier<L: Fn(u16) -> usize>(length: L) -> bool {
    &&& forall|w: u16| length.requires((w,))
    &&& forall|w: u16, n: usize| length.ensures((w,), n) ==> n == 2 || n == 4
}

/// A decoder can be asked about every raw instruction.
pub open spec fn is_decoder<I, D: Fn(u32) -> Result<I, DecodingError>>(decode: D) -> bool {
    forall|w: u32| decode.requires((w,))
}

} // verus!
