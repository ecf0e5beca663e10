//! Decoders for the parts of a `.blend` file: primitives, field names, the DNA
//! catalog and the block stream.

use vstd::prelude::*;

pub mod blend;
pub mod dna;
pub mod field;
pub mod primitive;
pub mod record;

verus! {

/// Size of a pointer on the machine that saved the file.
#[derive(Debug, Copy, Clone, PartialEq, Eq, Structural)]
pub enum PointerSize {
    Bits32,
    Bits64,
}

impl PointerSize {
    /// The pointer size in bytes, as a number of the specification.
    pub open spec fn width(self) -> nat {
        match self {
            PointerSize::Bits32 => 4,
            PointerSize::Bits64 => 8,
        }
    }

    /// Returns the pointer size in bytes.
    pub fn bytes_num(self) -> (n: usize)
        ensures
            n == self.width(),
    {
        match self {
            PointerSize::Bits32 => 4,
            PointerSize::Bits64 => 8,
        }
    }
}

/// Byte order of the machine that saved the file.
#[derive(Debug, Copy, Clone, PartialEq, Eq, Structural)]
pub enum Endianness {
    Little,
    Big,
}

/// What can go wrong while a file is framed into blocks.
#[derive(Debug, Copy, Clone, PartialEq, Eq, Structural)]
pub enum BlendParseError {
    /// The input ends before the item being read is complete.
    NotEnoughData,
    /// A fixed marker of the format (the pointer-size or byte-order letter of
    /// the header, or a section tag of the DNA) holds other bytes.
    UnexpectedTag,
    /// A block code that is none of `REND`, `TEST`, `GLOB`, `DATA`, `DNA1`
    /// nor a two letter code followed by two zero bytes.
    UnknownBlockCode,
    /// A block with a two letter code that claims to hold more or fewer than
    /// one struct.
    UnsupportedCountOnPrincipalBlock,
    /// A block whose remembered address is zero, the null pointer.
    InvalidMemoryAddress,
    /// The block before the `ENDB` marker is not the DNA.
    NoDnaBlockFound,
    /// The input does not start with `BLENDER`; it may be a compressed file.
    CompressedFileNotSupported,
}

} // verus!
