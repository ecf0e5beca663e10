//! The framer: the header of a `.blend` file and the blocks that follow it,
//! up to the `ENDB` marker.
//!
//! A block record holds a four byte code, the size of its payload, the
//! address the block had in memory when the file was saved, the index of its
//! struct in the DNA, the number of structs it holds, and the payload. The
//! numbers are written in the byte order, and the address in the pointer
//! size, that the header announces.

use super::dna::{dna_of, Dna, DnaParseContext, DnaView};
use super::primitive::{parse_u32, parse_u64, u32_of, u64_of};
use super::{BlendParseError, Endianness, PointerSize};
use vstd::prelude::*;
use vstd::slice::slice_to_vec;

verus! {

/// The payload of a block.
#[derive(Debug, Clone, PartialEq, Eq)]
pub struct BlockData {
    /// The bytes of the block as they stand in the file.
    pub data: Vec<u8>,
    /// How many structs the bytes hold.
    pub count: usize,
}

/// A block of the file.
///
/// `Rend` and `Test` blocks are recognised and carried along, without
/// their contents. The addresses of the other blocks are never zero.
#[derive(Debug, Clone, PartialEq, Eq)]
pub enum Block {
    Rend,
    Test,
    Global { memory_address: u64, dna_index: usize, data: BlockData },
    /// A root block: it has a two letter code, holds one struct, and its
    /// `dna_index` names the struct's true type.
    Principal { code: [u8; 2], memory_address: u64, dna_index: usize, data: BlockData },
    /// A block with the code `DATA`. Its `dna_index` is not always right: the
    /// field that points to the block knows better.
    Subsidiary { memory_address: u64, dna_index: usize, data: BlockData },
    /// The DNA of the file.
    Dna(Dna),
}

/// The first twelve bytes of a file.
#[derive(Debug, Copy, Clone, PartialEq, Eq)]
pub struct Header {
    /// The size of a pointer on the machine that saved the file.
    pub pointer_size: PointerSize,
    /// The byte order of the machine that saved the file.
    pub endianness: Endianness,
    /// The version of Blender that saved the file, as three digits.
    pub version: [u8; 3],
}

/// A file framed into its parts.
#[derive(Debug, Clone, PartialEq, Eq)]
pub struct RawBlend {
    pub header: Header,
    /// The blocks in the order of the file, without the DNA that closes it.
    pub blocks: Vec<Block>,
    pub dna: Dna,
}

/// [`Block`] as a mathematical value.
pub enum BlockView {
    Rend,
    Test,
    Global { memory_address: u64, dna_index: usize, data: Seq<u8>, count: usize },
    Principal { code: [u8; 2], memory_address: u64, dna_index: usize, data: Seq<u8>, count: usize },
    Subsidiary { memory_address: u64, dna_index: usize, data: Seq<u8>, count: usize },
    Dna(DnaView),
}

/// [`RawBlend`] as a mathematical value.
pub struct RawBlendView {
    pub header: Header,
    pub blocks: Seq<BlockView>,
    pub dna: DnaView,
}

impl View for Block {
    type V = BlockView;

    open spec fn view(&self) -> BlockView {
        match *self {
            Block::Rend => BlockView::Rend,
            Block::Test => BlockView::Test,
            Block::Global { memory_address, dna_index, data } => BlockView::Global {
                memory_address,
                dna_index,
                data: data.data@,
                count: data.count,
            },
            Block::Principal { code, memory_address, dna_index, data } => BlockView::Principal {
                code,
                memory_address,
                dna_index,
                data: data.data@,
                count: data.count,
            },
            Block::Subsidiary { memory_address, dna_index, data } => BlockView::Subsidiary {
                memory_address,
                dna_index,
                data: data.data@,
                count: data.count,
            },
            Block::Dna(dna) => BlockView::Dna(dna@),
        }
    }
}

/// The views of a list of blocks.
pub open spec fn block_views(blocks: Seq<Block>) -> Seq<BlockView> {
    Seq::new(blocks.len(), |i: int| blocks[i]@)
}

impl View for RawBlend {
    type V = RawBlendView;

    open spec fn view(&self) -> RawBlendView {
        RawBlendView { header: self.header, blocks: block_views(self.blocks@), dna: self.dna@ }
    }
}

impl BlockView {
    /// The address that the block remembers; zero for a block that keeps
    /// none.
    pub open spec fn address(self) -> u64 {
        match self {
            BlockView::Global { memory_address, .. } => memory_address,
            BlockView::Principal { memory_address, .. } => memory_address,
            BlockView::Subsidiary { memory_address, .. } => memory_address,
            _ => 0,
        }
    }

    /// Whether the block keeps its address and payload.
    pub open spec fn has_data(self) -> bool {
        self is Global || self is Principal || self is Subsidiary
    }

    /// What a block promises: an address that is not zero and, for a root
    /// block, exactly one struct.
    pub open spec fn wf(self) -> bool {
        &&& self.has_data() ==> self.address() != 0
        &&& self matches BlockView::Principal { count, .. } ==> count == 1
    }
}

/// The bytes of `BLENDER`.
pub open spec fn magic() -> Seq<u8> {
    seq![0x42, 0x4c, 0x45, 0x4e, 0x44, 0x45, 0x52]
}

/// The bytes of `ENDB`.
pub open spec fn code_endb() -> Seq<u8> {
    seq![0x45, 0x4e, 0x44, 0x42]
}

/// The bytes of `REND`.
pub open spec fn code_rend() -> Seq<u8> {
    seq![0x52, 0x45, 0x4e, 0x44]
}

/// The bytes of `TEST`.
pub open spec fn code_test() -> Seq<u8> {
    seq![0x54, 0x45, 0x53, 0x54]
}

/// The bytes of `GLOB`.
pub open spec fn code_glob() -> Seq<u8> {
    seq![0x47, 0x4c, 0x4f, 0x42]
}

/// The bytes of `DATA`.
pub open spec fn code_data() -> Seq<u8> {
    seq![0x44, 0x41, 0x54, 0x41]
}

/// The bytes of `DNA1`.
pub open spec fn code_dna1() -> Seq<u8> {
    seq![0x44, 0x4e, 0x41, 0x31]
}

/// The length of a header in bytes.
pub open spec fn header_len() -> int {
    12
}

/// The pointer size that the eighth byte of a file announces: `_` for 32
/// bits, `-` for 64.
pub open spec fn pointer_size_of(input: Seq<u8>) -> Result<PointerSize, BlendParseError> {
    if input.len() < 1 {
        Err(BlendParseError::NotEnoughData)
    } else if input[0] == 0x5f {
        Ok(PointerSize::Bits32)
    } else if input[0] == 0x2d {
        Ok(PointerSize::Bits64)
    } else {
        Err(BlendParseError::UnexpectedTag)
    }
}

/// The byte order that the ninth byte of a file announces: `v` for little
/// endian, `V` for big endian.
pub open spec fn endianness_of(input: Seq<u8>) -> Result<Endianness, BlendParseError> {
    if input.len() < 1 {
        Err(BlendParseError::NotEnoughData)
    } else if input[0] == 0x76 {
        Ok(Endianness::Little)
    } else if input[0] == 0x56 {
        Ok(Endianness::Big)
    } else {
        Err(BlendParseError::UnexpectedTag)
    }
}

/// The header that the first twelve bytes of `input` spell.
pub open spec fn header_of(input: Seq<u8>) -> Result<Header, BlendParseError> {
    if input.len() < 7 || input.subrange(0, 7) != magic() {
        Err(BlendParseError::CompressedFileNotSupported)
    } else {
        match pointer_size_of(input.skip(7)) {
            Err(e) => Err(e),
            Ok(pointer_size) => match endianness_of(input.skip(8)) {
                Err(e) => Err(e),
                Ok(endianness) => if input.len() < 12 {
                    Err(BlendParseError::NotEnoughData)
                } else {
                    Ok(Header { pointer_size, endianness, version: [input[9], input[10], input[11]] })
                },
            },
        }
    }
}

/// The address written at the start of `bytes` in a pointer of the given
/// size and byte order.
pub open spec fn address_value(bytes: Seq<u8>, pointer_size: PointerSize, endianness: Endianness) -> u64 {
    match pointer_size {
        PointerSize::Bits32 => u32_of(bytes, endianness) as u64,
        PointerSize::Bits64 => u64_of(bytes, endianness),
    }
}

/// The address written at the start of `bytes` in the layout of `header`.
pub open spec fn address_of(bytes: Seq<u8>, header: Header) -> u64 {
    address_value(bytes, header.pointer_size, header.endianness)
}

/// The length in bytes of what stands before the payload in a block record.
pub open spec fn record_head_len(header: Header) -> int {
    16 + header.pointer_size.width() as int
}

/// The payload size that the record at `pos` announces.
pub open spec fn size_at(input: Seq<u8>, pos: int, header: Header) -> u32 {
    u32_of(input.skip(pos + 4), header.endianness)
}

/// The address that the record at `pos` announces.
pub open spec fn address_at(input: Seq<u8>, pos: int, header: Header) -> u64 {
    address_of(input.skip(pos + 8), header)
}

/// The DNA index that the record at `pos` announces.
pub open spec fn dna_index_at(input: Seq<u8>, pos: int, header: Header) -> u32 {
    u32_of(input.skip(pos + 8 + header.pointer_size.width()), header.endianness)
}

/// The number of structs that the record at `pos` announces.
pub open spec fn count_at(input: Seq<u8>, pos: int, header: Header) -> u32 {
    u32_of(input.skip(pos + 12 + header.pointer_size.width()), header.endianness)
}

/// The payload of the record at `pos`.
pub open spec fn payload_at(input: Seq<u8>, pos: int, header: Header) -> Seq<u8> {
    input.subrange(
        pos + record_head_len(header),
        pos + record_head_len(header) + size_at(input, pos, header),
    )
}

/// The block that a record with the given code and contents stands for.
#[verifier::opaque]
pub open spec fn block_of(
    code: Seq<u8>,
    memory_address: u64,
    dna_index: u32,
    count: u32,
    payload: Seq<u8>,
    endianness: Endianness,
) -> Result<BlockView, BlendParseError> {
    if code == code_rend() {
        Ok(BlockView::Rend)
    } else if code == code_test() {
        Ok(BlockView::Test)
    } else if code == code_glob() {
        Ok(
            BlockView::Global {
                memory_address,
                dna_index: dna_index as usize,
                data: payload,
                count: count as usize,
            },
        )
    } else if code == code_data() {
        Ok(
            BlockView::Subsidiary {
                memory_address,
                dna_index: dna_index as usize,
                data: payload,
                count: count as usize,
            },
        )
    } else if code == code_dna1() {
        match dna_of(payload, endianness) {
            Ok(dna) => Ok(BlockView::Dna(dna)),
            Err(e) => Err(e),
        }
    } else if code[2] == 0 && code[3] == 0 {
        if count != 1 {
            Err(BlendParseError::UnsupportedCountOnPrincipalBlock)
        } else {
            Ok(
                BlockView::Principal {
                    code: [code[0], code[1]],
                    memory_address,
                    dna_index: dna_index as usize,
                    data: payload,
                    count: 1,
                },
            )
        }
    } else {
        Err(BlendParseError::UnknownBlockCode)
    }
}

/// The block whose record starts at `pos`, and the position after it.
///
/// The record is read front to back: a record that ends before its address is
/// complete is too short, a zero address is refused next, and only then is
/// the rest of the record asked for.
pub open spec fn block_at(input: Seq<u8>, pos: int, header: Header) -> Result<
    (BlockView, int),
    BlendParseError,
> {
    let head = record_head_len(header);
    if pos < 0 || pos + 8 + header.pointer_size.width() > input.len() {
        Err(BlendParseError::NotEnoughData)
    } else if address_at(input, pos, header) == 0 {
        Err(BlendParseError::InvalidMemoryAddress)
    } else if pos + head + size_at(input, pos, header) > input.len() {
        Err(BlendParseError::NotEnoughData)
    } else {
        match block_of(
            input.subrange(pos, pos + 4),
            address_at(input, pos, header),
            dna_index_at(input, pos, header),
            count_at(input, pos, header),
            payload_at(input, pos, header),
            header.endianness,
        ) {
            Ok(block) => Ok((block, pos + head + size_at(input, pos, header))),
            Err(e) => Err(e),
        }
    }
}

/// Whether the `ENDB` marker stands at `pos`.
pub open spec fn ends_at(input: Seq<u8>, pos: int) -> bool {
    0 <= pos && pos + 4 <= input.len() && input.subrange(pos, pos + 4) == code_endb()
}

/// The blocks from `pos` up to the `ENDB` marker, and the position of the
/// marker.
pub open spec fn blocks_from(input: Seq<u8>, pos: int, header: Header) -> Result<
    (Seq<BlockView>, int),
    BlendParseError,
>
    decreases input.len() - pos,
{
    if ends_at(input, pos) {
        Ok((Seq::empty(), pos))
    } else {
        match block_at(input, pos, header) {
            Err(e) => Err(e),
            Ok((block, next)) => match blocks_from(input, next, header) {
                Err(e) => Err(e),
                Ok((rest, end)) => Ok((seq![block] + rest, end)),
            },
        }
    }
}

/// The file that stands at the start of `input`: the header, the blocks up
/// to `ENDB` and, taken out of the last of them, the DNA; and the position
/// after the `ENDB` marker.
pub open spec fn blend_at(input: Seq<u8>) -> Result<(RawBlendView, int), BlendParseError> {
    match header_of(input) {
        Err(e) => Err(e),
        Ok(header) => match blocks_from(input, header_len(), header) {
            Err(e) => Err(e),
            Ok((blocks, end)) => if blocks.len() > 0 && blocks.last() is Dna {
                Ok(
                    (
                        RawBlendView {
                            header,
                            blocks: blocks.drop_last(),
                            dna: blocks.last()->Dna_0,
                        },
                        end + 4,
                    ),
                )
            } else {
                Err(BlendParseError::NoDnaBlockFound)
            },
        },
    }
}

/// The file that `input` holds. What follows the `ENDB` marker plays no
/// part.
pub open spec fn blend_of(input: Seq<u8>) -> Result<RawBlendView, BlendParseError> {
    match blend_at(input) {
        Ok((file, _)) => Ok(file),
        Err(e) => Err(e),
    }
}

/// Reads the pointer size from the first byte of `input`; the rest of
/// `input` starts at index 1.
pub fn pointer_size(input: &[u8]) -> (r: Result<PointerSize, BlendParseError>)
    ensures
        r == pointer_size_of(input@),
{
    if input.len() < 1 {
        Err(BlendParseError::NotEnoughData)
    } else if input[0] == 0x5f {
        Ok(PointerSize::Bits32)
    } else if input[0] == 0x2d {
        Ok(PointerSize::Bits64)
    } else {
        Err(BlendParseError::UnexpectedTag)
    }
}

/// Reads the byte order from the first byte of `input`; the rest of `input`
/// starts at index 1.
pub fn endianness(input: &[u8]) -> (r: Result<Endianness, BlendParseError>)
    ensures
        r == endianness_of(input@),
{
    if input.len() < 1 {
        Err(BlendParseError::NotEnoughData)
    } else if input[0] == 0x76 {
        Ok(Endianness::Little)
    } else if input[0] == 0x56 {
        Ok(Endianness::Big)
    } else {
        Err(BlendParseError::UnexpectedTag)
    }
}

/// Reads the three bytes of the version from the start of `input`; the rest
/// of `input` starts at index 3.
pub fn version(input: &[u8]) -> (r: Result<[u8; 3], BlendParseError>)
    ensures
        input@.len() < 3 ==> r == Err::<[u8; 3], BlendParseError>(BlendParseError::NotEnoughData),
        input@.len() >= 3 ==> r is Ok && r->Ok_0@ == input@.subrange(0, 3),
{
    if input.len() < 3 {
        Err(BlendParseError::NotEnoughData)
    } else {
        let v: [u8; 3] = [input[0], input[1], input[2]];
        assert(v@ =~= input@.subrange(0, 3));
        Ok(v)
    }
}

/// Whether `input` starts with the seven bytes of `BLENDER`.
fn has_magic(input: &[u8]) -> (r: bool)
    ensures
        r == (input@.len() >= 7 && input@.subrange(0, 7) == magic()),
{
    if input.len() < 7 {
        return false;
    }
    let r: bool = input[0] == 0x42 && input[1] == 0x4c && input[2] == 0x45 && input[3] == 0x4e
        && input[4] == 0x44 && input[5] == 0x45 && input[6] == 0x52;
    proof {
        if r {
            assert(input@.subrange(0, 7) =~= magic());
        } else {
            assert(input@.subrange(0, 7)[0] == input@[0]);
            assert(input@.subrange(0, 7)[1] == input@[1]);
            assert(input@.subrange(0, 7)[2] == input@[2]);
            assert(input@.subrange(0, 7)[3] == input@[3]);
            assert(input@.subrange(0, 7)[4] == input@[4]);
            assert(input@.subrange(0, 7)[5] == input@[5]);
            assert(input@.subrange(0, 7)[6] == input@[6]);
        }
    }
    r
}

/// Reads the header from the first twelve bytes of `input`, and says where
/// in `input` the header ends.
///
/// An input that does not start with `BLENDER` is taken for a compressed
/// file.
pub fn header(input: &[u8]) -> (r: Result<(Header, usize), BlendParseError>)
    ensures
        match r {
            Ok((header, next)) => header_of(input@) == Ok::<Header, BlendParseError>(header)
                && next == header_len() && next <= input@.len(),
            Err(e) => header_of(input@) == Err::<Header, BlendParseError>(e),
        },
{
    if !has_magic(input) {
        return Err(BlendParseError::CompressedFileNotSupported);
    }
    let after_magic: &[u8] = &input[7..input.len()];
    assert(after_magic@ =~= input@.skip(7));
    let pointer_size: PointerSize = match pointer_size(after_magic) {
        Ok(v) => v,
        Err(e) => {
            return Err(e);
        },
    };
    let after_size: &[u8] = &input[8..input.len()];
    assert(after_size@ =~= input@.skip(8));
    let endianness: Endianness = match endianness(after_size) {
        Ok(v) => v,
        Err(e) => {
            return Err(e);
        },
    };
    let version: [u8; 3] = match version(&input[9..input.len()]) {
        Ok(v) => v,
        Err(e) => {
            return Err(e);
        },
    };
    let header = Header { pointer_size, endianness, version };
    assert(header.version == header_of(input@)->Ok_0.version) by {
        assert(header.version@ =~= header_of(input@)->Ok_0.version@);
    }
    Ok((header, 12))
}

/// Reads the four bytes of a block code from the start of `input`; the rest
/// of `input` starts at index 4.
pub fn block_header_code(input: &[u8]) -> (r: Result<[u8; 4], BlendParseError>)
    ensures
        input@.len() < 4 ==> r == Err::<[u8; 4], BlendParseError>(BlendParseError::NotEnoughData),
        input@.len() >= 4 ==> r is Ok && r->Ok_0@ == input@.subrange(0, 4),
{
    if input.len() < 4 {
        Err(BlendParseError::NotEnoughData)
    } else {
        let v: [u8; 4] = [input[0], input[1], input[2], input[3]];
        assert(v@ =~= input@.subrange(0, 4));
        Ok(v)
    }
}

/// Whether the four bytes of `code` are those given.
fn code_is(code: &[u8; 4], a: u8, b: u8, c: u8, d: u8) -> (r: bool)
    ensures
        r == (code@ == seq![a, b, c, d]),
{
    let r: bool = code[0] == a && code[1] == b && code[2] == c && code[3] == d;
    proof {
        if r {
            assert(code@ =~= seq![a, b, c, d]);
        } else {
            assert(seq![a, b, c, d][0] == a);
            assert(seq![a, b, c, d][1] == b);
            assert(seq![a, b, c, d][2] == c);
            assert(seq![a, b, c, d][3] == d);
        }
    }
    r
}

/// Makes the block that a record with the given code and contents stands
/// for.
fn make_block(
    code: &[u8; 4],
    memory_address: u64,
    dna_index: u32,
    count: u32,
    block_data: &[u8],
    header: &Header,
) -> (r: Result<Block, BlendParseError>)
    requires
        memory_address != 0,
    ensures
        match r {
            Ok(block) => block_of(
                code@,
                memory_address,
                dna_index,
                count,
                block_data@,
                header.endianness,
            ) == Ok::<BlockView, BlendParseError>(block@) && block@.wf(),
            Err(e) => block_of(
                code@,
                memory_address,
                dna_index,
                count,
                block_data@,
                header.endianness,
            ) == Err::<BlockView, BlendParseError>(e),
        },
{
    reveal(block_of);
    if code_is(code, 0x52, 0x45, 0x4e, 0x44) {
        Ok(Block::Rend)
    } else if code_is(code, 0x54, 0x45, 0x53, 0x54) {
        Ok(Block::Test)
    } else if code_is(code, 0x47, 0x4c, 0x4f, 0x42) {
        Ok(
            Block::Global {
                memory_address,
                dna_index: dna_index as usize,
                data: BlockData { data: slice_to_vec(block_data), count: count as usize },
            },
        )
    } else if code_is(code, 0x44, 0x41, 0x54, 0x41) {
        Ok(
            Block::Subsidiary {
                memory_address,
                dna_index: dna_index as usize,
                data: BlockData { data: slice_to_vec(block_data), count: count as usize },
            },
        )
    } else if code_is(code, 0x44, 0x4e, 0x41, 0x31) {
        let ctx = DnaParseContext::new(header.endianness, header.pointer_size);
        match ctx.dna(block_data) {
            Ok((dna, _)) => Ok(Block::Dna(dna)),
            Err(e) => Err(e),
        }
    } else if code[2] == 0 && code[3] == 0 {
        if count != 1 {
            return Err(BlendParseError::UnsupportedCountOnPrincipalBlock);
        }
        let short: [u8; 2] = [code[0], code[1]];
        assert(short == [code@[0], code@[1]]) by {
            assert(short@ =~= [code@[0], code@[1]]@);
        }
        Ok(
            Block::Principal {
                code: short,
                memory_address,
                dna_index: dna_index as usize,
                data: BlockData { data: slice_to_vec(block_data), count: 1 },
            },
        )
    } else {
        Err(BlendParseError::UnknownBlockCode)
    }
}

/// The state of the framer: a block can be read only once the header is
/// known.
#[derive(Debug, Copy, Clone, PartialEq, Eq)]
pub enum BlendParseContext {
    Empty,
    ParsedHeader(Header),
}

impl Default for BlendParseContext {
    fn default() -> (ctx: Self)
        ensures
            ctx is Empty,
    {
        BlendParseContext::Empty
    }
}

impl BlendParseContext {
    /// Reads the address of a block record from the start of `input`.
    fn memory_address(&self, input: &[u8]) -> (r: Result<u64, BlendParseError>)
        requires
            self is ParsedHeader,
        ensures
            r == if input@.len() < self->ParsedHeader_0.pointer_size.width() {
                Err::<u64, BlendParseError>(BlendParseError::NotEnoughData)
            } else if address_of(input@, self->ParsedHeader_0) == 0 {
                Err(BlendParseError::InvalidMemoryAddress)
            } else {
                Ok(address_of(input@, self->ParsedHeader_0))
            },
    {
        match self {
            BlendParseContext::ParsedHeader(header) => {
                if input.len() < header.pointer_size.bytes_num() {
                    return Err(BlendParseError::NotEnoughData);
                }
                let address: u64 = match header.pointer_size {
                    PointerSize::Bits32 => parse_u32(input, header.endianness) as u64,
                    PointerSize::Bits64 => parse_u64(input, header.endianness),
                };
                if address == 0 {
                    Err(BlendParseError::InvalidMemoryAddress)
                } else {
                    Ok(address)
                }
            },
            BlendParseContext::Empty => Err(BlendParseError::NotEnoughData),
        }
    }

    /// Reads the block whose record starts at `pos`, and says where the next
    /// record starts.
    fn block(&self, input: &[u8], pos: usize) -> (r: Result<(Block, usize), BlendParseError>)
        requires
            self is ParsedHeader,
            pos <= input@.len(),
        ensures
            match r {
                Ok((block, next)) => block_at(input@, pos as int, self->ParsedHeader_0) == Ok::<
                    (BlockView, int),
                    BlendParseError,
                >((block@, next as int)) && pos < next <= input@.len() && block@.wf(),
                Err(e) => block_at(input@, pos as int, self->ParsedHeader_0) == Err::<
                    (BlockView, int),
                    BlendParseError,
                >(e),
            },
    {
        let header: Header = match self {
            BlendParseContext::ParsedHeader(header) => *header,
            BlendParseContext::Empty => {
                return Err(BlendParseError::NotEnoughData);
            },
        };
        let pointer_len: usize = header.pointer_size.bytes_num();
        if input.len() - pos < 8 + pointer_len {
            return Err(BlendParseError::NotEnoughData);
        }
        let code_bytes: &[u8] = &input[pos..input.len()];
        let code: [u8; 4] = match block_header_code(code_bytes) {
            Ok(v) => v,
            Err(e) => {
                return Err(e);
            },
        };
        assert(code@ =~= input@.subrange(pos as int, pos + 4));
        let size_bytes: &[u8] = &input[pos + 4..input.len()];
        assert(size_bytes@ =~= input@.skip(pos + 4));
        let size: usize = parse_u32(size_bytes, header.endianness) as usize;
        let address_bytes: &[u8] = &input[pos + 8..input.len()];
        assert(address_bytes@ =~= input@.skip(pos + 8));
        let memory_address: u64 = match self.memory_address(address_bytes) {
            Ok(v) => v,
            Err(e) => {
                return Err(e);
            },
        };
        let head: usize = 16 + pointer_len;
        if input.len() - pos < head {
            return Err(BlendParseError::NotEnoughData);
        }
        let index_bytes: &[u8] = &input[pos + 8 + pointer_len..input.len()];
        assert(index_bytes@ =~= input@.skip(pos + 8 + pointer_len));
        let dna_index: u32 = parse_u32(index_bytes, header.endianness);
        let count_bytes: &[u8] = &input[pos + 12 + pointer_len..input.len()];
        assert(count_bytes@ =~= input@.skip(pos + 12 + pointer_len));
        let count: u32 = parse_u32(count_bytes, header.endianness);
        let start: usize = pos + head;
        if input.len() - start < size {
            return Err(BlendParseError::NotEnoughData);
        }
        let next: usize = start + size;
        let block_data: &[u8] = &input[start..next];
        assert(block_data@ =~= payload_at(input@, pos as int, header));
        let block: Block = match make_block(
            &code,
            memory_address,
            dna_index,
            count,
            block_data,
            &header,
        ) {
            Ok(v) => v,
            Err(e) => {
                return Err(e);
            },
        };
        Ok((block, next))
    }

    /// Whether the `ENDB` marker stands at `pos`.
    fn at_end(input: &[u8], pos: usize) -> (r: bool)
        requires
            pos <= input@.len(),
        ensures
            r == ends_at(input@, pos as int),
    {
        if input.len() - pos < 4 {
            return false;
        }
        let code: [u8; 4] = [input[pos], input[pos + 1], input[pos + 2], input[pos + 3]];
        assert(code@ =~= input@.subrange(pos as int, pos + 4));
        code_is(&code, 0x45, 0x4e, 0x44, 0x42)
    }

    /// Frames the file at the start of `input`: the header, then block
    /// after block up to the `ENDB` marker. The last block must be the DNA;
    /// it is taken out of the list. Says also where in `input` the file
    /// ends, after the marker.
    ///
    /// Every block of the result that keeps an address keeps one that is not
    /// zero, and every root block holds one struct.
    pub fn blend(&mut self, input: &[u8]) -> (r: Result<(RawBlend, usize), BlendParseError>)
        ensures
            match r {
                Ok((blend, next)) => blend_at(input@) == Ok::<
                    (RawBlendView, int),
                    BlendParseError,
                >((blend@, next as int)) && next <= input@.len() && *final(self)
                    == BlendParseContext::ParsedHeader(blend.header) && blend.wf(),
                Err(e) => blend_at(input@) == Err::<(RawBlendView, int), BlendParseError>(e),
            },
    {
        let (header, start) = match header(input) {
            Ok(v) => v,
            Err(e) => {
                return Err(e);
            },
        };
        *self = BlendParseContext::ParsedHeader(header);
        let mut blocks: Vec<Block> = Vec::new();
        let mut pos: usize = start;
        assert(block_views(blocks@) =~= Seq::<BlockView>::empty());
        while !Self::at_end(input, pos)
            invariant
                *self == BlendParseContext::ParsedHeader(header),
                header_of(input@) == Ok::<Header, BlendParseError>(header),
                pos <= input@.len(),
                forall|i: int| 0 <= i < blocks@.len() ==> (#[trigger] blocks@[i])@.wf(),
                blocks_from(input@, header_len(), header) == match blocks_from(
                    input@,
                    pos as int,
                    header,
                ) {
                    Ok((rest, end)) => Ok::<(Seq<BlockView>, int), BlendParseError>(
                        (block_views(blocks@) + rest, end),
                    ),
                    Err(e) => Err(e),
                },
            decreases input@.len() - pos,
        {
            let (block, next) = match self.block(input, pos) {
                Ok(v) => v,
                Err(e) => {
                    return Err(e);
                },
            };
            let ghost before = block_views(blocks@);
            blocks.push(block);
            proof {
                assert(block_views(blocks@) =~= before.push(block@));
                match blocks_from(input@, next as int, header) {
                    Ok((rest, end)) => {
                        assert(before + (seq![block@] + rest) =~= block_views(blocks@) + rest);
                    },
                    Err(e) => {},
                }
            }
            pos = next;
        }
        assert(block_views(blocks@) + Seq::<BlockView>::empty() =~= block_views(blocks@));
        let ghost all = block_views(blocks@);
        let total: usize = input.len();
        assert(pos + 4 <= total);
        match blocks.pop() {
            Some(Block::Dna(dna)) => {
                assert(block_views(blocks@) =~= all.drop_last());
                Ok((RawBlend { blocks, dna, header }, pos + 4))
            },
            _ => Err(BlendParseError::NoDnaBlockFound),
        }
    }
}

impl RawBlend {
    /// Frames the bytes of a `.blend` file.
    ///
    /// Succeeds on exactly the inputs that hold a header, blocks known by
    /// their codes, each complete and with an address that is not zero, a DNA
    /// in the last block, and the `ENDB` marker after it.
    pub fn from_data(data: &[u8]) -> (r: Result<Self, BlendParseError>)
        ensures
            match r {
                Ok(blend) => blend_of(data@) == Ok::<RawBlendView, BlendParseError>(blend@)
                    && blend.wf(),
                Err(e) => blend_of(data@) == Err::<RawBlendView, BlendParseError>(e),
            },
    {
        let mut parser = BlendParseContext::default();
        match parser.blend(data) {
            Ok((blend, _)) => Ok(blend),
            Err(e) => Err(e),
        }
    }

    /// What framing promises of the blocks: no address is zero, and a root
    /// block holds one struct.
    pub open spec fn wf(&self) -> bool {
        forall|i: int| 0 <= i < self.blocks@.len() ==> (#[trigger] self.blocks@[i])@.wf()
    }
}

} // verus!
