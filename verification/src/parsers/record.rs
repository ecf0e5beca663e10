//! Block records, written: the bytes that a block stands for in a file, and
//! the proof that framing and writing undo each other record by record.

use super::blend::{
    address_at, blend_of, block_at, block_of, blocks_from, code_data, code_glob, count_at,
    dna_index_at, ends_at, header_len, header_of, payload_at, record_head_len, size_at, BlockView,
    Header,
};
use super::primitive::{u32_of, u64_of};
use super::{BlendParseError, Endianness, PointerSize};
use vstd::prelude::*;

verus! {

/// Digit number `k` of `v` written to the base 256, the lowest digit being
/// number zero.
pub open spec fn digit(v: int, k: nat) -> u8
    decreases k,
{
    if k == 0 {
        (v % 0x100) as u8
    } else {
        digit(v / 0x100, (k - 1) as nat)
    }
}

/// The four bytes that spell `v` in the given byte order.
#[verifier::opaque]
pub open spec fn u32_bytes(v: u32, endianness: Endianness) -> Seq<u8> {
    let v = v as int;
    match endianness {
        Endianness::Little => seq![digit(v, 0), digit(v, 1), digit(v, 2), digit(v, 3)],
        Endianness::Big => seq![digit(v, 3), digit(v, 2), digit(v, 1), digit(v, 0)],
    }
}

/// The eight bytes that spell `v` in the given byte order.
#[verifier::opaque]
pub open spec fn u64_bytes(v: u64, endianness: Endianness) -> Seq<u8> {
    let v = v as int;
    match endianness {
        Endianness::Little => seq![
            digit(v, 0),
            digit(v, 1),
            digit(v, 2),
            digit(v, 3),
            digit(v, 4),
            digit(v, 5),
            digit(v, 6),
            digit(v, 7),
        ],
        Endianness::Big => seq![
            digit(v, 7),
            digit(v, 6),
            digit(v, 5),
            digit(v, 4),
            digit(v, 3),
            digit(v, 2),
            digit(v, 1),
            digit(v, 0),
        ],
    }
}

/// The bytes that spell an address in the layout of `header`.
pub open spec fn address_bytes(address: u64, header: Header) -> Seq<u8> {
    match header.pointer_size {
        PointerSize::Bits32 => u32_bytes(address as u32, header.endianness),
        PointerSize::Bits64 => u64_bytes(address, header.endianness),
    }
}

/// The four byte code under which a block that keeps its payload is
/// written.
pub open spec fn code_of(block: BlockView) -> Seq<u8> {
    match block {
        BlockView::Principal { code, .. } => seq![code[0], code[1], 0u8, 0u8],
        BlockView::Global { .. } => code_glob(),
        _ => code_data(),
    }
}

/// The record of a block that keeps its payload: its code, the size of the
/// payload, its address, the index of its struct, the number of its structs
/// and the payload.
pub open spec fn block_bytes(header: Header, block: BlockView) -> Seq<u8> {
    code_of(block) + u32_bytes(block.bytes().len() as u32, header.endianness) + address_bytes(
        block.address(),
        header,
    ) + u32_bytes(block.dna_index() as u32, header.endianness) + u32_bytes(
        block.struct_count() as u32,
        header.endianness,
    ) + block.bytes()
}

/// The records of a list of blocks, one after the other.
pub open spec fn blocks_bytes(header: Header, blocks: Seq<BlockView>) -> Seq<u8>
    decreases blocks.len(),
{
    if blocks.len() == 0 {
        Seq::empty()
    } else {
        block_bytes(header, blocks[0]) + blocks_bytes(header, blocks.skip(1))
    }
}

/// Whether every block of a list keeps its payload.
pub open spec fn all_have_data(blocks: Seq<BlockView>) -> bool {
    forall|i: int| 0 <= i < blocks.len() ==> (#[trigger] blocks[i]).has_data()
}

/// A number that ends in the digit `low` after the digits of `high` has
/// `low` for its lowest digit, and its other digits are those of `high`.
proof fn lemma_digit_step(low: u8, high: int, k: nat)
    requires
        0 <= high,
    ensures
        digit(low + 0x100 * high, 0) == low,
        digit(low + 0x100 * high, k + 1) == digit(high, k),
{
    vstd::arithmetic::div_mod::lemma_fundamental_div_mod_converse(
        low + 0x100 * high,
        0x100,
        high,
        low as int,
    );
}

/// Writing the number read from four bytes gives the four bytes back.
pub proof fn lemma_u32_round_trip(bytes: Seq<u8>, endianness: Endianness)
    requires
        bytes.len() >= 4,
    ensures
        u32_bytes(u32_of(bytes, endianness), endianness) == bytes.take(4),
{
    match endianness {
        Endianness::Little => {
            lemma_digits4(bytes[0], bytes[1], bytes[2], bytes[3]);
        },
        Endianness::Big => {
            lemma_digits4(bytes[3], bytes[2], bytes[1], bytes[0]);
        },
    }
    reveal(u32_bytes);
    assert(u32_bytes(u32_of(bytes, endianness), endianness) =~= bytes.take(4));
}

/// Writing the number read from eight bytes gives the eight bytes back.
pub proof fn lemma_u64_round_trip(bytes: Seq<u8>, endianness: Endianness)
    requires
        bytes.len() >= 8,
    ensures
        u64_bytes(u64_of(bytes, endianness), endianness) == bytes.take(8),
{
    match endianness {
        Endianness::Little => {
            lemma_digits8(
                bytes[0],
                bytes[1],
                bytes[2],
                bytes[3],
                bytes[4],
                bytes[5],
                bytes[6],
                bytes[7],
            );
        },
        Endianness::Big => {
            lemma_digits8(
                bytes[7],
                bytes[6],
                bytes[5],
                bytes[4],
                bytes[3],
                bytes[2],
                bytes[1],
                bytes[0],
            );
        },
    }
    reveal(u64_bytes);
    assert(u64_bytes(u64_of(bytes, endianness), endianness) =~= bytes.take(8));
}

/// The digits of a number of four digits are its digits.
proof fn lemma_digits4(b0: u8, b1: u8, b2: u8, b3: u8)
    ensures
        ({
            let v = b0 as int + b1 as int * 0x100 + b2 as int * 0x1_0000 + b3 as int * 0x100_0000;
            &&& 0 <= v <= u32::MAX
            &&& digit(v, 0) == b0
            &&& digit(v, 1) == b1
            &&& digit(v, 2) == b2
            &&& digit(v, 3) == b3
        }),
{
    let r2 = b3 as int;
    let r1 = b2 as int + 0x100 * r2;
    let r0 = b1 as int + 0x100 * r1;
    let v = b0 as int + 0x100 * r0;
    lemma_digit_step(b3, 0, 0);
    lemma_digit_step(b2, r2, 0);
    lemma_digit_step(b1, r1, 0);
    lemma_digit_step(b1, r1, 1);
    lemma_digit_step(b0, r0, 0);
    lemma_digit_step(b0, r0, 1);
    lemma_digit_step(b0, r0, 2);
}

/// The digits of a number of eight digits are its digits.
proof fn lemma_digits8(b0: u8, b1: u8, b2: u8, b3: u8, b4: u8, b5: u8, b6: u8, b7: u8)
    ensures
        ({
            let v = b0 as int + b1 as int * 0x100 + b2 as int * 0x1_0000 + b3 as int * 0x100_0000
                + b4 as int * 0x1_0000_0000 + b5 as int * 0x100_0000_0000 + b6 as int
                * 0x1_0000_0000_0000 + b7 as int * 0x100_0000_0000_0000;
            &&& 0 <= v <= u64::MAX
            &&& digit(v, 0) == b0
            &&& digit(v, 1) == b1
            &&& digit(v, 2) == b2
            &&& digit(v, 3) == b3
            &&& digit(v, 4) == b4
            &&& digit(v, 5) == b5
            &&& digit(v, 6) == b6
            &&& digit(v, 7) == b7
        }),
{
    let r6 = b7 as int;
    let r5 = b6 as int + 0x100 * r6;
    let r4 = b5 as int + 0x100 * r5;
    let r3 = b4 as int + 0x100 * r4;
    let r2 = b3 as int + 0x100 * r3;
    let r1 = b2 as int + 0x100 * r2;
    let r0 = b1 as int + 0x100 * r1;
    lemma_digit_step(b7, 0, 0);
    lemma_digit_step(b6, r6, 0);
    lemma_digit_step(b5, r5, 0);
    lemma_digit_step(b5, r5, 1);
    lemma_digit_step(b4, r4, 0);
    lemma_digit_step(b4, r4, 1);
    lemma_digit_step(b4, r4, 2);
    lemma_digit_step(b3, r3, 0);
    lemma_digit_step(b3, r3, 1);
    lemma_digit_step(b3, r3, 2);
    lemma_digit_step(b3, r3, 3);
    lemma_digit_step(b2, r2, 0);
    lemma_digit_step(b2, r2, 1);
    lemma_digit_step(b2, r2, 2);
    lemma_digit_step(b2, r2, 3);
    lemma_digit_step(b2, r2, 4);
    lemma_digit_step(b1, r1, 0);
    lemma_digit_step(b1, r1, 1);
    lemma_digit_step(b1, r1, 2);
    lemma_digit_step(b1, r1, 3);
    lemma_digit_step(b1, r1, 4);
    lemma_digit_step(b1, r1, 5);
    lemma_digit_step(b0, r0, 0);
    lemma_digit_step(b0, r0, 1);
    lemma_digit_step(b0, r0, 2);
    lemma_digit_step(b0, r0, 3);
    lemma_digit_step(b0, r0, 4);
    lemma_digit_step(b0, r0, 5);
    lemma_digit_step(b0, r0, 6);
}

/// A record that the framer accepts has an address other than zero, whatever
/// its code, and a root block among them holds one struct.
pub proof fn lemma_block_is_well_formed(input: Seq<u8>, pos: int, header: Header)
    requires
        block_at(input, pos, header) is Ok,
    ensures
        address_at(input, pos, header) != 0,
        block_at(input, pos, header)->Ok_0.0.wf(),
        block_at(input, pos, header)->Ok_0.0 is Principal ==> count_at(input, pos, header) == 1,
{
    reveal(block_of);
}

/// The bytes of a complete record are its code and its four numbers,
/// written, and its payload.
proof fn lemma_record_bytes(input: Seq<u8>, pos: int, header: Header)
    requires
        0 <= pos,
        pos + record_head_len(header) + size_at(input, pos, header) <= input.len(),
    ensures
        input.subrange(pos, pos + record_head_len(header) + size_at(input, pos, header))
            == input.subrange(pos, pos + 4) + u32_bytes(
            size_at(input, pos, header),
            header.endianness,
        ) + address_bytes(address_at(input, pos, header), header) + u32_bytes(
            dna_index_at(input, pos, header),
            header.endianness,
        ) + u32_bytes(count_at(input, pos, header), header.endianness) + payload_at(
            input,
            pos,
            header,
        ),
{
    let e = header.endianness;
    let width = header.pointer_size.width() as int;
    lemma_u32_round_trip(input.skip(pos + 4), e);
    lemma_u32_round_trip(input.skip(pos + 8 + width), e);
    lemma_u32_round_trip(input.skip(pos + 12 + width), e);
    let size = u32_bytes(size_at(input, pos, header), e);
    let address = address_bytes(address_at(input, pos, header), header);
    let index = u32_bytes(dna_index_at(input, pos, header), e);
    let count = u32_bytes(count_at(input, pos, header), e);
    assert(size == input.skip(pos + 4).take(4));
    assert(index == input.skip(pos + 8 + width).take(4));
    assert(count == input.skip(pos + 12 + width).take(4));
    assert(address == input.skip(pos + 8).take(width)) by {
        match header.pointer_size {
            PointerSize::Bits32 => {
                lemma_u32_round_trip(input.skip(pos + 8), e);
            },
            PointerSize::Bits64 => {
                lemma_u64_round_trip(input.skip(pos + 8), e);
            },
        }
    }
    assert(input.subrange(pos, pos + record_head_len(header) + size_at(input, pos, header))
        =~= input.subrange(pos, pos + 4) + input.skip(pos + 4).take(4) + input.skip(pos + 8).take(
        width,
    ) + input.skip(pos + 8 + width).take(4) + input.skip(pos + 12 + width).take(4) + payload_at(
        input,
        pos,
        header,
    ));
}

/// A block that keeps its payload keeps all that its record says.
proof fn lemma_block_keeps_record(
    code: Seq<u8>,
    memory_address: u64,
    dna_index: u32,
    count: u32,
    payload: Seq<u8>,
    endianness: Endianness,
)
    requires
        code.len() == 4,
        block_of(code, memory_address, dna_index, count, payload, endianness) is Ok,
        block_of(code, memory_address, dna_index, count, payload, endianness)->Ok_0.has_data(),
    ensures
        ({
            let block = block_of(code, memory_address, dna_index, count, payload, endianness)->Ok_0;
            &&& code_of(block) == code
            &&& block.address() == memory_address
            &&& block.dna_index() as u32 == dna_index
            &&& block.struct_count() as u32 == count
            &&& block.bytes() == payload
        }),
{
    reveal(block_of);
    let block = block_of(code, memory_address, dna_index, count, payload, endianness)->Ok_0;
    if block is Principal {
        assert(block->Principal_code == [code[0], code[1]]);
        assert(block->Principal_code[0] == code[0]);
        assert(block->Principal_code[1] == code[1]);
    }
    assert(code_of(block) =~= code);
}

/// Framing a record and writing the block gives the bytes of the record
/// back, for a block that keeps its payload.
pub proof fn lemma_block_round_trip(input: Seq<u8>, pos: int, header: Header)
    requires
        block_at(input, pos, header) is Ok,
        block_at(input, pos, header)->Ok_0.0.has_data(),
    ensures
        ({
            let (block, next) = block_at(input, pos, header)->Ok_0;
            &&& 0 <= pos < next <= input.len()
            &&& next == pos + block_bytes(header, block).len()
            &&& input.subrange(pos, next) == block_bytes(header, block)
        }),
{
    lemma_record_bytes(input, pos, header);
    lemma_block_keeps_record(
        input.subrange(pos, pos + 4),
        address_at(input, pos, header),
        dna_index_at(input, pos, header),
        count_at(input, pos, header),
        payload_at(input, pos, header),
        header.endianness,
    );
}

proof fn lemma_blocks_bytes_step(header: Header, block: BlockView, rest: Seq<BlockView>)
    ensures
        blocks_bytes(header, seq![block] + rest) == block_bytes(header, block) + blocks_bytes(
            header,
            rest,
        ),
{
    assert((seq![block] + rest).skip(1) =~= rest);
}

/// The blocks from `pos` up to the `ENDB` marker, written one after the
/// other, are the bytes from `pos` on; but for the last block, which is
/// only known to stand, as a record, where the others end. The blocks
/// before the last must keep their payloads.
pub proof fn lemma_blocks_round_trip(input: Seq<u8>, pos: int, header: Header)
    requires
        0 <= pos,
        blocks_from(input, pos, header) is Ok,
        blocks_from(input, pos, header)->Ok_0.0.len() > 0,
        all_have_data(blocks_from(input, pos, header)->Ok_0.0.drop_last()),
    ensures
        ({
            let (blocks, end) = blocks_from(input, pos, header)->Ok_0;
            let written = blocks_bytes(header, blocks.drop_last());
            &&& pos + written.len() <= input.len()
            &&& input.subrange(pos, pos + written.len()) == written
            &&& block_at(input, pos + written.len(), header) == Ok::<
                (BlockView, int),
                BlendParseError,
            >((blocks.last(), end))
            &&& ends_at(input, end)
        }),
    decreases input.len() - pos,
{
    let (blocks, end) = blocks_from(input, pos, header)->Ok_0;
    let (block, next) = block_at(input, pos, header)->Ok_0;
    let (rest, rest_end) = blocks_from(input, next, header)->Ok_0;
    assert(blocks == seq![block] + rest && end == rest_end && pos < next);
    if rest.len() == 0 {
        assert(blocks.drop_last() =~= Seq::<BlockView>::empty());
        assert(input.subrange(pos, pos) =~= Seq::<u8>::empty());
        assert(blocks.last() == block);
        assert(ends_at(input, next) && end == next);
    } else {
        let front = rest.drop_last();
        assert(blocks.drop_last() =~= seq![block] + front);
        assert(blocks.last() == rest.last());
        assert(block.has_data()) by {
            assert(blocks.drop_last()[0] == block);
        }
        assert(all_have_data(front)) by {
            assert forall|i: int| 0 <= i < front.len() implies (#[trigger] front[i]).has_data() by {
                assert(front[i] == blocks.drop_last()[i + 1]);
            }
        }
        lemma_block_round_trip(input, pos, header);
        lemma_blocks_round_trip(input, next, header);
        lemma_blocks_bytes_step(header, block, front);
        let tail = blocks_bytes(header, front);
        assert(input.subrange(pos, next + tail.len()) =~= input.subrange(pos, next)
            + input.subrange(next, next + tail.len()));
    }
}

/// The blocks of a framed file, written one after the other, are the bytes
/// of the file from the end of the header up to the record of the DNA, and
/// the `ENDB` marker follows that record. This holds of a file whose blocks
/// all keep their payloads, that is, a file without `REND` and `TEST`
/// blocks and without a second DNA.
pub proof fn lemma_framing_round_trip(input: Seq<u8>)
    requires
        blend_of(input) is Ok,
        all_have_data(blend_of(input)->Ok_0.blocks),
    ensures
        ({
            let file = blend_of(input)->Ok_0;
            let written = blocks_bytes(file.header, file.blocks);
            let dna_pos = header_len() + written.len();
            &&& dna_pos <= input.len()
            &&& input.subrange(header_len(), dna_pos) == written
            &&& block_at(input, dna_pos, file.header) is Ok
            &&& block_at(input, dna_pos, file.header)->Ok_0.0 == BlockView::Dna(file.dna)
            &&& ends_at(input, block_at(input, dna_pos, file.header)->Ok_0.1)
        }),
{
    let header = header_of(input)->Ok_0;
    lemma_blocks_round_trip(input, header_len(), header);
}

} // verus!
