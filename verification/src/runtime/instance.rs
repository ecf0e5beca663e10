//! Instances: a struct of the file, seen through the templates of its fields.
//!
//! An instance does not own the bytes it reads and never changes them. Its
//! data is either a whole block, for a struct reached through a pointer, or
//! a run of bytes inside another instance, for a struct that is a field.

use crate::parsers::blend::{
    address_of, address_value, Block, BlockView, RawBlend, RawBlendView,
};
use crate::parsers::dna::zero_from;
use crate::parsers::primitive::{parse_u32, parse_u64, BlendPrimitive, DoubleBits, FloatBits};
use crate::parsers::field::{FieldInfo, FieldShape};
use crate::parsers::{Endianness, PointerSize};
use crate::runtime::template::{
    field_entries, fields_get, lookup, FieldList, FieldTemplate, FieldTemplateView,
};
use linked_hash_map::LinkedHashMap;
use vstd::prelude::*;
use vstd::string::*;
use vstd::utf8::encode_utf8_decode_utf8;

verus! {

/// The bytes behind an instance.
#[derive(Debug, Clone, Copy)]
pub enum InstanceDataFormat<'a> {
    /// A block of the file.
    Block(&'a Block),
    /// Bytes inside the data of another instance.
    Raw(&'a [u8]),
}

/// What a pointer field leads to: a block of the file, nothing (the null
/// pointer), or an address that no block of the file has.
#[derive(Debug, Clone, Copy)]
pub enum PointerInfo<'a> {
    Block(&'a Block),
    Null,
    Invalid,
}

/// [`InstanceDataFormat`] as a mathematical value.
pub enum DataView {
    Block(BlockView),
    Raw(Seq<u8>),
}

impl BlockView {
    /// The payload of the block; nothing for a block that keeps none.
    pub open spec fn bytes(self) -> Seq<u8> {
        match self {
            BlockView::Global { data, .. } => data,
            BlockView::Principal { data, .. } => data,
            BlockView::Subsidiary { data, .. } => data,
            _ => Seq::empty(),
        }
    }

    /// The number of structs in the block; zero for a block that keeps no
    /// payload.
    pub open spec fn struct_count(self) -> usize {
        match self {
            BlockView::Global { count, .. } => count,
            BlockView::Principal { count, .. } => count,
            BlockView::Subsidiary { count, .. } => count,
            _ => 0,
        }
    }

    /// The index that the block gives for its struct in the DNA.
    pub open spec fn dna_index(self) -> usize {
        match self {
            BlockView::Global { dna_index, .. } => dna_index,
            BlockView::Principal { dna_index, .. } => dna_index,
            BlockView::Subsidiary { dna_index, .. } => dna_index,
            _ => 0,
        }
    }

    /// The four byte code of the block, if it has one of its own: a `DATA`
    /// block has none.
    pub open spec fn code(self) -> Option<Seq<u8>> {
        match self {
            BlockView::Principal { code, .. } => Some(seq![code[0], code[1], 0u8, 0u8]),
            BlockView::Global { .. } => Some(crate::parsers::blend::code_glob()),
            BlockView::Rend => Some(crate::parsers::blend::code_rend()),
            BlockView::Test => Some(crate::parsers::blend::code_test()),
            BlockView::Dna(_) => Some(crate::parsers::blend::code_dna1()),
            BlockView::Subsidiary { .. } => None,
        }
    }
}

impl DataView {
    /// Whether there are bytes to read: always, but for a block that keeps no
    /// payload.
    pub open spec fn readable(self) -> bool {
        match self {
            DataView::Block(block) => block.has_data(),
            DataView::Raw(_) => true,
        }
    }

    /// The bytes.
    pub open spec fn bytes(self) -> Seq<u8> {
        match self {
            DataView::Block(block) => block.bytes(),
            DataView::Raw(bytes) => bytes,
        }
    }

    /// The address of the block, if the data is a block.
    pub open spec fn address(self) -> Option<u64> {
        match self {
            DataView::Block(block) => Some(block.address()),
            DataView::Raw(_) => None,
        }
    }

    /// The code of the block, if the data is a block that has one.
    pub open spec fn code(self) -> Option<Seq<u8>> {
        match self {
            DataView::Block(block) => block.code(),
            DataView::Raw(_) => None,
        }
    }
}

impl<'a> View for InstanceDataFormat<'a> {
    type V = DataView;

    open spec fn view(&self) -> DataView {
        match *self {
            InstanceDataFormat::Block(block) => DataView::Block(block@),
            InstanceDataFormat::Raw(bytes) => DataView::Raw(bytes@),
        }
    }
}

impl<'a> InstanceDataFormat<'a> {
    /// The `len` bytes of the data that start at `start`.
    pub fn get(&self, start: usize, len: usize) -> (r: &'a [u8])
        requires
            self@.readable(),
            start + len <= self@.bytes().len(),
        ensures
            r@ == self@.bytes().subrange(start as int, start + len),
    {
        let data: &'a [u8] = self.data();
        let total: usize = data.len();
        assert(start + len <= total);
        &data[start..start + len]
    }

    /// All bytes of the data.
    pub fn data(&self) -> (r: &'a [u8])
        requires
            self@.readable(),
        ensures
            r@ == self@.bytes(),
    {
        match self {
            InstanceDataFormat::Block(block) => match block {
                Block::Principal { data, .. } => data.data.as_slice(),
                Block::Subsidiary { data, .. } => data.data.as_slice(),
                Block::Global { data, .. } => data.data.as_slice(),
                _ => vstd::pervasive::unreached(),
            },
            InstanceDataFormat::Raw(data) => data,
        }
    }

    /// The code of the underlying block, if it has one.
    pub fn code(&self) -> (r: Option<[u8; 4]>)
        ensures
            match r {
                Some(code) => self@.code() == Some(code@),
                None => self@.code() is None,
            },
    {
        match self {
            InstanceDataFormat::Block(block) => match block {
                Block::Principal { code, .. } => {
                    let full: [u8; 4] = [code[0], code[1], 0, 0];
                    assert(full@ =~= seq![code[0], code[1], 0u8, 0u8]);
                    Some(full)
                },
                Block::Global { .. } => {
                    let full: [u8; 4] = [0x47, 0x4c, 0x4f, 0x42];
                    assert(full@ =~= crate::parsers::blend::code_glob());
                    Some(full)
                },
                Block::Rend => {
                    let full: [u8; 4] = [0x52, 0x45, 0x4e, 0x44];
                    assert(full@ =~= crate::parsers::blend::code_rend());
                    Some(full)
                },
                Block::Test => {
                    let full: [u8; 4] = [0x54, 0x45, 0x53, 0x54];
                    assert(full@ =~= crate::parsers::blend::code_test());
                    Some(full)
                },
                Block::Dna(_) => {
                    let full: [u8; 4] = [0x44, 0x4e, 0x41, 0x31];
                    assert(full@ =~= crate::parsers::blend::code_dna1());
                    Some(full)
                },
                Block::Subsidiary { .. } => None,
            },
            InstanceDataFormat::Raw(_) => None,
        }
    }

    /// The address of the underlying block, if the data is a block.
    pub fn memory_address(&self) -> (r: Option<u64>)
        requires
            self@.readable(),
        ensures
            r == self@.address(),
    {
        match self {
            InstanceDataFormat::Block(block) => match block {
                Block::Principal { memory_address, .. } => Some(*memory_address),
                Block::Subsidiary { memory_address, .. } => Some(*memory_address),
                Block::Global { memory_address, .. } => Some(*memory_address),
                _ => vstd::pervasive::unreached(),
            },
            InstanceDataFormat::Raw(_) => None,
        }
    }
}

/// [`PointerInfo`] as a mathematical value.
pub enum PointerView {
    Block(BlockView),
    Null,
    Invalid,
}

impl<'a> View for PointerInfo<'a> {
    type V = PointerView;

    open spec fn view(&self) -> PointerView {
        match *self {
            PointerInfo::Block(block) => PointerView::Block(block@),
            PointerInfo::Null => PointerView::Null,
            PointerInfo::Invalid => PointerView::Invalid,
        }
    }
}

/// Whether a pointer with the given address leads to `block`: the block
/// keeps its address and payload, as a root block, a `DATA` block and a
/// `GLOB` block do, and remembers that address.
pub open spec fn is_target(block: BlockView, address: u64) -> bool {
    block.has_data() && block.address() == address
}

/// The index of the first block at or after `from` that a pointer with the
/// given address leads to; the number of blocks if there is none.
pub open spec fn target_index(blocks: Seq<BlockView>, address: u64, from: int) -> int
    decreases blocks.len() - from,
{
    if from < 0 || from >= blocks.len() {
        blocks.len() as int
    } else if is_target(blocks[from], address) {
        from
    } else {
        target_index(blocks, address, from + 1)
    }
}

/// The block that an address leads to is a root, `DATA` or `GLOB` block with
/// that address, and no block before it is.
pub proof fn lemma_target_index(blocks: Seq<BlockView>, address: u64, from: int)
    requires
        0 <= from <= blocks.len(),
    ensures
        from <= target_index(blocks, address, from) <= blocks.len(),
        target_index(blocks, address, from) < blocks.len() ==> is_target(
            blocks[target_index(blocks, address, from)],
            address,
        ),
        forall|i: int|
            from <= i < target_index(blocks, address, from) ==> !is_target(
                #[trigger] blocks[i],
                address,
            ),
    decreases blocks.len() - from,
{
    if from < blocks.len() && !is_target(blocks[from], address) {
        lemma_target_index(blocks, address, from + 1);
    }
}

/// What an address leads to in a file.
pub open spec fn target_of(blend: RawBlendView, address: u64) -> PointerView {
    if address == 0 {
        PointerView::Null
    } else if target_index(blend.blocks, address, 0) < blend.blocks.len() {
        PointerView::Block(blend.blocks[target_index(blend.blocks, address, 0)])
    } else {
        PointerView::Invalid
    }
}

/// What the pointer written at the start of `bytes` leads to in a file.
pub open spec fn pointer_of(blend: RawBlendView, bytes: Seq<u8>) -> PointerView {
    target_of(blend, address_of(bytes, blend.header))
}

/// Reads an address from the start of `data`; `None` for the null pointer.
pub fn parse_ptr_address(data: &[u8], pointer_size: PointerSize, endianness: Endianness) -> (r:
    Option<u64>)
    requires
        data@.len() >= pointer_size.width(),
    ensures
        r == if address_value(data@, pointer_size, endianness) == 0 {
            None
        } else {
            Some(address_value(data@, pointer_size, endianness))
        },
{
    let address: u64 = match pointer_size {
        PointerSize::Bits32 => parse_u32(data, endianness) as u64,
        PointerSize::Bits64 => parse_u64(data, endianness),
    };
    if address == 0 {
        None
    } else {
        Some(address)
    }
}

/// Looks for the first root, `DATA` or `GLOB` block that remembers `address`.
pub(crate) fn find_block<'a>(blend: &'a RawBlend, address: u64) -> (r: Option<&'a Block>)
    ensures
        match r {
            Some(block) => target_index(blend@.blocks, address, 0) < blend@.blocks.len() && block@
                == blend@.blocks[target_index(blend@.blocks, address, 0)] && is_target(
                block@,
                address,
            ),
            None => target_index(blend@.blocks, address, 0) >= blend@.blocks.len(),
        },
{
    let mut i: usize = 0;
    while i < blend.blocks.len()
        invariant
            i <= blend.blocks@.len(),
            blend@.blocks.len() == blend.blocks@.len(),
            target_index(blend@.blocks, address, 0) == target_index(blend@.blocks, address, i as int),
        decreases blend.blocks@.len() - i,
    {
        let block: &'a Block = &blend.blocks[i];
        assert(blend@.blocks[i as int] == block@);
        let found: bool = match block {
            Block::Principal { memory_address, .. } => *memory_address == address,
            Block::Subsidiary { memory_address, .. } => *memory_address == address,
            Block::Global { memory_address, .. } => *memory_address == address,
            _ => false,
        };
        if found {
            return Some(block);
        }
        i += 1;
    }
    None
}

/// The number of structs that a block holds.
pub(crate) fn block_count(block: &Block) -> (r: usize)
    ensures
        r == block@.struct_count(),
{
    match block {
        Block::Principal { data, .. } => data.count,
        Block::Subsidiary { data, .. } => data.count,
        Block::Global { data, .. } => data.count,
        _ => 0,
    }
}

/// The address that a block remembers; zero for a block that keeps none.
pub(crate) fn block_address(block: &Block) -> (r: u64)
    ensures
        r == block@.address(),
{
    match block {
        Block::Principal { memory_address, .. } => *memory_address,
        Block::Subsidiary { memory_address, .. } => *memory_address,
        Block::Global { memory_address, .. } => *memory_address,
        _ => 0,
    }
}

/// Whether two texts are the same.
pub(crate) fn same_text(a: &str, b: &str) -> (r: bool)
    ensures
        r == (a@ == b@),
{
    let x: &[u8] = a.as_bytes();
    let y: &[u8] = b.as_bytes();
    if x.len() != y.len() {
        return false;
    }
    let mut i: usize = 0;
    while i < x.len()
        invariant
            i <= x@.len(),
            x@.len() == y@.len(),
            x@ == a.spec_bytes(),
            y@ == b.spec_bytes(),
            forall|j: int| 0 <= j < i ==> x@[j] == y@[j],
        decreases x@.len() - i,
    {
        if x[i] != y[i] {
            return false;
        }
        i += 1;
    }
    proof {
        assert(x@ =~= y@);
        encode_utf8_decode_utf8(a@);
        encode_utf8_decode_utf8(b@);
    }
    true
}

/// A struct of the file: a camera, a mesh, a material, or anything else
/// that Blender keeps in memory, down to the nodes of a material and the
/// settings of the user. It reads its fields from the bytes on demand.
pub struct Instance<'a> {
    /// The file that the instance belongs to.
    pub blend: &'a RawBlend,
    /// The name of the struct's type.
    pub ty_name: String,
    /// The bytes that the instance reads.
    pub data: InstanceDataFormat<'a>,
    /// The templates of the fields, under the field names, in the order of
    /// the struct.
    pub fields: LinkedHashMap<String, FieldTemplate>,
}

/// [`Instance`] as a mathematical value. The file that the instance belongs
/// to stands beside it.
pub struct InstanceView {
    pub ty_name: Seq<char>,
    pub data: DataView,
    pub fields: FieldList,
}

impl<'a> View for Instance<'a> {
    type V = InstanceView;

    open spec fn view(&self) -> InstanceView {
        InstanceView {
            ty_name: self.ty_name@,
            data: self.data@,
            fields: field_entries(self.fields),
        }
    }
}

impl InstanceView {
    /// The template of the field `name`, if the instance has such a field.
    pub open spec fn field(self, name: Seq<char>) -> Option<FieldTemplateView> {
        lookup(self.fields, name)
    }

    /// Whether the bytes of `field` lie inside the data of the instance.
    pub open spec fn holds(self, field: FieldTemplateView) -> bool {
        self.data.readable() && field.data_start + field.data_len <= self.data.bytes().len()
    }

    /// The bytes of `field`.
    pub open spec fn bytes_of(self, field: FieldTemplateView) -> Seq<u8> {
        self.data.bytes().subrange(field.data_start as int, field.data_start + field.data_len)
    }
}

/// The values of type `U` that `bytes` hold one after the other.
pub open spec fn elements<U: BlendPrimitive>(bytes: Seq<u8>, endianness: Endianness) -> Seq<U> {
    Seq::new(
        (bytes.len() / U::width()) as nat,
        |i: int| U::decode(bytes.subrange(i * U::width(), (i + 1) * U::width()), endianness),
    )
}

/// The text that a field of `char` holds: its bytes up to the first zero
/// byte, each taken as a character.
pub open spec fn text_of(bytes: Seq<u8>) -> Seq<char> {
    Seq::new(zero_from(bytes, 0) as nat, |i: int| bytes[i] as char)
}

impl InstanceView {
    /// The value of type `U` in the field `name`. There is one where the
    /// field is a single value of the primitive type that the DNA calls by
    /// the name of `U`, takes as many bytes as a `U`, and lies inside the
    /// data of the instance.
    pub open spec fn value<U: BlendPrimitive>(self, name: Seq<char>, endianness: Endianness)
        -> Option<U> {
        match self.field(name) {
            Some(field) => if field.info is Value && field.is_primitive && field.ty_name
                == U::name() && field.data_len == U::width() && self.holds(field) {
                Some(U::decode(self.bytes_of(field), endianness))
            } else {
                None
            },
            None => None,
        }
    }

    /// The bytes that hold the values of type `U` of the field `name`: the
    /// bytes of the field where it is an array of the primitive type that
    /// the DNA calls by the name of `U`, the bytes of the block that it
    /// points to where it is a single pointer. Either way the bytes must
    /// make a whole number of values.
    pub open spec fn value_bytes<U: BlendPrimitive>(self, file: RawBlendView, name: Seq<char>)
        -> Option<Seq<u8>> {
        match self.field(name) {
            Some(field) => match field.info {
                FieldShape::ValueArray { len, .. } => if field.is_primitive && field.ty_name
                    == U::name() && len > 0 && field.data_len / len == U::width()
                    && field.data_len as nat % U::width() == 0 && self.holds(field) {
                    Some(self.bytes_of(field))
                } else {
                    None
                },
                FieldShape::Pointer { indirection_count } => if indirection_count == 1
                    && self.holds(field) && field.data_len >= file.header.pointer_size.width() {
                    match pointer_of(file, self.bytes_of(field)) {
                        PointerView::Block(block) => if block.bytes().len() % U::width() == 0 {
                            Some(block.bytes())
                        } else {
                            None
                        },
                        _ => None,
                    }
                } else {
                    None
                },
                _ => None,
            },
            None => None,
        }
    }

    /// The values of type `U` of the field `name`.
    pub open spec fn values<U: BlendPrimitive>(self, file: RawBlendView, name: Seq<char>) -> Option<
        Seq<U>,
    > {
        match self.value_bytes::<U>(file, name) {
            Some(bytes) => Some(elements::<U>(bytes, file.header.endianness)),
            None => None,
        }
    }

    /// The text of the field `name`. There is one where the field is a value
    /// or an array of the primitive type `char` and lies inside the data of
    /// the instance.
    pub open spec fn text(self, name: Seq<char>) -> Option<Seq<char>> {
        match self.field(name) {
            Some(field) => if (field.info is Value || field.info is ValueArray)
                && field.is_primitive && field.ty_name == "char"@ && self.holds(field) {
                Some(text_of(self.bytes_of(field)))
            } else {
                None
            },
            None => None,
        }
    }
}

/// A single value of the primitive type that the DNA calls by the name of
/// `U`, which takes as many bytes as a `U` and lies inside the data of the
/// instance, can be read as a `U`.
pub proof fn lemma_matching_value_is_readable<U: BlendPrimitive>(
    inst: InstanceView,
    name: Seq<char>,
    endianness: Endianness,
)
    requires
        inst.field(name) is Some,
        inst.field(name)->Some_0.info is Value,
        inst.field(name)->Some_0.is_primitive,
        inst.field(name)->Some_0.ty_name == U::name(),
        inst.field(name)->Some_0.data_len == U::width(),
        inst.holds(inst.field(name)->Some_0),
    ensures
        inst.value::<U>(name, endianness) == Some(
            U::decode(inst.bytes_of(inst.field(name)->Some_0), endianness),
        ),
{
}

/// A field can be read as a `U` only if it is a single value of the
/// primitive type that the DNA calls by the name of `U`.
pub proof fn lemma_value_needs_matching_type<U: BlendPrimitive>(
    inst: InstanceView,
    name: Seq<char>,
    endianness: Endianness,
)
    requires
        inst.value::<U>(name, endianness) is Some,
    ensures
        inst.field(name) is Some,
        inst.field(name)->Some_0.info is Value,
        inst.field(name)->Some_0.is_primitive,
        inst.field(name)->Some_0.ty_name == U::name(),
        inst.field(name)->Some_0.data_len == U::width(),
        inst.holds(inst.field(name)->Some_0),
{
}

/// A field whose type the DNA calls by another name than that of `U` cannot
/// be read as a `U`, whatever its size: [`Instance::try_get_value`] gives
/// nothing, and neither [`Instance::get_value`] nor a getter such as
/// [`Instance::get_i32`] can be called for it.
pub proof fn lemma_other_type_is_refused<U: BlendPrimitive>(
    inst: InstanceView,
    name: Seq<char>,
    endianness: Endianness,
)
    requires
        inst.field(name) is Some,
        inst.field(name)->Some_0.ty_name != U::name(),
    ensures
        inst.value::<U>(name, endianness) is None,
{
}

/// A `float` of the file can be read as the bits of a float, and not as an
/// `int`, though both take four bytes: for such a field
/// [`Instance::get_i32`] cannot be called.
pub proof fn lemma_float_is_no_int(inst: InstanceView, name: Seq<char>, endianness: Endianness)
    requires
        inst.field(name) is Some,
        inst.field(name)->Some_0.ty_name == "float"@,
    ensures
        inst.value::<i32>(name, endianness) is None,
        inst.field(name)->Some_0.info is Value && inst.field(name)->Some_0.is_primitive
            && inst.field(name)->Some_0.data_len == 4 && inst.holds(inst.field(name)->Some_0)
            ==> inst.value::<FloatBits>(name, endianness) is Some,
{
    crate::parsers::primitive::lemma_primitive_names_differ();
}

/// Calls `String::push`, which appends one character to the text.
#[verifier::external_body]
fn push_char(text: &mut String, c: char)
    ensures
        final(text)@ == old(text)@.push(c),
{
    text.push(c);
}

/// Decodes the values of type `U` that `data` holds one after the other.
fn parse_elements<U: BlendPrimitive>(data: &[u8], endianness: Endianness) -> (r: Vec<U>)
    requires
        data@.len() % U::width() == 0,
    ensures
        r@ == elements::<U>(data@, endianness),
{
    let width: usize = U::size();
    let count: usize = data.len() / width;
    let mut values: Vec<U> = Vec::new();
    let mut i: usize = 0;
    assert(data@.len() == count * width) by (nonlinear_arith)
        requires
            width > 0,
            data@.len() % (width as nat) == 0,
            count == data@.len() / (width as nat),
    ;
    while i < count
        invariant
            i <= count,
            width == U::width(),
            width > 0,
            data@.len() == count * width,
            data@.len() <= usize::MAX,
            values@.len() == i,
            forall|j: int|
                0 <= j < i ==> values@[j] == U::decode(
                    data@.subrange(j * width, (j + 1) * width),
                    endianness,
                ),
        decreases count - i,
    {
        assert((i + 1) * width <= count * width && i * width + width == (i + 1) * width && i
            * width >= 0) by (nonlinear_arith)
            requires
                i < count,
                width > 0,
        ;
        let start: usize = i * width;
        let chunk: &[u8] = &data[start..start + width];
        values.push(U::parse(chunk, endianness));
        i += 1;
    }
    assert(count == data@.len() / (width as nat)) by (nonlinear_arith)
        requires
            width > 0,
            data@.len() == count * width,
    ;
    assert(values@ =~= elements::<U>(data@, endianness));
    values
}

impl<'a> Instance<'a> {
    /// The template of the field `name`, if the instance has such a field.
    pub fn field(&self, name: &str) -> (r: Option<&FieldTemplate>)
        ensures
            match r {
                Some(template) => self@.field(name@) == Some(template@),
                None => self@.field(name@) is None,
            },
    {
        fields_get(&self.fields, name)
    }

    /// The template of the field `name`, which the instance must have.
    fn expect_field(&self, name: &str) -> (r: &FieldTemplate)
        requires
            self@.field(name@) is Some,
        ensures
            self@.field(name@) == Some(r@),
    {
        match fields_get(&self.fields, name) {
            Some(field) => field,
            None => vstd::pervasive::unreached(),
        }
    }

    /// The four byte code of the block behind the instance: `OB` for an
    /// object, `ME` for a mesh, `CA` for a camera and so on, filled up with
    /// zero bytes. Only an instance made from a block that has a code of its
    /// own has one.
    pub fn code(&self) -> (r: [u8; 4])
        requires
            self@.data.code() is Some,
        ensures
            self@.data.code() == Some(r@),
    {
        match self.data.code() {
            Some(code) => code,
            None => vstd::pervasive::unreached(),
        }
    }

    /// The address that the block behind the instance had in memory when the
    /// file was saved. Only an instance made from a block has one.
    pub fn memory_address(&self) -> (r: u64)
        requires
            self@.data.readable(),
            self@.data is Block,
        ensures
            self@.data.address() == Some(r),
    {
        match self.data.memory_address() {
            Some(address) => address,
            None => vstd::pervasive::unreached(),
        }
    }

    /// Reads an address from the start of `data`; `None` for the null
    /// pointer.
    fn parse_ptr_address(&self, data: &[u8]) -> (r: Option<u64>)
        requires
            data@.len() >= self.blend.header.pointer_size.width(),
        ensures
            r == if address_of(data@, self.blend.header) == 0 {
                None
            } else {
                Some(address_of(data@, self.blend.header))
            },
    {
        parse_ptr_address(data, self.blend.header.pointer_size, self.blend.header.endianness)
    }

    /// The block behind a pointer field.
    ///
    /// The field must be a pointer whose bytes lie inside the data of the
    /// instance and hold a whole address.
    pub fn get_ptr(&self, field: &FieldTemplate) -> (r: PointerInfo<'a>)
        requires
            field@.info is Pointer,
            self@.holds(field@),
            field.data_len >= self.blend.header.pointer_size.width(),
        ensures
            r@ == pointer_of(self.blend@, self@.bytes_of(field@)),
            r@ matches PointerView::Block(block) ==> block.has_data(),
    {
        let address: Option<u64> = self.parse_ptr_address(
            self.data.get(field.data_start, field.data_len),
        );
        match address {
            None => PointerInfo::Null,
            Some(address) => match find_block(self.blend, address) {
                Some(block) => PointerInfo::Block(block),
                None => PointerInfo::Invalid,
            },
        }
    }
}

impl<'a> Instance<'a> {
    /// Reads the field `name` as a value of type `U`, if it is one.
    pub fn try_get_value<U: BlendPrimitive>(&self, name: &str) -> (r: Option<U>)
        ensures
            r == self@.value::<U>(name@, self.blend.header.endianness),
    {
        let field: &FieldTemplate = match self.field(name) {
            Some(field) => field,
            None => {
                return None;
            },
        };
        match field.info {
            FieldInfo::Value => {},
            _ => {
                return None;
            },
        }
        if !field.is_primitive || !same_text(field.ty_name.as_str(), U::blender_name())
            || field.data_len != U::size() || !self.holds_field(field) {
            return None;
        }
        Some(U::parse(self.data.get(field.data_start, field.data_len), self.blend.header.endianness))
    }

    /// Whether the data of the instance can be read.
    pub(crate) fn is_readable(&self) -> (r: bool)
        ensures
            r == self@.data.readable(),
    {
        match self.data {
            InstanceDataFormat::Block(block) => match block {
                Block::Principal { .. } | Block::Subsidiary { .. } | Block::Global { .. } => true,
                _ => false,
            },
            InstanceDataFormat::Raw(_) => true,
        }
    }

    /// Whether the bytes of `field` lie inside the data of the instance.
    pub fn holds_field(&self, field: &FieldTemplate) -> (r: bool)
        ensures
            r == self@.holds(field@),
    {
        if !self.is_readable() {
            return false;
        }
        let total: usize = self.data.data().len();
        field.data_start <= total && field.data_len <= total - field.data_start
    }

    /// Reads the field `name` as a value of type `U`.
    ///
    /// The field must be a single value of the primitive type that the DNA
    /// calls by the name of `U`, and take as many bytes as a `U`.
    pub fn get_value<U: BlendPrimitive>(&self, name: &str) -> (r: U)
        requires
            self@.value::<U>(name@, self.blend.header.endianness) is Some,
        ensures
            self@.value::<U>(name@, self.blend.header.endianness) == Some(r),
    {
        match self.try_get_value::<U>(name) {
            Some(value) => value,
            None => vstd::pervasive::unreached(),
        }
    }
}

impl<'a> Instance<'a> {
    /// Reads the values of type `U` of the field `name`, if it holds such
    /// values: from the field itself where it is an array, from the block
    /// that it points to where it is a single pointer.
    pub fn try_get_value_vec<U: BlendPrimitive>(&self, name: &str) -> (r: Option<Vec<U>>)
        ensures
            match r {
                Some(values) => self@.values::<U>(self.blend@, name@) == Some(values@),
                None => self@.values::<U>(self.blend@, name@) is None,
            },
    {
        let field: &FieldTemplate = match self.field(name) {
            Some(field) => field,
            None => {
                return None;
            },
        };
        let data: &[u8] = match &field.info {
            FieldInfo::ValueArray { len, .. } => {
                if !field.is_primitive || !same_text(field.ty_name.as_str(), U::blender_name())
                    || *len == 0 || field.data_len / *len != U::size() || field.data_len
                    % U::size() != 0 || !self.holds_field(field) {
                    return None;
                }
                self.data.get(field.data_start, field.data_len)
            },
            FieldInfo::Pointer { indirection_count } => {
                if *indirection_count != 1 || !self.holds_field(field) || field.data_len
                    < self.blend.header.pointer_size.bytes_num() {
                    return None;
                }
                match self.get_ptr(field) {
                    PointerInfo::Block(block) => {
                        let data: &[u8] = InstanceDataFormat::Block(block).data();
                        if data.len() % U::size() != 0 {
                            return None;
                        }
                        data
                    },
                    _ => {
                        return None;
                    },
                }
            },
            _ => {
                return None;
            },
        };
        Some(parse_elements::<U>(data, self.blend.header.endianness))
    }

    /// Reads the values of type `U` of the field `name`.
    ///
    /// The field must be an array of the primitive type that the DNA calls
    /// by the name of `U`, or a single pointer to a block whose bytes make a
    /// whole number of values.
    pub fn get_value_vec<U: BlendPrimitive>(&self, name: &str) -> (r: Vec<U>)
        requires
            self@.values::<U>(self.blend@, name@) is Some,
        ensures
            self@.values::<U>(self.blend@, name@) == Some(r@),
    {
        match self.try_get_value_vec::<U>(name) {
            Some(values) => values,
            None => vstd::pervasive::unreached(),
        }
    }

    /// Reads the field `name` as a `u8`; the DNA calls the type `char`.
    pub fn get_u8(&self, name: &str) -> (r: u8)
        requires
            self@.value::<u8>(name@, self.blend.header.endianness) is Some,
        ensures
            self@.value::<u8>(name@, self.blend.header.endianness) == Some(r),
    {
        self.get_value::<u8>(name)
    }

    /// Reads the field `name` as an `i8`; the DNA calls the type `char`.
    pub fn get_i8(&self, name: &str) -> (r: i8)
        requires
            self@.value::<i8>(name@, self.blend.header.endianness) is Some,
        ensures
            self@.value::<i8>(name@, self.blend.header.endianness) == Some(r),
    {
        self.get_value::<i8>(name)
    }

    /// Reads the field `name` as a character; the DNA calls the type `char`.
    pub fn get_char(&self, name: &str) -> (r: char)
        requires
            self@.value::<char>(name@, self.blend.header.endianness) is Some,
        ensures
            self@.value::<char>(name@, self.blend.header.endianness) == Some(r),
    {
        self.get_value::<char>(name)
    }

    /// Reads the field `name` as a `u16`; the DNA calls the type `ushort`.
    pub fn get_u16(&self, name: &str) -> (r: u16)
        requires
            self@.value::<u16>(name@, self.blend.header.endianness) is Some,
        ensures
            self@.value::<u16>(name@, self.blend.header.endianness) == Some(r),
    {
        self.get_value::<u16>(name)
    }

    /// Reads the field `name` as an `i16`; the DNA calls the type `short`.
    pub fn get_i16(&self, name: &str) -> (r: i16)
        requires
            self@.value::<i16>(name@, self.blend.header.endianness) is Some,
        ensures
            self@.value::<i16>(name@, self.blend.header.endianness) == Some(r),
    {
        self.get_value::<i16>(name)
    }

    /// Reads the field `name` as an `i32`; the DNA calls the type `int`.
    pub fn get_i32(&self, name: &str) -> (r: i32)
        requires
            self@.value::<i32>(name@, self.blend.header.endianness) is Some,
        ensures
            self@.value::<i32>(name@, self.blend.header.endianness) == Some(r),
    {
        self.get_value::<i32>(name)
    }

    /// Reads the field `name` as the bits of an `f32`; the DNA calls the type `float`.
    pub fn get_f32_bits(&self, name: &str) -> (r: u32)
        requires
            self@.value::<FloatBits>(name@, self.blend.header.endianness) is Some,
        ensures
            self@.value::<FloatBits>(name@, self.blend.header.endianness) == Some(FloatBits(r)),
    {
        self.get_value::<FloatBits>(name).0
    }

    /// Reads the field `name` as the bits of an `f64`; the DNA calls the type `double`.
    pub fn get_f64_bits(&self, name: &str) -> (r: u64)
        requires
            self@.value::<DoubleBits>(name@, self.blend.header.endianness) is Some,
        ensures
            self@.value::<DoubleBits>(name@, self.blend.header.endianness) == Some(DoubleBits(r)),
    {
        self.get_value::<DoubleBits>(name).0
    }

    /// Reads the field `name` as a `u64`; the DNA calls the type `uint64_t`.
    pub fn get_u64(&self, name: &str) -> (r: u64)
        requires
            self@.value::<u64>(name@, self.blend.header.endianness) is Some,
        ensures
            self@.value::<u64>(name@, self.blend.header.endianness) == Some(r),
    {
        self.get_value::<u64>(name)
    }

    /// Reads the field `name` as an `i64`; the DNA calls the type `int64_t`.
    pub fn get_i64(&self, name: &str) -> (r: i64)
        requires
            self@.value::<i64>(name@, self.blend.header.endianness) is Some,
        ensures
            self@.value::<i64>(name@, self.blend.header.endianness) == Some(r),
    {
        self.get_value::<i64>(name)
    }

    /// Reads the field `name` as a list of `u8` values.
    pub fn get_u8_vec(&self, name: &str) -> (r: Vec<u8>)
        requires
            self@.values::<u8>(self.blend@, name@) is Some,
        ensures
            self@.values::<u8>(self.blend@, name@) == Some(r@),
    {
        self.get_value_vec::<u8>(name)
    }

    /// Reads the field `name` as a list of `i8` values.
    pub fn get_i8_vec(&self, name: &str) -> (r: Vec<i8>)
        requires
            self@.values::<i8>(self.blend@, name@) is Some,
        ensures
            self@.values::<i8>(self.blend@, name@) == Some(r@),
    {
        self.get_value_vec::<i8>(name)
    }

    /// Reads the field `name` as a list of `i32` values.
    pub fn get_i32_vec(&self, name: &str) -> (r: Vec<i32>)
        requires
            self@.values::<i32>(self.blend@, name@) is Some,
        ensures
            self@.values::<i32>(self.blend@, name@) == Some(r@),
    {
        self.get_value_vec::<i32>(name)
    }

    /// Reads the field `name` as a list of `i16` values.
    pub fn get_i16_vec(&self, name: &str) -> (r: Vec<i16>)
        requires
            self@.values::<i16>(self.blend@, name@) is Some,
        ensures
            self@.values::<i16>(self.blend@, name@) == Some(r@),
    {
        self.get_value_vec::<i16>(name)
    }

    /// Reads the field `name` as a list of the bits of `f32` values.
    pub fn get_f32_bits_vec(&self, name: &str) -> (r: Vec<FloatBits>)
        requires
            self@.values::<FloatBits>(self.blend@, name@) is Some,
        ensures
            self@.values::<FloatBits>(self.blend@, name@) == Some(r@),
    {
        self.get_value_vec::<FloatBits>(name)
    }

    /// Reads the field `name` as a list of the bits of `f64` values.
    pub fn get_f64_bits_vec(&self, name: &str) -> (r: Vec<DoubleBits>)
        requires
            self@.values::<DoubleBits>(self.blend@, name@) is Some,
        ensures
            self@.values::<DoubleBits>(self.blend@, name@) == Some(r@),
    {
        self.get_value_vec::<DoubleBits>(name)
    }

    /// Reads the field `name` as a list of `u64` values.
    pub fn get_u64_vec(&self, name: &str) -> (r: Vec<u64>)
        requires
            self@.values::<u64>(self.blend@, name@) is Some,
        ensures
            self@.values::<u64>(self.blend@, name@) == Some(r@),
    {
        self.get_value_vec::<u64>(name)
    }

    /// Reads the field `name` as a list of `i64` values.
    pub fn get_i64_vec(&self, name: &str) -> (r: Vec<i64>)
        requires
            self@.values::<i64>(self.blend@, name@) is Some,
        ensures
            self@.values::<i64>(self.blend@, name@) == Some(r@),
    {
        self.get_value_vec::<i64>(name)
    }

    /// Reads the text of the field `name`, if it is a value or an array of
    /// `char`: the bytes up to the first zero byte, each as one character.
    pub fn try_get_string(&self, name: &str) -> (r: Option<String>)
        ensures
            match r {
                Some(text) => self@.text(name@) == Some(text@),
                None => self@.text(name@) is None,
            },
    {
        let field: &FieldTemplate = match self.field(name) {
            Some(field) => field,
            None => {
                return None;
            },
        };
        match field.info {
            FieldInfo::Value | FieldInfo::ValueArray { .. } => {},
            _ => {
                return None;
            },
        }
        if !field.is_primitive || !same_text(field.ty_name.as_str(), "char") || !self.holds_field(
            field,
        ) {
            return None;
        }
        let data: &[u8] = self.data.get(field.data_start, field.data_len);
        let mut text: String = String::new();
        let mut i: usize = 0;
        while i < data.len() && data[i] != 0
            invariant
                i <= data@.len(),
                zero_from(data@, 0) == zero_from(data@, i as int),
                text@ == Seq::new(i as nat, |j: int| data@[j] as char),
            decreases data@.len() - i,
        {
            push_char(&mut text, data[i] as char);
            assert(text@ =~= Seq::new((i + 1) as nat, |j: int| data@[j] as char));
            i += 1;
        }
        Some(text)
    }

    /// Reads the text of the field `name`, which must be a value or an array
    /// of `char`.
    pub fn get_string(&self, name: &str) -> (r: String)
        requires
            self@.text(name@) is Some,
        ensures
            self@.text(name@) == Some(r@),
    {
        match self.try_get_string(name) {
            Some(text) => text,
            None => vstd::pervasive::unreached(),
        }
    }
}

} // verus!
