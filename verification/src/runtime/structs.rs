//! Struct access: the instance behind a field that is a struct or that
//! points to one, and the probe that tells whether a field can be followed.

use crate::parsers::blend::{address_of, Block, BlockView, Header, RawBlend, RawBlendView};
use crate::parsers::dna::{Dna, DnaStruct, DnaStructView, DnaType, DnaTypeView, DnaView};
use crate::parsers::PointerSize;
use crate::parsers::field::{FieldInfo, FieldShape};
use crate::runtime::instance::{
    block_count, find_block, pointer_of, same_text, target_of, DataView, Instance,
    InstanceDataFormat, InstanceView, PointerInfo, PointerView,
};
use crate::runtime::template::{
    field_entries, generate_fields, keyed, layout_of, try_generate_fields, FieldList,
    FieldTemplate, FieldTemplateView, PRIMITIVE_TYPES,
};
use linked_hash_map::LinkedHashMap;
use vstd::prelude::*;
use vstd::string::*;

verus! {

/// The index of the first struct at or after `from` whose type is
/// `type_index`; the number of structs if there is none.
pub open spec fn struct_index(structs: Seq<DnaStructView>, type_index: usize, from: int) -> int
    decreases structs.len() - from,
{
    if from < 0 || from >= structs.len() {
        structs.len() as int
    } else if structs[from].type_index == type_index {
        from
    } else {
        struct_index(structs, type_index, from + 1)
    }
}

/// The struct to read a block as, when a field of type `field_type` points to
/// it.
///
/// A root block and a `GLOB` block know their struct. A `DATA` block is
/// trusted where its index is at or above the number of primitive types;
/// else the type of the field decides, if it is the type of a struct; else
/// the block has no struct and is a run of primitive values.
pub open spec fn resolved_struct(dna: DnaView, field_type: usize, block: BlockView) -> Option<int> {
    match block {
        BlockView::Principal { dna_index, .. } => Some(dna_index as int),
        BlockView::Global { dna_index, .. } => Some(dna_index as int),
        BlockView::Subsidiary { dna_index, .. } => subsidiary_struct(dna, field_type, dna_index),
        _ => None,
    }
}

/// The struct to read a `DATA` block as, when the block gives `dna_index`
/// for its struct and a field of type `field_type` points to it.
pub open spec fn subsidiary_struct(dna: DnaView, field_type: usize, dna_index: usize) -> Option<
    int,
> {
    if dna_index >= PRIMITIVE_TYPES {
        Some(dna_index as int)
    } else if field_type >= PRIMITIVE_TYPES && struct_index(dna.structs, field_type, 0)
        < dna.structs.len() {
        Some(struct_index(dna.structs, field_type, 0))
    } else {
        None
    }
}

/// The type and the templates of struct number `s` of the DNA. There are
/// none where the DNA has no such struct, or no type for it, or no layout
/// (see [`layout_of`]).
pub open spec fn struct_layout(dna: DnaView, s: int, pointer_size: PointerSize) -> Option<
    (DnaTypeView, FieldList),
> {
    if 0 <= s < dna.structs.len() && dna.structs[s].type_index < dna.types.len() {
        let ty = dna.types[dna.structs[s].type_index as int];
        match layout_of(dna, dna.structs[s], ty.bytes_len, pointer_size) {
            Some(list) => Some((ty, list)),
            None => None,
        }
    } else {
        None
    }
}

/// The instance of struct number `s` of the DNA over `data`. There is none
/// where the DNA has no such struct, or no type for it, or no layout (see
/// [`layout_of`]).
pub open spec fn instance_of(file: RawBlendView, s: int, data: DataView) -> Option<InstanceView> {
    match struct_layout(file.dna, s, file.header.pointer_size) {
        Some((ty, list)) => Some(InstanceView { ty_name: ty.name, data, fields: keyed(list) }),
        None => None,
    }
}

/// The instance over a block that a field of type `field_type` points to.
pub open spec fn instance_at(file: RawBlendView, field_type: usize, block: BlockView) -> Option<
    InstanceView,
> {
    match resolved_struct(file.dna, field_type, block) {
        Some(s) => instance_of(file, s, DataView::Block(block)),
        None => None,
    }
}

/// Whether every address in `bytes`, a list of pointers, leads to a block.
pub open spec fn all_resolve(file: RawBlendView, bytes: Seq<u8>) -> bool {
    forall|k: int|
        0 <= k < bytes.len() / file.header.pointer_size.width() ==> #[trigger] target_of(
            file,
            address_of(bytes.skip(k * file.header.pointer_size.width()), file.header),
        ) is Block
}

impl InstanceView {
    /// Whether `field` holds a whole address inside the data of the
    /// instance.
    pub open spec fn holds_pointer(self, file: RawBlendView, field: FieldTemplateView) -> bool {
        self.holds(field) && field.data_len >= file.header.pointer_size.width()
    }

    /// The struct behind the field `name`.
    ///
    /// For a value that is a struct: an instance over the bytes of the
    /// field, of the first struct of the DNA that has the field's type. For
    /// a single pointer that leads to a block of one struct: an instance
    /// over the block, of the struct that [`resolved_struct`] picks. For
    /// anything else there is none.
    pub open spec fn member(self, file: RawBlendView, name: Seq<char>) -> Option<InstanceView> {
        match self.field(name) {
            Some(field) => match field.info {
                FieldShape::Value => if !field.is_primitive && self.holds(field) {
                    instance_of(
                        file,
                        struct_index(file.dna.structs, field.type_index, 0),
                        DataView::Raw(self.bytes_of(field)),
                    )
                } else {
                    None
                },
                FieldShape::Pointer { indirection_count } => if indirection_count == 1
                    && self.holds_pointer(file, field) {
                    match pointer_of(file, self.bytes_of(field)) {
                        PointerView::Block(block) => if block.struct_count() == 1 {
                            instance_at(file, field.type_index, block)
                        } else {
                            None
                        },
                        _ => None,
                    }
                } else {
                    None
                },
                _ => None,
            },
            None => None,
        }
    }

    /// Whether the field `name` can be followed, looking at most `depth`
    /// lists deep: into the ends of a list, and where an end is a list
    /// itself, into its ends.
    pub open spec fn valid_within(self, file: RawBlendView, name: Seq<char>, depth: nat) -> bool
        decreases depth,
    {
        match self.field(name) {
            Some(field) => match field.info {
                FieldShape::Pointer { indirection_count } => if indirection_count == 1 {
                    self.holds_pointer(file, field) && pointer_of(file, self.bytes_of(field))
                        is Block
                } else if indirection_count == 2 {
                    self.holds_pointer(file, field) && (pointer_of(file, self.bytes_of(field))
                        matches PointerView::Block(block) && all_resolve(file, block.bytes()))
                } else {
                    false
                },
                FieldShape::Value => if field.ty_name == "ListBase"@ {
                    depth > 0 && (self.member(file, name) matches Some(list) && list.valid_within(
                        file,
                        "first"@,
                        (depth - 1) as nat,
                    ) && list.valid_within(file, "last"@, (depth - 1) as nat))
                } else {
                    true
                },
                FieldShape::ValueArray { .. } => true,
                FieldShape::FnPointer => false,
                FieldShape::PointerArray { .. } => false,
            },
            None => false,
        }
    }

    /// Whether the field `name` can be followed.
    ///
    /// A single pointer: its address is not null and leads to a block. A
    /// pointer to pointers: the same, and every address in the block it
    /// leads to does so too. A `ListBase`: it is a struct with a layout,
    /// and its `first` and its `last` can be followed. Any other value and
    /// any array of values: always. A pointer to a function, an array of
    /// pointers, a pointer of more than two levels and a name that the
    /// instance does not have: never.
    ///
    /// Lists inside the ends of lists are looked into as many deep as the
    /// DNA has structs. No DNA nests deeper, but for one in which a list
    /// holds itself, and such a list is not valid.
    pub open spec fn valid(self, file: RawBlendView, name: Seq<char>) -> bool {
        self.valid_within(file, name, file.dna.structs.len())
    }
}

/// What the validity probe promises of a field that it accepts.
///
/// A single pointer leads to a root, `DATA` or `GLOB` block, and the struct
/// behind it is there exactly if that block holds one struct and this
/// struct has a layout. A pointer to pointers leads to a block of addresses
/// that all lead to blocks. A `ListBase` is a struct with a layout whose
/// `first` and `last` can be followed.
pub proof fn lemma_valid_field(inst: InstanceView, file: RawBlendView, name: Seq<char>)
    requires
        inst.valid(file, name),
    ensures
        inst.field(name) is Some,
        inst.field(name)->Some_0.info == (FieldShape::Pointer { indirection_count: 1 }) ==> ({
            let field = inst.field(name)->Some_0;
            pointer_of(file, inst.bytes_of(field)) matches PointerView::Block(block)
                && block.has_data() && (inst.member(file, name) is Some <==> block.struct_count()
                == 1 && instance_at(file, field.type_index, block) is Some)
        }),
        inst.field(name)->Some_0.info == (FieldShape::Pointer { indirection_count: 2 }) ==> ({
            let field = inst.field(name)->Some_0;
            pointer_of(file, inst.bytes_of(field)) matches PointerView::Block(block)
                && all_resolve(file, block.bytes())
        }),
        inst.field(name)->Some_0.info is Value && inst.field(name)->Some_0.ty_name == "ListBase"@
            ==> (inst.member(file, name) matches Some(list) && list.valid_within(
            file,
            "first"@,
            (file.dna.structs.len() - 1) as nat,
        ) && list.valid_within(file, "last"@, (file.dna.structs.len() - 1) as nat)),
{
    let field = inst.field(name)->Some_0;
    if field.info == (FieldShape::Pointer { indirection_count: 1 }) {
        crate::runtime::instance::lemma_target_index(
            file.blocks,
            address_of(inst.bytes_of(field), file.header),
            0,
        );
    }
}

/// Looks for the first struct of the DNA whose type is `type_index`.
pub(crate) fn find_struct(dna: &Dna, type_index: usize) -> (r: usize)
    ensures
        r == struct_index(dna@.structs, type_index, 0),
        r <= dna.structs@.len(),
{
    let mut i: usize = 0;
    while i < dna.structs.len()
        invariant
            i <= dna.structs@.len(),
            dna@.structs.len() == dna.structs@.len(),
            struct_index(dna@.structs, type_index, 0) == struct_index(
                dna@.structs,
                type_index,
                i as int,
            ),
        decreases dna.structs@.len() - i,
    {
        assert(dna@.structs[i as int] == dna.structs@[i as int]@);
        if dna.structs[i].type_index == type_index {
            return i;
        }
        i += 1;
    }
    i
}

/// Picks the struct to read a block as, when a field of type `field_type`
/// points to it.
pub(crate) fn resolve_struct(dna: &Dna, field_type: usize, block: &Block) -> (r: Option<usize>)
    ensures
        match r {
            Some(s) => resolved_struct(dna@, field_type, block@) == Some(s as int),
            None => resolved_struct(dna@, field_type, block@) is None,
        },
{
    match block {
        Block::Principal { dna_index, .. } => Some(*dna_index),
        Block::Global { dna_index, .. } => Some(*dna_index),
        Block::Subsidiary { dna_index, .. } => resolve_subsidiary(dna, field_type, *dna_index),
        _ => None,
    }
}

/// Lays out struct number `s` of the DNA: the templates of the fields, and
/// the type of the struct.
fn generate_struct_fields<'a>(dna: &'a Dna, header: &Header, s: usize) -> (r: Option<
    (LinkedHashMap<String, FieldTemplate>, &'a DnaType),
>)
    ensures
        match r {
            Some((fields, ty)) => struct_layout(dna@, s as int, header.pointer_size) matches Some(
                (ty_view, list),
            ) && ty@ == ty_view && field_entries(fields) == keyed(list),
            None => struct_layout(dna@, s as int, header.pointer_size) is None,
        },
{
    if s >= dna.structs.len() {
        return None;
    }
    let dna_struct: &DnaStruct = &dna.structs[s];
    assert(dna@.structs[s as int] == dna_struct@);
    if dna_struct.type_index >= dna.types.len() {
        return None;
    }
    let ty: &'a DnaType = &dna.types[dna_struct.type_index];
    assert(dna@.types[dna_struct.type_index as int] == ty@);
    match try_generate_fields(dna_struct, ty, dna, header) {
        Some(fields) => Some((fields, ty)),
        None => None,
    }
}

/// Picks the struct to read a `DATA` block as, when the block gives
/// `dna_index` for its struct and a field of type `field_type` points to it.
fn resolve_subsidiary(dna: &Dna, field_type: usize, dna_index: usize) -> (r: Option<usize>)
    ensures
        match r {
            Some(s) => subsidiary_struct(dna@, field_type, dna_index) == Some(s as int),
            None => subsidiary_struct(dna@, field_type, dna_index) is None,
        },
{
    if dna_index >= PRIMITIVE_TYPES {
        Some(dna_index)
    } else if field_type >= PRIMITIVE_TYPES {
        let s: usize = find_struct(dna, field_type);
        if s < dna.structs.len() {
            Some(s)
        } else {
            None
        }
    } else {
        None
    }
}

/// Lays out the struct that a `DATA` block holds, when `field` points to it
/// and the block gives `dna_index` for its struct: the templates of the
/// fields, and the type of the struct.
///
/// There is none where neither the block nor the field names a struct: such
/// a block is a run of primitive values. A struct that one of them names
/// must have a layout.
pub fn generate_subsidiary_fields<'a>(
    dna: &'a Dna,
    header: &Header,
    field: &FieldTemplate,
    dna_index: usize,
) -> (r: Option<(LinkedHashMap<String, FieldTemplate>, &'a DnaType)>)
    requires
        subsidiary_struct(dna@, field.type_index, dna_index) matches Some(s) ==> struct_layout(
            dna@,
            s,
            header.pointer_size,
        ) is Some,
    ensures
        match r {
            Some((fields, ty)) => subsidiary_struct(dna@, field.type_index, dna_index) matches Some(
                s,
            ) && (struct_layout(dna@, s, header.pointer_size) matches Some((ty_view, list)) && ty@
                == ty_view && field_entries(fields) == keyed(list)),
            None => subsidiary_struct(dna@, field.type_index, dna_index) is None,
        },
{
    match resolve_subsidiary(dna, field.type_index, dna_index) {
        Some(s) => {
            let dna_struct: &DnaStruct = &dna.structs[s];
            assert(dna@.structs[s as int] == dna_struct@);
            let ty: &'a DnaType = &dna.types[dna_struct.type_index];
            assert(dna@.types[dna_struct.type_index as int] == ty@);
            Some((generate_fields(dna_struct, ty, dna, header), ty))
        },
        None => None,
    }
}

/// Lays out the struct that a `DATA` block holds, when `field` points to it
/// and the block gives `dna_index` for its struct, if there is such a
/// struct and it has a layout.
pub fn try_generate_subsidiary_fields<'a>(
    dna: &'a Dna,
    header: &Header,
    field: &FieldTemplate,
    dna_index: usize,
) -> (r: Option<(LinkedHashMap<String, FieldTemplate>, &'a DnaType)>)
    ensures
        match r {
            Some((fields, ty)) => subsidiary_struct(dna@, field.type_index, dna_index) matches Some(
                s,
            ) && (struct_layout(dna@, s, header.pointer_size) matches Some((ty_view, list)) && ty@
                == ty_view && field_entries(fields) == keyed(list)),
            None => subsidiary_struct(dna@, field.type_index, dna_index) matches Some(s)
                ==> struct_layout(dna@, s, header.pointer_size) is None,
        },
{
    match resolve_subsidiary(dna, field.type_index, dna_index) {
        Some(s) => generate_struct_fields(dna, header, s),
        None => None,
    }
}

/// Makes the instance of struct number `s` of the DNA over `data`.
pub(crate) fn make_instance<'a>(blend: &'a RawBlend, s: usize, data: InstanceDataFormat<'a>) -> (r:
    Option<Instance<'a>>)
    ensures
        match r {
            Some(instance) => instance_of(blend@, s as int, data@) == Some(instance@)
                && instance.blend == blend && instance.data == data,
            None => instance_of(blend@, s as int, data@) is None,
        },
{
    match generate_struct_fields(&blend.dna, &blend.header, s) {
        Some((fields, ty)) => Some(Instance { blend, ty_name: ty.name.clone(), data, fields }),
        None => None,
    }
}

/// Makes the instance over a block that `field` points to.
pub(crate) fn make_instance_at<'a>(blend: &'a RawBlend, field: &FieldTemplate, block: &'a Block) -> (r:
    Option<Instance<'a>>)
    ensures
        match r {
            Some(instance) => instance_at(blend@, field.type_index, block@) == Some(instance@)
                && instance.blend == blend && instance.data == InstanceDataFormat::Block(block),
            None => instance_at(blend@, field.type_index, block@) is None,
        },
{
    match block {
        Block::Principal { dna_index, .. } => make_instance(
            blend,
            *dna_index,
            InstanceDataFormat::Block(block),
        ),
        Block::Global { dna_index, .. } => make_instance(
            blend,
            *dna_index,
            InstanceDataFormat::Block(block),
        ),
        Block::Subsidiary { dna_index, .. } => match try_generate_subsidiary_fields(
            &blend.dna,
            &blend.header,
            field,
            *dna_index,
        ) {
            Some((fields, ty)) => Some(
                Instance {
                    blend,
                    ty_name: ty.name.clone(),
                    data: InstanceDataFormat::Block(block),
                    fields,
                },
            ),
            None => None,
        },
        _ => None,
    }
}

/// Whether every address in `data`, a list of pointers, leads to a block.
fn all_pointers_resolve(blend: &RawBlend, data: &[u8]) -> (r: bool)
    ensures
        r == all_resolve(blend@, data@),
{
    let width: usize = blend.header.pointer_size.bytes_num();
    let count: usize = data.len() / width;
    let mut i: usize = 0;
    assert(count * width <= data@.len()) by (nonlinear_arith)
        requires
            width > 0,
            count == data@.len() / (width as nat),
    ;
    while i < count
        invariant
            i <= count,
            width == blend@.header.pointer_size.width(),
            count == data@.len() / (width as nat),
            count * width <= data@.len() <= usize::MAX,
            forall|k: int|
                0 <= k < i ==> #[trigger] target_of(
                    blend@,
                    address_of(data@.skip(k * width), blend@.header),
                ) is Block,
        decreases count - i,
    {
        assert((i + 1) * width <= count * width && i * width + width == (i + 1) * width && i
            * width >= 0) by (nonlinear_arith)
            requires
                i < count,
                width > 0,
        ;
        let rest: &[u8] = &data[i * width..data.len()];
        assert(rest@ =~= data@.skip(i * width));
        let address: u64 = match crate::runtime::instance::parse_ptr_address(
            rest,
            blend.header.pointer_size,
            blend.header.endianness,
        ) {
            Some(address) => address,
            None => {
                assert(!(target_of(blend@, address_of(data@.skip(i * width), blend@.header))
                    is Block));
                return false;
            },
        };
        if find_block(blend, address).is_none() {
            assert(!(target_of(blend@, address_of(data@.skip(i * width), blend@.header))
                is Block));
            return false;
        }
        i += 1;
    }
    true
}

impl<'a> Instance<'a> {
    /// Whether `field` holds a whole address inside the data of the
    /// instance.
    fn holds_pointer(&self, field: &FieldTemplate) -> (r: bool)
        ensures
            r == self@.holds_pointer(self.blend@, field@),
    {
        self.holds_field(field) && field.data_len >= self.blend.header.pointer_size.bytes_num()
    }

    /// The struct behind the field `name`, if there is one: the struct that
    /// the field is, or the one struct that it points to.
    pub fn try_get(&self, name: &str) -> (r: Option<Instance<'a>>)
        ensures
            match r {
                Some(instance) => self@.member(self.blend@, name@) == Some(instance@)
                    && instance.blend == self.blend,
                None => self@.member(self.blend@, name@) is None,
            },
    {
        let field: &FieldTemplate = match self.field(name) {
            Some(field) => field,
            None => {
                return None;
            },
        };
        match &field.info {
            FieldInfo::Value => {
                if field.is_primitive || !self.holds_field(field) {
                    return None;
                }
                let s: usize = find_struct(&self.blend.dna, field.type_index);
                make_instance(
                    self.blend,
                    s,
                    InstanceDataFormat::Raw(self.data.get(field.data_start, field.data_len)),
                )
            },
            FieldInfo::Pointer { indirection_count } => {
                if *indirection_count != 1 || !self.holds_pointer(field) {
                    return None;
                }
                match self.get_ptr(field) {
                    PointerInfo::Block(block) => {
                        if block_count(block) != 1 {
                            return None;
                        }
                        make_instance_at(self.blend, field, block)
                    },
                    _ => None,
                }
            },
            _ => None,
        }
    }

    /// The struct behind the field `name`.
    ///
    /// The field must be a value that is a struct, or a single pointer that
    /// is not null and leads to a block of one struct; and the struct must
    /// have a layout.
    pub fn get(&self, name: &str) -> (r: Instance<'a>)
        requires
            self@.member(self.blend@, name@) is Some,
        ensures
            self@.member(self.blend@, name@) == Some(r@),
            r.blend == self.blend,
    {
        match self.try_get(name) {
            Some(instance) => instance,
            None => vstd::pervasive::unreached(),
        }
    }

    /// Whether the field `name` can be followed, looking at most `depth`
    /// lists deep.
    fn is_valid_within(&self, name: &str, depth: usize) -> (r: bool)
        ensures
            r == self@.valid_within(self.blend@, name@, depth as nat),
        decreases depth,
    {
        let field: &FieldTemplate = match self.field(name) {
            Some(field) => field,
            None => {
                return false;
            },
        };
        match &field.info {
            FieldInfo::Pointer { indirection_count } => {
                if *indirection_count == 1 {
                    if !self.holds_pointer(field) {
                        return false;
                    }
                    match self.get_ptr(field) {
                        PointerInfo::Block(_) => true,
                        _ => false,
                    }
                } else if *indirection_count == 2 {
                    if !self.holds_pointer(field) {
                        return false;
                    }
                    match self.get_ptr(field) {
                        PointerInfo::Block(block) => all_pointers_resolve(
                            self.blend,
                            InstanceDataFormat::Block(block).data(),
                        ),
                        _ => false,
                    }
                } else {
                    false
                }
            },
            FieldInfo::Value => {
                if same_text(field.ty_name.as_str(), "ListBase") {
                    if depth == 0 {
                        return false;
                    }
                    match self.try_get(name) {
                        Some(list) => list.is_valid_within("first", depth - 1)
                            && list.is_valid_within("last", depth - 1),
                        None => false,
                    }
                } else {
                    true
                }
            },
            FieldInfo::ValueArray { .. } => true,
            FieldInfo::FnPointer => false,
            FieldInfo::PointerArray { .. } => false,
        }
    }

    /// Tells whether the field `name` can be followed. It never fails.
    ///
    /// See [`InstanceView::valid`] for what it tells of each kind of field.
    pub fn is_valid(&self, name: &str) -> (r: bool)
        ensures
            r == self@.valid(self.blend@, name@),
    {
        self.is_valid_within(name, self.blend.dna.structs.len())
    }
}

} // verus!
