//! Field templates: where each field of a struct lies in the bytes of an
//! instance, and what shape and type it has.
//!
//! The fields of a struct lie back to back in the order of their declaration.
//! The templates of a struct are kept under the field names in a
//! `LinkedHashMap`, which remembers the order in which they were put in.

use crate::parsers::blend::Header;
use crate::parsers::dna::{Dna, DnaStruct, DnaStructView, DnaType, DnaView};
use crate::parsers::field::{field_of, parse_field, FieldInfo, FieldShape};
use crate::parsers::PointerSize;
use linked_hash_map::LinkedHashMap;
use vstd::prelude::*;

verus! {

/// A field of a struct: what is needed to find and read it in the bytes of an
/// instance.
#[derive(Debug, Clone, PartialEq, Eq)]
pub struct FieldTemplate {
    pub info: FieldInfo,
    /// The index of the field's type in [`Dna::types`].
    pub type_index: usize,
    /// The name of the field's type.
    pub ty_name: String,
    /// Where the field starts in the bytes of the instance.
    pub data_start: usize,
    /// How many bytes the field takes.
    pub data_len: usize,
    /// Whether the type is one of the primitive types, which come first in
    /// the DNA.
    pub is_primitive: bool,
}

/// [`FieldTemplate`] as a mathematical value.
pub struct FieldTemplateView {
    pub info: FieldShape,
    pub type_index: usize,
    pub ty_name: Seq<char>,
    pub data_start: usize,
    pub data_len: usize,
    pub is_primitive: bool,
}

impl View for FieldTemplate {
    type V = FieldTemplateView;

    open spec fn view(&self) -> FieldTemplateView {
        FieldTemplateView {
            info: self.info@,
            type_index: self.type_index,
            ty_name: self.ty_name@,
            data_start: self.data_start,
            data_len: self.data_len,
            is_primitive: self.is_primitive,
        }
    }
}

impl FieldTemplate {
    /// Whether the field is a single value, primitive or struct.
    pub fn is_single_value(&self) -> (r: bool)
        ensures
            r == (self@.info is Value),
    {
        match self.info {
            FieldInfo::Value => true,
            _ => false,
        }
    }

    /// Whether the field is a value or an array of values.
    pub fn is_value_or_value_array(&self) -> (r: bool)
        ensures
            r == (self@.info is Value || self@.info is ValueArray),
    {
        match self.info {
            FieldInfo::Value | FieldInfo::ValueArray { .. } => true,
            _ => false,
        }
    }

    /// Whether the field holds addresses: a pointer, an array of pointers or
    /// a pointer to a function.
    pub fn is_pointer(&self) -> (r: bool)
        ensures
            r == (self@.info is Pointer || self@.info is PointerArray || self@.info is FnPointer),
    {
        match self.info {
            FieldInfo::Pointer { .. } | FieldInfo::PointerArray { .. } | FieldInfo::FnPointer => true,
            _ => false,
        }
    }
}

/// The number of types at the start of the DNA that are primitive.
pub const PRIMITIVE_TYPES: usize = 12;

/// The templates of a struct in order, each with the name of its field.
pub type FieldList = Seq<(Seq<char>, FieldTemplateView)>;

/// `linked_hash_map::LinkedHashMap`, a hash map that hands out its entries
/// in the order in which they were put in. Nothing inside it is visible to
/// the proofs: what they know of a map they know from [`field_entries`].
#[verifier::external_type_specification]
#[verifier::external_body]
#[verifier::reject_recursive_types(K)]
#[verifier::reject_recursive_types(V)]
#[verifier::reject_recursive_types(S)]
pub struct ExLinkedHashMap<K, V, S>(LinkedHashMap<K, V, S>);

/// What a map of templates holds: its keys and values in the order in which
/// the map hands them out, which is the order in which they were put in.
pub uninterp spec fn field_entries(fields: LinkedHashMap<String, FieldTemplate>) -> FieldList;

/// `entries` without the entry under `key`.
pub open spec fn without_key(entries: FieldList, key: Seq<char>) -> FieldList {
    entries.filter(|e: (Seq<char>, FieldTemplateView)| e.0 != key)
}

/// The template that `entries` holds under `key`, if any.
pub open spec fn lookup(entries: FieldList, key: Seq<char>) -> Option<FieldTemplateView>
    decreases entries.len(),
{
    if entries.len() == 0 {
        None
    } else if entries.last().0 == key {
        Some(entries.last().1)
    } else {
        lookup(entries.drop_last(), key)
    }
}

/// What a map holds after the templates of `list` were put in one by one: a
/// name that comes again takes the place of the earlier one, at the end.
pub open spec fn keyed(list: FieldList) -> FieldList
    decreases list.len(),
{
    if list.len() == 0 {
        Seq::empty()
    } else {
        without_key(keyed(list.drop_last()), list.last().0).push(list.last())
    }
}

/// Whether no name comes twice in `list`.
pub open spec fn distinct_names(list: FieldList) -> bool {
    forall|i: int, j: int| 0 <= i < j < list.len() ==> list[i].0 != list[j].0
}

proof fn lemma_without_absent_key(entries: FieldList, key: Seq<char>)
    requires
        forall|i: int| 0 <= i < entries.len() ==> (#[trigger] entries[i]).0 != key,
    ensures
        without_key(entries, key) == entries,
    decreases entries.len(),
{
    reveal(Seq::filter);
    if entries.len() > 0 {
        lemma_without_absent_key(entries.drop_last(), key);
        assert(entries.drop_last().push(entries.last()) =~= entries);
    }
}

/// Where no two fields of a struct have the same name, the map holds the
/// templates of all fields, in the order of the struct.
pub proof fn lemma_keyed_keeps_distinct_names(list: FieldList)
    requires
        distinct_names(list),
    ensures
        keyed(list) == list,
    decreases list.len(),
{
    if list.len() > 0 {
        let front = list.drop_last();
        lemma_keyed_keeps_distinct_names(front);
        lemma_without_absent_key(front, list.last().0);
        assert(front.push(list.last()) =~= list);
    }
}

/// Calls `LinkedHashMap::new`, which makes a map that holds nothing.
#[verifier::external_body]
fn fields_new() -> (fields: LinkedHashMap<String, FieldTemplate>)
    ensures
        field_entries(fields) == Seq::<(Seq<char>, FieldTemplateView)>::empty(),
{
    LinkedHashMap::new()
}

/// Calls `LinkedHashMap::insert`, which puts the entry at the end of the
/// map's order; an entry that stood under the same key leaves its place.
#[verifier::external_body]
fn fields_insert(
    fields: &mut LinkedHashMap<String, FieldTemplate>,
    name: String,
    template: FieldTemplate,
)
    ensures
        field_entries(*final(fields)) == without_key(field_entries(*old(fields)), name@).push(
            (name@, template@),
        ),
{
    fields.insert(name, template);
}

/// Calls `LinkedHashMap::get`, which finds the value under a key equal to
/// `name`. A map holds no key twice, so that the entry which [`lookup`]
/// finds is the only one under the key.
#[verifier::external_body]
pub(crate) fn fields_get<'a>(fields: &'a LinkedHashMap<String, FieldTemplate>, name: &str) -> (r:
    Option<&'a FieldTemplate>)
    ensures
        match r {
            Some(template) => lookup(field_entries(*fields), name@) == Some(template@),
            None => lookup(field_entries(*fields), name@) is None,
        },
{
    fields.get(name)
}

/// Calls `LinkedHashMap::keys` and takes the first key that it hands out, the
/// one that was put in first.
#[verifier::external_body]
pub(crate) fn fields_first_key<'a>(fields: &'a LinkedHashMap<String, FieldTemplate>) -> (r: Option<
    &'a String,
>)
    ensures
        match r {
            Some(name) => field_entries(*fields).len() > 0 && field_entries(*fields)[0].0 == name@,
            None => field_entries(*fields).len() == 0,
        },
{
    fields.keys().next()
}

/// The length in bytes of a field of the given shape whose type takes
/// `type_len` bytes, in a file whose pointers take `pointer_len` bytes.
pub open spec fn field_len(shape: FieldShape, type_len: usize, pointer_len: int) -> int {
    match shape {
        FieldShape::Pointer { .. } | FieldShape::FnPointer => pointer_len,
        FieldShape::PointerArray { len, .. } => pointer_len * len,
        FieldShape::ValueArray { len, .. } => type_len * len,
        FieldShape::Value => type_len as int,
    }
}

/// Where the fields of `list` end: the sum of their lengths.
pub open spec fn total_len(list: FieldList) -> int
    decreases list.len(),
{
    if list.len() == 0 {
        0
    } else {
        total_len(list.drop_last()) + list.last().1.data_len
    }
}

/// The template of field `i` of a struct, for a field that starts at
/// `data_start`. There is none where the field names a type or a name that
/// the DNA does not have, where its name does not parse, and where the field
/// would end beyond what `usize` can count.
pub open spec fn template_at(
    dna: DnaView,
    fields: DnaStructView,
    i: int,
    data_start: int,
    pointer_size: PointerSize,
) -> Option<(Seq<char>, FieldTemplateView)> {
    let field = fields.fields[i];
    if field.type_index >= dna.types.len() || field.name_index >= dna.names.len() {
        None
    } else {
        match field_of(dna.names[field.name_index as int]) {
            Err(_) => None,
            Ok((name, info)) => {
                let ty = dna.types[field.type_index as int];
                let data_len = field_len(info, ty.bytes_len, pointer_size.width() as int);
                if data_start + data_len > usize::MAX {
                    None
                } else {
                    Some(
                        (
                            name,
                            FieldTemplateView {
                                info,
                                type_index: field.type_index,
                                ty_name: ty.name,
                                data_start: data_start as usize,
                                data_len: data_len as usize,
                                is_primitive: field.type_index < PRIMITIVE_TYPES,
                            },
                        ),
                    )
                }
            },
        }
    }
}

/// The templates of the first `n` fields of a struct, laid out back to back
/// from offset zero.
pub open spec fn layout_prefix(
    dna: DnaView,
    fields: DnaStructView,
    n: nat,
    pointer_size: PointerSize,
) -> Option<FieldList>
    decreases n,
{
    if n == 0 {
        Some(Seq::empty())
    } else {
        match layout_prefix(dna, fields, (n - 1) as nat, pointer_size) {
            None => None,
            Some(before) => match template_at(
                dna,
                fields,
                n - 1,
                total_len(before),
                pointer_size,
            ) {
                None => None,
                Some(entry) => Some(before.push(entry)),
            },
        }
    }
}

/// The templates of all fields of a struct whose type takes `bytes_len`
/// bytes. There are none unless the fields fill the struct exactly.
pub open spec fn layout_of(
    dna: DnaView,
    fields: DnaStructView,
    bytes_len: usize,
    pointer_size: PointerSize,
) -> Option<FieldList> {
    match layout_prefix(dna, fields, fields.fields.len(), pointer_size) {
        Some(list) => if total_len(list) == bytes_len {
            Some(list)
        } else {
            None
        },
        None => None,
    }
}

/// Every field of a layout starts where the fields before it end, and the
/// lengths of all fields add up to the size of the struct.
pub proof fn lemma_layout_is_dense(
    dna: DnaView,
    fields: DnaStructView,
    bytes_len: usize,
    pointer_size: PointerSize,
)
    requires
        layout_of(dna, fields, bytes_len, pointer_size) is Some,
    ensures
        ({
            let list = layout_of(dna, fields, bytes_len, pointer_size)->Some_0;
            &&& list.len() == fields.fields.len()
            &&& total_len(list) == bytes_len
            &&& forall|i: int|
                0 <= i < list.len() ==> (#[trigger] list[i]).1.data_start == total_len(list.take(i))
        }),
{
    lemma_prefix_is_dense(dna, fields, fields.fields.len(), pointer_size);
}

/// The lengths of the templates that the map of a struct holds add up to
/// the size of the struct, where no two fields of the struct have the same
/// name. (Of two fields with one name the map keeps the later one only.)
pub proof fn lemma_templates_fill_struct(
    dna: DnaView,
    fields: DnaStructView,
    bytes_len: usize,
    pointer_size: PointerSize,
)
    requires
        layout_of(dna, fields, bytes_len, pointer_size) is Some,
        distinct_names(layout_of(dna, fields, bytes_len, pointer_size)->Some_0),
    ensures
        total_len(keyed(layout_of(dna, fields, bytes_len, pointer_size)->Some_0)) == bytes_len,
{
    lemma_keyed_keeps_distinct_names(layout_of(dna, fields, bytes_len, pointer_size)->Some_0);
}

proof fn lemma_prefix_is_dense(
    dna: DnaView,
    fields: DnaStructView,
    n: nat,
    pointer_size: PointerSize,
)
    requires
        layout_prefix(dna, fields, n, pointer_size) is Some,
    ensures
        ({
            let list = layout_prefix(dna, fields, n, pointer_size)->Some_0;
            &&& list.len() == n
            &&& forall|i: int|
                0 <= i < list.len() ==> (#[trigger] list[i]).1.data_start == total_len(list.take(i))
        }),
    decreases n,
{
    if n > 0 {
        lemma_prefix_is_dense(dna, fields, (n - 1) as nat, pointer_size);
        let before = layout_prefix(dna, fields, (n - 1) as nat, pointer_size)->Some_0;
        let list = layout_prefix(dna, fields, n, pointer_size)->Some_0;
        assert forall|i: int| 0 <= i < list.len() implies (#[trigger] list[i]).1.data_start
            == total_len(list.take(i)) by {
            if i < n - 1 {
                assert(list.take(i) =~= before.take(i));
                assert(list[i] == before[i]);
            } else {
                assert(list.take(i) =~= before);
            }
        }
    }
}

proof fn lemma_prefix_stays_none(
    dna: DnaView,
    fields: DnaStructView,
    k: nat,
    n: nat,
    pointer_size: PointerSize,
)
    requires
        k <= n,
        layout_prefix(dna, fields, k, pointer_size) is None,
    ensures
        layout_prefix(dna, fields, n, pointer_size) is None,
    decreases n,
{
    if k < n {
        lemma_prefix_stays_none(dna, fields, k, (n - 1) as nat, pointer_size);
    }
}

/// Multiplies a length by a number of elements; `None` when the product does
/// not fit `usize`.
fn scaled(len: usize, count: usize) -> (r: Option<usize>)
    ensures
        r == if len * count <= usize::MAX {
            Some((len * count) as usize)
        } else {
            None
        },
{
    len.checked_mul(count)
}

/// Lays out the fields of a struct: for each field, in the order of the
/// struct, the template under the field's name.
///
/// The struct must have a layout: each field names a type and a name that
/// the DNA has, each field name parses, and the fields fill the `bytes_len`
/// of the struct's type exactly. A DNA that breaks this is not consistent.
pub fn generate_fields(
    dna_struct: &DnaStruct,
    dna_type: &DnaType,
    dna: &Dna,
    header: &Header,
) -> (fields: LinkedHashMap<String, FieldTemplate>)
    requires
        layout_of(dna@, dna_struct@, dna_type.bytes_len, header.pointer_size) is Some,
    ensures
        field_entries(fields) == keyed(
            layout_of(dna@, dna_struct@, dna_type.bytes_len, header.pointer_size)->Some_0,
        ),
{
    match try_generate_fields(dna_struct, dna_type, dna, header) {
        Some(fields) => fields,
        None => vstd::pervasive::unreached(),
    }
}

/// Lays out the fields of a struct, if it has a layout.
///
/// There is no layout where a field names a type or a name that the DNA does
/// not have, where a field name does not parse, and where the fields do not
/// fill the `bytes_len` of the struct's type exactly.
pub fn try_generate_fields(
    dna_struct: &DnaStruct,
    dna_type: &DnaType,
    dna: &Dna,
    header: &Header,
) -> (r: Option<LinkedHashMap<String, FieldTemplate>>)
    ensures
        match r {
            Some(fields) => layout_of(dna@, dna_struct@, dna_type.bytes_len, header.pointer_size)
                matches Some(list) && field_entries(fields) == keyed(list),
            None => layout_of(dna@, dna_struct@, dna_type.bytes_len, header.pointer_size) is None,
        },
{
    let mut fields: LinkedHashMap<String, FieldTemplate> = fields_new();
    let mut data_start: usize = 0;
    let pointer_len: usize = header.pointer_size.bytes_num();
    let ghost mut list: FieldList = Seq::empty();
    let mut i: usize = 0;
    while i < dna_struct.fields.len()
        invariant
            i <= dna_struct.fields@.len(),
            pointer_len == header.pointer_size.width(),
            layout_prefix(dna@, dna_struct@, i as nat, header.pointer_size) == Some(list),
            field_entries(fields) == keyed(list),
            data_start == total_len(list),
        decreases dna_struct.fields@.len() - i,
    {
        let field = &dna_struct.fields[i];
        if field.type_index >= dna.types.len() || field.name_index >= dna.names.len() {
            proof {
                lemma_prefix_stays_none(
                    dna@,
                    dna_struct@,
                    (i + 1) as nat,
                    dna_struct.fields@.len(),
                    header.pointer_size,
                );
            }
            return None;
        }
        let field_dna_type = &dna.types[field.type_index];
        let field_full_name = &dna.names[field.name_index];
        assert(dna@.types[field.type_index as int] == field_dna_type@);
        assert(dna@.names[field.name_index as int] == field_full_name@);
        let is_primitive: bool = field.type_index < PRIMITIVE_TYPES;
        let (field_name, field_info) = match parse_field(field_full_name.as_str()) {
            Ok(v) => v,
            Err(_) => {
                proof {
                    lemma_prefix_stays_none(
                        dna@,
                        dna_struct@,
                        (i + 1) as nat,
                        dna_struct.fields@.len(),
                        header.pointer_size,
                    );
                }
                return None;
            },
        };
        let field_bytes_len: Option<usize> = match &field_info {
            FieldInfo::Pointer { .. } | FieldInfo::FnPointer => Some(pointer_len),
            FieldInfo::PointerArray { len, .. } => scaled(pointer_len, *len),
            FieldInfo::ValueArray { len, .. } => scaled(field_dna_type.bytes_len, *len),
            FieldInfo::Value => Some(field_dna_type.bytes_len),
        };
        let field_bytes_len: usize = match field_bytes_len {
            Some(v) => v,
            None => {
                proof {
                    lemma_prefix_stays_none(
                        dna@,
                        dna_struct@,
                        (i + 1) as nat,
                        dna_struct.fields@.len(),
                        header.pointer_size,
                    );
                }
                return None;
            },
        };
        let next_start: usize = match data_start.checked_add(field_bytes_len) {
            Some(v) => v,
            None => {
                proof {
                    lemma_prefix_stays_none(
                        dna@,
                        dna_struct@,
                        (i + 1) as nat,
                        dna_struct.fields@.len(),
                        header.pointer_size,
                    );
                }
                return None;
            },
        };
        let template = FieldTemplate {
            info: field_info,
            type_index: field.type_index,
            ty_name: field_dna_type.name.clone(),
            data_start,
            data_len: field_bytes_len,
            is_primitive,
        };
        proof {
            let entry = (field_name@, template@);
            assert(list.push(entry).drop_last() =~= list);
            list = list.push(entry);
        }
        fields_insert(&mut fields, field_name, template);
        data_start = next_start;
        i += 1;
    }
    if dna_type.bytes_len != data_start {
        return None;
    }
    Some(fields)
}

} // verus!
