//! List access: the instances behind a field that stands for many structs.
//!
//! A file has four ways to say "many": a `ListBase`, whose `first` and
//! `last` pointers frame a chain of structs linked by `next`; an array of
//! structs inside a struct; a pointer to a block that holds several structs;
//! and a list of pointers, in a field or in a block, each to a block of its
//! own.

use crate::parsers::blend::{address_of, Block, RawBlend, RawBlendView};
use crate::parsers::field::{FieldInfo, FieldShape};
use crate::runtime::instance::{
    block_address, block_count, find_block, parse_ptr_address, pointer_of, same_text, target_of,
    DataView, Instance, InstanceDataFormat, InstanceView, PointerInfo, PointerView,
};
use crate::runtime::structs::{
    find_struct, instance_of, make_instance, resolve_struct, resolved_struct, struct_index,
    struct_layout,
};
use crate::runtime::template::{fields_first_key, keyed, FieldList, FieldTemplate};
use std::collections::HashSet;
use vstd::prelude::*;
use vstd::string::*;

verus! {

/// The views of a list of instances.
pub open spec fn instance_views(instances: Seq<Instance>) -> Seq<InstanceView> {
    Seq::new(instances.len(), |i: int| instances[i]@)
}

/// Piece `i` of `data` cut into `count` pieces of the same length. What is
/// left over after the last piece belongs to none.
pub open spec fn piece(data: Seq<u8>, count: usize, i: int) -> Seq<u8> {
    data.subrange(i * (data.len() / (count as nat)), (i + 1) * (data.len() / (count as nat)))
}

/// The instances of a struct with the given type name and fields over the
/// `count` pieces of `data`.
pub open spec fn pieces(ty_name: Seq<char>, fields: FieldList, data: Seq<u8>, count: usize) -> Seq<
    InstanceView,
> {
    Seq::new(
        count as nat,
        |i: int| InstanceView { ty_name, data: DataView::Raw(piece(data, count, i)), fields },
    )
}

/// What stands behind one pointer of a list of pointers.
pub enum Pointed {
    /// Nothing to yield: the pointer is null, or its address is that of no
    /// block, or the block it leads to has no struct and is a run of
    /// primitive values.
    Skipped,
    /// The block that the pointer leads to has a struct, and the struct has
    /// no layout: the DNA is not consistent.
    Inconsistent,
    /// The instance over the block that the pointer leads to.
    Found(InstanceView),
}

/// What stands behind pointer number `k` of `bytes`, a list of pointers of a
/// field of type `field_type`.
pub open spec fn pointed_at(file: RawBlendView, field_type: usize, bytes: Seq<u8>, k: int) -> Pointed {
    match target_of(
        file,
        address_of(bytes.skip(k * file.header.pointer_size.width()), file.header),
    ) {
        PointerView::Block(block) => match resolved_struct(file.dna, field_type, block) {
            Some(s) => match instance_of(file, s, DataView::Block(block)) {
                Some(instance) => Pointed::Found(instance),
                None => Pointed::Inconsistent,
            },
            None => Pointed::Skipped,
        },
        _ => Pointed::Skipped,
    }
}

/// The instances behind the first `n` pointers of `bytes`, in their order,
/// without the pointers that are skipped. There are none if the struct
/// behind one of the pointers has no layout.
pub open spec fn pointed(file: RawBlendView, field_type: usize, bytes: Seq<u8>, n: nat) -> Option<
    Seq<InstanceView>,
>
    decreases n,
{
    if n == 0 {
        Some(Seq::empty())
    } else {
        match pointed(file, field_type, bytes, (n - 1) as nat) {
            Some(before) => match pointed_at(file, field_type, bytes, n - 1) {
                Pointed::Found(instance) => Some(before.push(instance)),
                Pointed::Skipped => Some(before),
                Pointed::Inconsistent => None,
            },
            None => None,
        }
    }
}

proof fn lemma_pointed_stays_none(
    file: RawBlendView,
    field_type: usize,
    bytes: Seq<u8>,
    k: nat,
    n: nat,
)
    requires
        k <= n,
        pointed(file, field_type, bytes, k) is None,
    ensures
        pointed(file, field_type, bytes, n) is None,
    decreases n,
{
    if k < n {
        lemma_pointed_stays_none(file, field_type, bytes, k, (n - 1) as nat);
    }
}

/// The element of a list that follows `cur`: the struct behind its `next`
/// field where that can be followed; else the element that follows the
/// struct which is the first field of `cur`, looked for at most `depth`
/// structs deep.
pub open spec fn next_of(file: RawBlendView, cur: InstanceView, depth: nat) -> Option<InstanceView>
    decreases depth,
{
    if cur.valid(file, "next"@) {
        cur.member(file, "next"@)
    } else if depth == 0 || cur.fields.len() == 0 {
        None
    } else {
        match cur.member(file, cur.fields[0].0) {
            Some(inner) => next_of(file, inner, (depth - 1) as nat),
            None => None,
        }
    }
}

/// The elements of a list from `cur` up to the one whose block has the
/// address `last`, reached in at most `fuel` steps without coming to an
/// address in `seen`, or to an address a second time.
pub open spec fn walk(
    file: RawBlendView,
    cur: InstanceView,
    last: u64,
    seen: Set<u64>,
    fuel: nat,
) -> Option<Seq<InstanceView>>
    decreases fuel,
{
    if !(cur.data is Block) {
        None
    } else if seen.contains(cur.data.address()->Some_0) {
        None
    } else if cur.data.address() == Some(last) {
        Some(seq![cur])
    } else if fuel == 0 {
        None
    } else {
        match next_of(file, cur, file.dna.structs.len()) {
            Some(next) => match walk(
                file,
                next,
                last,
                seen.insert(cur.data.address()->Some_0),
                (fuel - 1) as nat,
            ) {
                Some(rest) => Some(seq![cur] + rest),
                None => None,
            },
            None => None,
        }
    }
}

impl InstanceView {
    /// The elements of the `ListBase` that the field `name` is: from the
    /// struct behind its `first` pointer, along the `next` pointers, up to
    /// the struct behind its `last` pointer. A chain that comes to a block
    /// a second time, or that has not reached the last struct after as
    /// many steps as the file has blocks, is no list.
    pub open spec fn chain(self, file: RawBlendView, name: Seq<char>) -> Option<Seq<InstanceView>> {
        match self.member(file, name) {
            Some(list) => match (list.member(file, "last"@), list.member(file, "first"@)) {
                (Some(last), Some(first)) => match last.data.address() {
                    Some(address) => walk(file, first, address, Set::empty(), file.blocks.len()),
                    None => None,
                },
                _ => None,
            },
            None => None,
        }
    }

    /// The structs behind the field `name`.
    ///
    /// - A value of type `ListBase`: the elements of the list.
    /// - An array of values that are structs: the data of the instance cut
    ///   into as many pieces as the array has elements.
    /// - A single pointer that leads to a block: the bytes of the block cut
    ///   into as many pieces as the block holds structs.
    /// - A pointer to pointers that leads to a block: the structs behind
    ///   the pointers that the block holds.
    /// - An array of single pointers: the structs behind the pointers.
    ///
    /// Of a list of pointers, those that are null, that lead to no block or
    /// that lead to a block without a struct are left out. For anything
    /// else, and where the struct of an element has no layout, there are
    /// none.
    pub open spec fn members(self, file: RawBlendView, name: Seq<char>) -> Option<
        Seq<InstanceView>,
    > {
        match self.field(name) {
            Some(field) => match field.info {
                FieldShape::Value => if field.ty_name == "ListBase"@ {
                    self.chain(file, name)
                } else {
                    None
                },
                FieldShape::ValueArray { len, .. } => if !field.is_primitive
                    && self.data.readable() {
                    match struct_layout(
                        file.dna,
                        struct_index(file.dna.structs, field.type_index, 0),
                        file.header.pointer_size,
                    ) {
                        Some((ty, list)) => Some(
                            pieces(ty.name, keyed(list), self.data.bytes(), len),
                        ),
                        None => None,
                    }
                } else {
                    None
                },
                FieldShape::Pointer { indirection_count } => if self.holds_pointer(file, field) {
                    match pointer_of(file, self.bytes_of(field)) {
                        PointerView::Block(block) => if indirection_count == 1 {
                            match resolved_struct(file.dna, field.type_index, block) {
                                Some(s) => match struct_layout(
                                    file.dna,
                                    s,
                                    file.header.pointer_size,
                                ) {
                                    Some((ty, list)) => Some(
                                        pieces(
                                            ty.name,
                                            keyed(list),
                                            block.bytes(),
                                            block.struct_count(),
                                        ),
                                    ),
                                    None => None,
                                },
                                None => None,
                            }
                        } else if indirection_count == 2 {
                            pointed(
                                file,
                                field.type_index,
                                block.bytes(),
                                block.bytes().len() / file.header.pointer_size.width(),
                            )
                        } else {
                            None
                        },
                        _ => None,
                    }
                } else {
                    None
                },
                FieldShape::PointerArray { indirection_count, len, .. } => if indirection_count
                    == 1 && self.holds(field) && field.data_len as nat
                    / file.header.pointer_size.width() == len {
                    pointed(file, field.type_index, self.bytes_of(field), len as nat)
                } else {
                    None
                },
                FieldShape::FnPointer => None,
            },
            None => None,
        }
    }
}

/// A walk that finds a list ends at the element whose block has the address
/// `last`, which none of the elements before it has; every element lies in
/// a block; no two elements have the same address, and none has an address
/// that was seen before; and the walk takes no more steps than its fuel.
pub proof fn lemma_walk_ends_at_last(
    file: RawBlendView,
    cur: InstanceView,
    last: u64,
    seen: Set<u64>,
    fuel: nat,
)
    requires
        walk(file, cur, last, seen, fuel) is Some,
    ensures
        ({
            let list = walk(file, cur, last, seen, fuel)->Some_0;
            &&& 1 <= list.len() <= fuel + 1
            &&& list[0] == cur
            &&& list.last().data.address() == Some(last)
            &&& forall|i: int|
                0 <= i < list.len() - 1 ==> (#[trigger] list[i]).data.address() != Some(last)
            &&& forall|i: int| 0 <= i < list.len() ==> (#[trigger] list[i]).data is Block
            &&& forall|i: int|
                0 <= i < list.len() ==> !seen.contains((#[trigger] list[i]).data.address()->Some_0)
            &&& forall|i: int, j: int|
                0 <= i < j < list.len() ==> (#[trigger] list[i]).data.address() != (
                #[trigger] list[j]).data.address()
        }),
    decreases fuel,
{
    if cur.data.address() != Some(last) {
        let address = cur.data.address()->Some_0;
        let next = next_of(file, cur, file.dna.structs.len())->Some_0;
        lemma_walk_ends_at_last(file, next, last, seen.insert(address), (fuel - 1) as nat);
        let rest = walk(file, next, last, seen.insert(address), (fuel - 1) as nat)->Some_0;
        let list = seq![cur] + rest;
        assert(list.last() == rest.last());
        assert forall|i: int| 0 <= i < list.len() - 1 implies (#[trigger] list[i]).data.address()
            != Some(last) by {
            if i > 0 {
                assert(list[i] == rest[i - 1]);
            }
        }
        assert forall|i: int| 0 <= i < list.len() implies (#[trigger] list[i]).data is Block by {
            if i > 0 {
                assert(list[i] == rest[i - 1]);
            }
        }
        assert forall|i: int| 0 <= i < list.len() implies !seen.contains(
            (#[trigger] list[i]).data.address()->Some_0,
        ) by {
            if i > 0 {
                assert(list[i] == rest[i - 1]);
            }
        }
        assert forall|i: int, j: int| 0 <= i < j < list.len() implies (
        #[trigger] list[i]).data.address() != (#[trigger] list[j]).data.address() by {
            assert(list[j] == rest[j - 1]);
            if i > 0 {
                assert(list[i] == rest[i - 1]);
            }
        }
    }
}

/// The elements of a `ListBase` are finitely many, at most one more than
/// the file has blocks, and no two of them have the same address. The first
/// is the struct behind `first`, the last lies in the block behind `last`,
/// and no element before the last does.
pub proof fn lemma_chain_ends_at_last(inst: InstanceView, file: RawBlendView, name: Seq<char>)
    requires
        inst.chain(file, name) is Some,
    ensures
        ({
            let list = inst.chain(file, name)->Some_0;
            let ends = inst.member(file, name)->Some_0;
            let last = ends.member(file, "last"@)->Some_0.data.address();
            &&& inst.member(file, name) is Some
            &&& ends.member(file, "last"@) is Some
            &&& ends.member(file, "first"@) is Some
            &&& last is Some
            &&& 1 <= list.len() <= file.blocks.len() + 1
            &&& list[0] == ends.member(file, "first"@)->Some_0
            &&& list.last().data.address() == last
            &&& forall|i: int| 0 <= i < list.len() - 1 ==> (#[trigger] list[i]).data.address() != last
            &&& forall|i: int, j: int|
                0 <= i < j < list.len() ==> (#[trigger] list[i]).data.address() != (
                #[trigger] list[j]).data.address()
        }),
{
    let ends = inst.member(file, name)->Some_0;
    let first = ends.member(file, "first"@)->Some_0;
    let last = ends.member(file, "last"@)->Some_0.data.address()->Some_0;
    lemma_walk_ends_at_last(file, first, last, Set::empty(), file.blocks.len());
}

/// Where `data` holds `count` structs of `size` bytes each and nothing else,
/// piece `i` is struct number `i`.
pub proof fn lemma_piece_of_whole(data: Seq<u8>, count: usize, size: int, i: int)
    requires
        count > 0,
        size >= 0,
        data.len() == count * size,
    ensures
        piece(data, count, i) == data.subrange(i * size, (i + 1) * size),
{
    assert(data.len() / (count as nat) == size) by (nonlinear_arith)
        requires
            count > 0,
            size >= 0,
            data.len() == count * size,
    ;
}

/// A single pointer that leads to a block yields as many instances as the
/// block holds structs, one after the other over the pieces of the block's
/// bytes; and an array of structs yields as many instances as it has
/// elements, over the pieces of the data of the instance.
pub proof fn lemma_members_count(inst: InstanceView, file: RawBlendView, name: Seq<char>)
    requires
        inst.members(file, name) is Some,
    ensures
        inst.field(name) is Some,
        inst.field(name)->Some_0.info matches FieldShape::ValueArray { len, .. } ==> {
            let list = inst.members(file, name)->Some_0;
            &&& list.len() == len
            &&& forall|i: int|
                0 <= i < list.len() ==> (#[trigger] list[i]).data == DataView::Raw(
                    piece(inst.data.bytes(), len, i),
                )
        },
        inst.field(name)->Some_0.info == (FieldShape::Pointer { indirection_count: 1 }) ==> (
        pointer_of(file, inst.bytes_of(inst.field(name)->Some_0)) matches PointerView::Block(block)
            && ({
            let list = inst.members(file, name)->Some_0;
            &&& list.len() == block.struct_count()
            &&& forall|i: int|
                0 <= i < list.len() ==> (#[trigger] list[i]).data == DataView::Raw(
                    piece(block.bytes(), block.struct_count(), i),
                )
        })),
{
}

/// Whether all instances of a list belong to `blend`.
pub open spec fn all_of(instances: Seq<Instance>, blend: &RawBlend) -> bool {
    forall|i: int| 0 <= i < instances.len() ==> (#[trigger] instances[i]).blend == blend
}

/// Cuts `data` into `count` pieces and makes an instance of struct number
/// `s` of the DNA over each.
fn make_pieces<'a>(blend: &'a RawBlend, s: usize, data: &'a [u8], count: usize) -> (r: Option<
    Vec<Instance<'a>>,
>)
    ensures
        match r {
            Some(instances) => struct_layout(blend@.dna, s as int, blend@.header.pointer_size)
                matches Some((ty, list)) && instance_views(instances@) == pieces(
                ty.name,
                keyed(list),
                data@,
                count,
            ) && all_of(instances@, blend),
            None => struct_layout(blend@.dna, s as int, blend@.header.pointer_size) is None,
        },
{
    if make_instance(blend, s, InstanceDataFormat::Raw(data)).is_none() {
        return None;
    }
    let ghost layout = struct_layout(blend@.dna, s as int, blend@.header.pointer_size)->Some_0;
    let mut instances: Vec<Instance<'a>> = Vec::new();
    if count == 0 {
        assert(instance_views(instances@) =~= pieces(layout.0.name, keyed(layout.1), data@, count));
        return Some(instances);
    }
    let size: usize = data.len() / count;
    assert(count * size <= data@.len()) by (nonlinear_arith)
        requires
            count > 0,
            size == data@.len() / (count as nat),
    ;
    let mut i: usize = 0;
    while i < count
        invariant
            i <= count,
            count > 0,
            size == data@.len() / (count as nat),
            count * size <= data@.len() <= usize::MAX,
            struct_layout(blend@.dna, s as int, blend@.header.pointer_size) == Some(layout),
            instances@.len() == i,
            all_of(instances@, blend),
            forall|j: int|
                0 <= j < i ==> (#[trigger] instances@[j])@ == pieces(
                    layout.0.name,
                    keyed(layout.1),
                    data@,
                    count,
                )[j],
        decreases count - i,
    {
        assert((i + 1) * size <= count * size && i * size + size == (i + 1) * size && i * size
            >= 0) by (nonlinear_arith)
            requires
                i < count,
        ;
        let start: usize = i * size;
        let bytes: &'a [u8] = &data[start..start + size];
        assert(bytes@ == piece(data@, count, i as int));
        match make_instance(blend, s, InstanceDataFormat::Raw(bytes)) {
            Some(instance) => {
                instances.push(instance);
            },
            None => {
                assert(false);
            },
        }
        i += 1;
    }
    assert(instance_views(instances@) =~= pieces(layout.0.name, keyed(layout.1), data@, count));
    Some(instances)
}

/// Makes the instances behind the first `count` pointers of `data`, a list
/// of pointers of `field`.
fn make_pointed<'a>(blend: &'a RawBlend, field: &FieldTemplate, data: &[u8], count: usize) -> (r:
    Option<Vec<Instance<'a>>>)
    requires
        count * blend@.header.pointer_size.width() <= data@.len(),
    ensures
        match r {
            Some(instances) => pointed(blend@, field.type_index, data@, count as nat) == Some(
                instance_views(instances@),
            ) && all_of(instances@, blend),
            None => pointed(blend@, field.type_index, data@, count as nat) is None,
        },
{
    let width: usize = blend.header.pointer_size.bytes_num();
    let total: usize = data.len();
    let mut instances: Vec<Instance<'a>> = Vec::new();
    let mut i: usize = 0;
    assert(instance_views(instances@) =~= Seq::<InstanceView>::empty());
    while i < count
        invariant
            i <= count,
            width == blend@.header.pointer_size.width(),
            count * width <= data@.len() <= usize::MAX,
            all_of(instances@, blend),
            pointed(blend@, field.type_index, data@, i as nat) == Some(instance_views(instances@)),
        decreases count - i,
    {
        assert((i + 1) * width <= count * width && i * width + width == (i + 1) * width && i
            * width >= 0) by (nonlinear_arith)
            requires
                i < count,
                width > 0,
        ;
        let rest: &[u8] = &data[i * width..data.len()];
        assert(rest@ =~= data@.skip(i * width));
        let ghost before = instance_views(instances@);
        match parse_ptr_address(rest, blend.header.pointer_size, blend.header.endianness) {
            Some(address) => match find_block(blend, address) {
                Some(block) => match resolve_struct(&blend.dna, field.type_index, block) {
                    Some(s) => match make_instance(blend, s, InstanceDataFormat::Block(block)) {
                        Some(instance) => {
                            instances.push(instance);
                            assert(instance_views(instances@) =~= before.push(instance@));
                        },
                        None => {
                            proof {
                                lemma_pointed_stays_none(
                                    blend@,
                                    field.type_index,
                                    data@,
                                    (i + 1) as nat,
                                    count as nat,
                                );
                            }
                            return None;
                        },
                    },
                    None => {},
                },
                None => {},
            },
            None => {},
        }
        i += 1;
    }
    Some(instances)
}

/// The struct that is the first field of `cur`.
fn first_member<'a>(cur: &Instance<'a>) -> (r: Option<Instance<'a>>)
    ensures
        match r {
            Some(inner) => cur@.fields.len() > 0 && cur@.member(cur.blend@, cur@.fields[0].0)
                == Some(inner@) && inner.blend == cur.blend,
            None => cur@.fields.len() == 0 || cur@.member(cur.blend@, cur@.fields[0].0) is None,
        },
{
    match fields_first_key(&cur.fields) {
        Some(name) => cur.try_get(name.as_str()),
        None => None,
    }
}

/// Looks for the element of a list that follows `cur`.
fn next_instance<'a>(cur: &Instance<'a>, depth: usize) -> (r: Option<Instance<'a>>)
    ensures
        match r {
            Some(next) => next_of(cur.blend@, cur@, depth as nat) == Some(next@) && next.blend
                == cur.blend,
            None => next_of(cur.blend@, cur@, depth as nat) is None,
        },
{
    if cur.is_valid("next") {
        return cur.try_get("next");
    }
    if depth == 0 {
        return None;
    }
    let mut inner: Instance<'a> = match first_member(cur) {
        Some(inner) => inner,
        None => {
            return None;
        },
    };
    let mut left: usize = depth - 1;
    loop
        invariant
            inner.blend == cur.blend,
            next_of(cur.blend@, cur@, depth as nat) == next_of(cur.blend@, inner@, left as nat),
        decreases left,
    {
        if inner.is_valid("next") {
            return inner.try_get("next");
        }
        if left == 0 {
            return None;
        }
        inner = match first_member(&inner) {
            Some(deeper) => deeper,
            None => {
                return None;
            },
        };
        left -= 1;
    }
}

/// Walks a list from `first` up to the element whose block has the address
/// `last`.
fn walk_list<'a>(first: Instance<'a>, last: u64) -> (r: Option<Vec<Instance<'a>>>)
    ensures
        match r {
            Some(instances) => walk(
                first.blend@,
                first@,
                last,
                Set::empty(),
                first.blend@.blocks.len(),
            ) == Some(instance_views(instances@)) && all_of(instances@, first.blend),
            None => walk(first.blend@, first@, last, Set::empty(), first.blend@.blocks.len())
                is None,
        },
{
    broadcast use vstd::std_specs::hash::group_hash_axioms;

    let blend: &'a RawBlend = first.blend;
    let ghost start = first@;
    let mut instances: Vec<Instance<'a>> = Vec::new();
    let mut seen: HashSet<u64> = HashSet::new();
    let mut cur: Instance<'a> = first;
    let mut fuel: usize = blend.blocks.len();
    assert(instance_views(instances@) =~= Seq::<InstanceView>::empty());
    loop
        invariant
            cur.blend == blend,
            first.blend == blend,
            first@ == start,
            all_of(instances@, blend),
            walk(blend@, start, last, Set::empty(), blend@.blocks.len()) == match walk(
                blend@,
                cur@,
                last,
                seen@,
                fuel as nat,
            ) {
                Some(rest) => Some(instance_views(instances@) + rest),
                None => None,
            },
        decreases fuel,
    {
        let address: u64 = match cur.data {
            InstanceDataFormat::Block(block) => block_address(block),
            InstanceDataFormat::Raw(_) => {
                return None;
            },
        };
        let ghost before = instance_views(instances@);
        let ghost seen_before = seen@;
        if !seen.insert(address) {
            return None;
        }
        if address == last {
            instances.push(cur);
            assert(instance_views(instances@) =~= before + seq![cur@]);
            return Some(instances);
        }
        if fuel == 0 {
            return None;
        }
        let next: Instance<'a> = match next_instance(&cur, blend.dna.structs.len()) {
            Some(next) => next,
            None => {
                return None;
            },
        };
        proof {
            match walk(blend@, next@, last, seen_before.insert(address), (fuel - 1) as nat) {
                Some(rest) => {
                    assert(before + (seq![cur@] + rest) =~= before.push(cur@) + rest);
                },
                None => {},
            }
        }
        instances.push(cur);
        assert(instance_views(instances@) =~= before.push(cur@));
        cur = next;
        fuel -= 1;
    }
}

impl<'a> Instance<'a> {
    /// Walks the `ListBase` that the field `name` is.
    fn try_get_chain(&self, name: &str) -> (r: Option<Vec<Instance<'a>>>)
        ensures
            match r {
                Some(instances) => self@.chain(self.blend@, name@) == Some(
                    instance_views(instances@),
                ) && all_of(instances@, self.blend),
                None => self@.chain(self.blend@, name@) is None,
            },
    {
        let list: Instance<'a> = match self.try_get(name) {
            Some(list) => list,
            None => {
                return None;
            },
        };
        let last: Instance<'a> = match list.try_get("last") {
            Some(last) => last,
            None => {
                return None;
            },
        };
        let first: Instance<'a> = match list.try_get("first") {
            Some(first) => first,
            None => {
                return None;
            },
        };
        let address: u64 = match last.data {
            InstanceDataFormat::Block(block) => block_address(block),
            InstanceDataFormat::Raw(_) => {
                return None;
            },
        };
        walk_list(first, address)
    }

    /// The structs behind the field `name`, if it stands for a list of
    /// structs in one of the ways that a file knows.
    pub fn try_get_vec(&self, name: &str) -> (r: Option<Vec<Instance<'a>>>)
        ensures
            match r {
                Some(instances) => self@.members(self.blend@, name@) == Some(
                    instance_views(instances@),
                ) && all_of(instances@, self.blend),
                None => self@.members(self.blend@, name@) is None,
            },
    {
        let field: &FieldTemplate = match self.field(name) {
            Some(field) => field,
            None => {
                return None;
            },
        };
        let blend: &'a RawBlend = self.blend;
        let width: usize = blend.header.pointer_size.bytes_num();
        match &field.info {
            FieldInfo::Value => {
                if same_text(field.ty_name.as_str(), "ListBase") {
                    self.try_get_chain(name)
                } else {
                    None
                }
            },
            FieldInfo::ValueArray { len, .. } => {
                if field.is_primitive || !self.is_readable() {
                    return None;
                }
                let s: usize = find_struct(&blend.dna, field.type_index);
                make_pieces(blend, s, self.data.data(), *len)
            },
            FieldInfo::Pointer { indirection_count } => {
                if !self.holds_field(field) || field.data_len < width {
                    return None;
                }
                let block: &'a Block = match self.get_ptr(field) {
                    PointerInfo::Block(block) => block,
                    _ => {
                        return None;
                    },
                };
                let data: &'a [u8] = InstanceDataFormat::Block(block).data();
                if *indirection_count == 1 {
                    let count: usize = block_count(block);
                    match resolve_struct(
                        &blend.dna,
                        field.type_index,
                        block,
                    ) {
                        Some(s) => make_pieces(blend, s, data, count),
                        None => None,
                    }
                } else if *indirection_count == 2 {
                    let count: usize = data.len() / width;
                    assert(count * width <= data@.len()) by (nonlinear_arith)
                        requires
                            width > 0,
                            count == data@.len() / (width as nat),
                    ;
                    make_pointed(blend, field, data, count)
                } else {
                    None
                }
            },
            FieldInfo::PointerArray { indirection_count, len, .. } => {
                if *indirection_count != 1 || !self.holds_field(field) || field.data_len / width
                    != *len {
                    return None;
                }
                let data: &'a [u8] = self.data.get(field.data_start, field.data_len);
                assert(*len * width <= data@.len()) by (nonlinear_arith)
                    requires
                        width > 0,
                        *len == data@.len() / (width as nat),
                ;
                make_pointed(blend, field, data, *len)
            },
            FieldInfo::FnPointer => None,
        }
    }

    /// The structs behind the field `name`.
    ///
    /// The field must stand for a list of structs in one of the ways that a
    /// file knows, and the struct of the elements must have a layout. See
    /// [`InstanceView::members`].
    pub fn get_vec(&self, name: &str) -> (r: Vec<Instance<'a>>)
        requires
            self@.members(self.blend@, name@) is Some,
        ensures
            self@.members(self.blend@, name@) == Some(instance_views(r@)),
            all_of(r@, self.blend),
    {
        match self.try_get_vec(name) {
            Some(instances) => instances,
            None => vstd::pervasive::unreached(),
        }
    }

    /// The structs behind the field `name`, one after the other: the list
    /// that [`Instance::get_vec`] returns.
    pub fn get_iter(&self, name: &str) -> (r: Vec<Instance<'a>>)
        requires
            self@.members(self.blend@, name@) is Some,
        ensures
            self@.members(self.blend@, name@) == Some(instance_views(r@)),
            all_of(r@, self.blend),
    {
        self.get_vec(name)
    }
}

} // verus!
