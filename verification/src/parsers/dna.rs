//! The decoder of the DNA, the catalog of struct layouts that a `.blend` file
//! carries in its `DNA1` block.
//!
//! The payload starts with `SDNA` and holds four sections: `NAME` (field
//! names), `TYPE` (type names), `TLEN` (type sizes) and `STRC` (structs, each
//! a type and a list of fields).

use super::primitive::{parse_u16, parse_u32, u16_of, u32_of};
use super::{BlendParseError, Endianness, PointerSize};
use vstd::prelude::*;

verus! {

/// A type of the DNA: its name and its size in bytes.
#[derive(Debug, Clone, PartialEq, Eq)]
pub struct DnaType {
    pub name: String,
    pub bytes_len: usize,
}

/// A field of a struct of the DNA.
#[derive(Debug, Copy, Clone, PartialEq, Eq, Structural)]
pub struct DnaField {
    /// Index into [`Dna::types`].
    pub type_index: usize,
    /// Index into [`Dna::names`].
    pub name_index: usize,
}

/// A struct of the DNA.
#[derive(Debug, Clone, PartialEq, Eq)]
pub struct DnaStruct {
    /// Index into [`Dna::types`].
    pub type_index: usize,
    pub fields: Vec<DnaField>,
}

/// The catalog of struct layouts of one file.
#[derive(Debug, Clone, PartialEq, Eq)]
pub struct Dna {
    pub names: Vec<String>,
    pub types: Vec<DnaType>,
    pub structs: Vec<DnaStruct>,
}

/// [`DnaType`] as a mathematical value.
pub struct DnaTypeView {
    pub name: Seq<char>,
    pub bytes_len: usize,
}

/// [`DnaStruct`] as a mathematical value.
pub struct DnaStructView {
    pub type_index: usize,
    pub fields: Seq<DnaField>,
}

/// [`Dna`] as a mathematical value.
pub struct DnaView {
    pub names: Seq<Seq<char>>,
    pub types: Seq<DnaTypeView>,
    pub structs: Seq<DnaStructView>,
}

impl View for DnaType {
    type V = DnaTypeView;

    open spec fn view(&self) -> DnaTypeView {
        DnaTypeView { name: self.name@, bytes_len: self.bytes_len }
    }
}

impl View for DnaStruct {
    type V = DnaStructView;

    open spec fn view(&self) -> DnaStructView {
        DnaStructView { type_index: self.type_index, fields: self.fields@ }
    }
}

impl View for Dna {
    type V = DnaView;

    open spec fn view(&self) -> DnaView {
        DnaView {
            names: Seq::new(self.names@.len(), |i: int| self.names@[i]@),
            types: Seq::new(self.types@.len(), |i: int| self.types@[i]@),
            structs: Seq::new(self.structs@.len(), |i: int| self.structs@[i]@),
        }
    }
}

/// The text that `String::from_utf8_lossy` makes of `bytes`.
pub uninterp spec fn lossy_text(bytes: Seq<u8>) -> Seq<char>;

/// Calls `String::from_utf8_lossy`, which decodes the bytes as UTF-8 and
/// puts U+FFFD in the place of what is not valid UTF-8. The text it makes
/// depends on the bytes alone.
#[verifier::external_body]
pub(crate) fn lossy_string(bytes: &[u8]) -> (text: String)
    ensures
        text@ == lossy_text(bytes@),
{
    String::from_utf8_lossy(bytes).into_owned()
}

/// The bytes of `SDNA`.
pub open spec fn tag_sdna() -> Seq<u8> {
    seq![0x53, 0x44, 0x4e, 0x41]
}

/// The bytes of `NAME`.
pub open spec fn tag_name() -> Seq<u8> {
    seq![0x4e, 0x41, 0x4d, 0x45]
}

/// The bytes of `TYPE`.
pub open spec fn tag_type() -> Seq<u8> {
    seq![0x54, 0x59, 0x50, 0x45]
}

/// The bytes of `TLEN`.
pub open spec fn tag_tlen() -> Seq<u8> {
    seq![0x54, 0x4c, 0x45, 0x4e]
}

/// The bytes of `STRC`.
pub open spec fn tag_strc() -> Seq<u8> {
    seq![0x53, 0x54, 0x52, 0x43]
}

/// The position after the four bytes of `tag`, if they stand at `pos`.
pub open spec fn tag_at(input: Seq<u8>, pos: int, tag: Seq<u8>) -> Result<int, BlendParseError> {
    if pos < 0 || pos + 4 > input.len() {
        Err(BlendParseError::NotEnoughData)
    } else if input.subrange(pos, pos + 4) == tag {
        Ok(pos + 4)
    } else {
        Err(BlendParseError::UnexpectedTag)
    }
}

/// The `u32` at `pos` and the position after it.
pub open spec fn u32_at(input: Seq<u8>, pos: int, endianness: Endianness) -> Result<
    (u32, int),
    BlendParseError,
> {
    if pos < 0 || pos + 4 > input.len() {
        Err(BlendParseError::NotEnoughData)
    } else {
        Ok((u32_of(input.skip(pos), endianness), pos + 4))
    }
}

/// The first index at or after `from` at which `input` holds a zero byte; the
/// length of `input` if there is none.
pub open spec fn zero_from(input: Seq<u8>, from: int) -> int
    decreases input.len() - from,
{
    if from < 0 || from >= input.len() {
        input.len() as int
    } else if input[from] == 0 {
        from
    } else {
        zero_from(input, from + 1)
    }
}

/// `count` strings, each closed by a zero byte, from `pos` on: their bytes
/// without the zero, and the position after the last of them.
pub open spec fn cstrings_at(input: Seq<u8>, pos: int, count: nat) -> Result<
    (Seq<Seq<u8>>, int),
    BlendParseError,
>
    decreases count,
{
    if count == 0 {
        Ok((Seq::empty(), pos))
    } else {
        let end = zero_from(input, pos);
        if pos < 0 || end >= input.len() {
            Err(BlendParseError::NotEnoughData)
        } else {
            match cstrings_at(input, end + 1, (count - 1) as nat) {
                Ok((rest, next)) => Ok((seq![input.subrange(pos, end)] + rest, next)),
                Err(e) => Err(e),
            }
        }
    }
}

/// The number of bytes that bring a section of `len` bytes to a multiple of
/// four.
pub open spec fn padding(len: int) -> int {
    (4 - len % 4) % 4
}

/// The position after the padding that follows a section of `len` bytes
/// ending at `pos`.
pub open spec fn padded(input: Seq<u8>, pos: int, len: int) -> Result<int, BlendParseError> {
    if pos + padding(len) > input.len() {
        Err(BlendParseError::NotEnoughData)
    } else {
        Ok(pos + padding(len))
    }
}

/// A section of strings that starts at `pos`: the tag, the number of
/// strings, the strings and the padding.
pub open spec fn strings_section(
    input: Seq<u8>,
    pos: int,
    tag: Seq<u8>,
    endianness: Endianness,
) -> Result<(Seq<Seq<u8>>, int), BlendParseError> {
    match tag_at(input, pos, tag) {
        Err(e) => Err(e),
        Ok(counted) => match u32_at(input, counted, endianness) {
            Err(e) => Err(e),
            Ok((count, start)) => match cstrings_at(input, start, count as nat) {
                Err(e) => Err(e),
                Ok((strings, end)) => match padded(input, end, end - start) {
                    Err(e) => Err(e),
                    Ok(next) => Ok((strings, next)),
                },
            },
        },
    }
}

/// The `TLEN` section at `pos`: the tag, one `u16` for each of `count`
/// types, and the padding.
pub open spec fn lengths_section(
    input: Seq<u8>,
    pos: int,
    count: nat,
    endianness: Endianness,
) -> Result<(Seq<u16>, int), BlendParseError> {
    match tag_at(input, pos, tag_tlen()) {
        Err(e) => Err(e),
        Ok(start) => if start + 2 * count > input.len() {
            Err(BlendParseError::NotEnoughData)
        } else {
            match padded(input, start + 2 * count, (2 * count) as int) {
                Err(e) => Err(e),
                Ok(next) => Ok(
                    (
                        Seq::new(count, |i: int| u16_of(input.skip(start + 2 * i), endianness)),
                        next,
                    ),
                ),
            }
        },
    }
}

/// The types that the `TYPE` and `TLEN` sections at `pos` describe.
pub open spec fn types_at(input: Seq<u8>, pos: int, endianness: Endianness) -> Result<
    (Seq<DnaTypeView>, int),
    BlendParseError,
> {
    match strings_section(input, pos, tag_type(), endianness) {
        Err(e) => Err(e),
        Ok((names, lengths_pos)) => match lengths_section(
            input,
            lengths_pos,
            names.len(),
            endianness,
        ) {
            Err(e) => Err(e),
            Ok((lengths, next)) => Ok(
                (
                    Seq::new(
                        names.len(),
                        |i: int|
                            DnaTypeView {
                                name: lossy_text(names[i]),
                                bytes_len: lengths[i] as usize,
                            },
                    ),
                    next,
                ),
            ),
        },
    }
}

/// The field that the four bytes at `pos` describe.
pub open spec fn field_at(input: Seq<u8>, pos: int, endianness: Endianness) -> DnaField {
    DnaField {
        type_index: u16_of(input.skip(pos), endianness) as usize,
        name_index: u16_of(input.skip(pos + 2), endianness) as usize,
    }
}

/// The struct record at `pos`: the type, the number of fields and the
/// fields.
pub open spec fn struct_at(input: Seq<u8>, pos: int, endianness: Endianness) -> Result<
    (DnaStructView, int),
    BlendParseError,
> {
    if pos < 0 || pos + 4 > input.len() {
        Err(BlendParseError::NotEnoughData)
    } else {
        let count = u16_of(input.skip(pos + 2), endianness) as int;
        if pos + 4 + 4 * count > input.len() {
            Err(BlendParseError::NotEnoughData)
        } else {
            Ok(
                (
                    DnaStructView {
                        type_index: u16_of(input.skip(pos), endianness) as usize,
                        fields: Seq::new(
                            count as nat,
                            |i: int| field_at(input, pos + 4 + 4 * i, endianness),
                        ),
                    },
                    pos + 4 + 4 * count,
                ),
            )
        }
    }
}

/// `count` struct records from `pos` on.
pub open spec fn structs_from(
    input: Seq<u8>,
    pos: int,
    count: nat,
    endianness: Endianness,
) -> Result<(Seq<DnaStructView>, int), BlendParseError>
    decreases count,
{
    if count == 0 {
        Ok((Seq::empty(), pos))
    } else {
        match struct_at(input, pos, endianness) {
            Err(e) => Err(e),
            Ok((first, after)) => match structs_from(
                input,
                after,
                (count - 1) as nat,
                endianness,
            ) {
                Err(e) => Err(e),
                Ok((rest, next)) => Ok((seq![first] + rest, next)),
            },
        }
    }
}

/// The `STRC` section at `pos`.
pub open spec fn structs_at(input: Seq<u8>, pos: int, endianness: Endianness) -> Result<
    (Seq<DnaStructView>, int),
    BlendParseError,
> {
    match tag_at(input, pos, tag_strc()) {
        Err(e) => Err(e),
        Ok(counted) => match u32_at(input, counted, endianness) {
            Err(e) => Err(e),
            Ok((count, start)) => structs_from(input, start, count as nat, endianness),
        },
    }
}

/// The texts of a list of strings.
pub open spec fn texts(strings: Seq<Seq<u8>>) -> Seq<Seq<char>> {
    Seq::new(strings.len(), |i: int| lossy_text(strings[i]))
}

/// The DNA that stands at the start of `input`, and the position after it;
/// or the reason why none stands there.
pub open spec fn dna_at(input: Seq<u8>, endianness: Endianness) -> Result<
    (DnaView, int),
    BlendParseError,
> {
    match tag_at(input, 0, tag_sdna()) {
        Err(e) => Err(e),
        Ok(names_pos) => match strings_section(input, names_pos, tag_name(), endianness) {
            Err(e) => Err(e),
            Ok((names, types_pos)) => match types_at(input, types_pos, endianness) {
                Err(e) => Err(e),
                Ok((types, structs_pos)) => match structs_at(input, structs_pos, endianness) {
                    Err(e) => Err(e),
                    Ok((structs, end)) => Ok(
                        (DnaView { names: texts(names), types, structs }, end),
                    ),
                },
            },
        },
    }
}

/// The DNA that the payload of a `DNA1` block describes, or the reason why
/// it describes none. What follows the DNA in the payload plays no part.
pub open spec fn dna_of(input: Seq<u8>, endianness: Endianness) -> Result<
    DnaView,
    BlendParseError,
> {
    match dna_at(input, endianness) {
        Ok((dna, _)) => Ok(dna),
        Err(e) => Err(e),
    }
}

/// The views of a list of strings.
pub open spec fn string_views(strings: Seq<String>) -> Seq<Seq<char>> {
    Seq::new(strings.len(), |i: int| strings[i]@)
}

/// Looks for the four bytes of a tag at `pos`.
fn expect_tag(input: &[u8], pos: usize, tag: [u8; 4]) -> (r: Result<usize, BlendParseError>)
    requires
        pos <= input@.len(),
    ensures
        match r {
            Ok(next) => tag_at(input@, pos as int, tag@) == Ok::<int, BlendParseError>(next as int)
                && next == pos + 4 && next <= input@.len(),
            Err(e) => tag_at(input@, pos as int, tag@) == Err::<int, BlendParseError>(e),
        },
{
    if input.len() - pos < 4 {
        return Err(BlendParseError::NotEnoughData);
    }
    if input[pos] == tag[0] && input[pos + 1] == tag[1] && input[pos + 2] == tag[2] && input[pos
        + 3] == tag[3] {
        assert(input@.subrange(pos as int, pos + 4) =~= tag@);
        Ok(pos + 4)
    } else {
        Err(BlendParseError::UnexpectedTag)
    }
}

/// Reads the `u32` at `pos`.
fn read_u32(input: &[u8], pos: usize, endianness: Endianness) -> (r: Result<
    (u32, usize),
    BlendParseError,
>)
    requires
        pos <= input@.len(),
    ensures
        match r {
            Ok((value, next)) => u32_at(input@, pos as int, endianness) == Ok::<
                (u32, int),
                BlendParseError,
            >((value, next as int)) && next == pos + 4 && next <= input@.len(),
            Err(e) => u32_at(input@, pos as int, endianness) == Err::<(u32, int), BlendParseError>(
                e,
            ),
        },
{
    if input.len() - pos < 4 {
        return Err(BlendParseError::NotEnoughData);
    }
    let rest: &[u8] = &input[pos..input.len()];
    assert(rest@ =~= input@.skip(pos as int));
    Ok((parse_u32(rest, endianness), pos + 4))
}

/// Reads the `u16` at `pos`, which must be there.
fn read_u16(input: &[u8], pos: usize, endianness: Endianness) -> (value: u16)
    requires
        pos + 2 <= input@.len(),
    ensures
        value == u16_of(input@.skip(pos as int), endianness),
{
    let rest: &[u8] = &input[pos..input.len()];
    assert(rest@ =~= input@.skip(pos as int));
    parse_u16(rest, endianness)
}

fn find_zero(input: &[u8], from: usize) -> (r: usize)
    requires
        from <= input@.len(),
    ensures
        r == zero_from(input@, from as int),
        from <= r <= input@.len(),
{
    let mut i: usize = from;
    while i < input.len() && input[i] != 0
        invariant
            from <= i <= input@.len(),
            zero_from(input@, from as int) == zero_from(input@, i as int),
        decreases input@.len() - i,
    {
        i += 1;
    }
    i
}

/// Reads `count` zero-terminated strings from `pos` on.
fn read_cstrings(input: &[u8], pos: usize, count: u32) -> (r: Result<
    (Vec<String>, usize),
    BlendParseError,
>)
    requires
        pos <= input@.len(),
    ensures
        match r {
            Ok((names, next)) => cstrings_at(input@, pos as int, count as nat) matches Ok(
                (strings, end),
            ) && end == next && string_views(names@) == texts(strings) && pos <= next
                <= input@.len(),
            Err(e) => cstrings_at(input@, pos as int, count as nat) == Err::<
                (Seq<Seq<u8>>, int),
                BlendParseError,
            >(e),
        },
{
    let mut names: Vec<String> = Vec::new();
    let mut at: usize = pos;
    let mut i: u32 = 0;
    let ghost mut strings: Seq<Seq<u8>> = Seq::empty();
    assert(string_views(names@) =~= texts(strings));
    while i < count
        invariant
            i <= count,
            pos <= at <= input@.len(),
            names@.len() == strings.len(),
            string_views(names@) == texts(strings),
            cstrings_at(input@, pos as int, count as nat) == match cstrings_at(
                input@,
                at as int,
                (count - i) as nat,
            ) {
                Ok((rest, end)) => Ok::<(Seq<Seq<u8>>, int), BlendParseError>(
                    (strings + rest, end),
                ),
                Err(e) => Err(e),
            },
        decreases count - i,
    {
        let end: usize = find_zero(input, at);
        if end >= input.len() {
            return Err(BlendParseError::NotEnoughData);
        }
        let name: String = lossy_string(&input[at..end]);
        let ghost before = strings;
        let ghost before_names = names@;
        names.push(name);
        proof {
            strings = strings.push(input@.subrange(at as int, end as int));
            assert forall|j: int| 0 <= j < names@.len() implies string_views(names@)[j] == texts(
                strings,
            )[j] by {
                if j < before_names.len() {
                    assert(string_views(before_names)[j] == texts(before)[j]);
                }
            }
            assert(string_views(names@) =~= texts(strings));
            match cstrings_at(input@, end + 1, (count - i - 1) as nat) {
                Ok((rest, stop)) => {
                    assert(before + (seq![input@.subrange(at as int, end as int)] + rest)
                        =~= strings + rest);
                },
                Err(e) => {},
            }
        }
        at = end + 1;
        i += 1;
    }
    assert(strings + Seq::<Seq<u8>>::empty() =~= strings);
    Ok((names, at))
}

/// Skips the padding after a section of `len` bytes that ends at `pos`.
fn skip_padding(input: &[u8], pos: usize, len: usize) -> (r: Result<usize, BlendParseError>)
    requires
        pos <= input@.len(),
    ensures
        match r {
            Ok(next) => padded(input@, pos as int, len as int) == Ok::<int, BlendParseError>(
                next as int,
            ) && pos <= next <= input@.len(),
            Err(e) => padded(input@, pos as int, len as int) == Err::<int, BlendParseError>(e),
        },
{
    let skip: usize = (4 - len % 4) % 4;
    if input.len() - pos < skip {
        Err(BlendParseError::NotEnoughData)
    } else {
        Ok(pos + skip)
    }
}

/// Reads a section of strings: the tag, the number of strings, the strings
/// and the padding.
fn read_strings_section(input: &[u8], pos: usize, tag: [u8; 4], endianness: Endianness) -> (r:
    Result<(Vec<String>, usize), BlendParseError>)
    requires
        pos <= input@.len(),
    ensures
        match r {
            Ok((names, next)) => strings_section(input@, pos as int, tag@, endianness) matches Ok(
                (strings, end),
            ) && end == next && string_views(names@) == texts(strings) && names@.len()
                == strings.len() && next <= input@.len(),
            Err(e) => strings_section(input@, pos as int, tag@, endianness) == Err::<
                (Seq<Seq<u8>>, int),
                BlendParseError,
            >(e),
        },
{
    let counted: usize = match expect_tag(input, pos, tag) {
        Ok(p) => p,
        Err(e) => {
            return Err(e);
        },
    };
    let (count, start) = match read_u32(input, counted, endianness) {
        Ok(v) => v,
        Err(e) => {
            return Err(e);
        },
    };
    let (names, end) = match read_cstrings(input, start, count) {
        Ok(v) => v,
        Err(e) => {
            return Err(e);
        },
    };
    let next: usize = match skip_padding(input, end, end - start) {
        Ok(p) => p,
        Err(e) => {
            return Err(e);
        },
    };
    proof {
        let strings = cstrings_at(input@, start as int, count as nat).unwrap().0;
        assert(string_views(names@).len() == texts(strings).len());
    }
    Ok((names, next))
}

/// The views of a list of types.
pub open spec fn type_views(types: Seq<DnaType>) -> Seq<DnaTypeView> {
    Seq::new(types.len(), |i: int| types[i]@)
}

/// The views of a list of structs.
pub open spec fn struct_views(structs: Seq<DnaStruct>) -> Seq<DnaStructView> {
    Seq::new(structs.len(), |i: int| structs[i]@)
}

/// Reads the struct record at `pos`.
fn read_struct(input: &[u8], pos: usize, endianness: Endianness) -> (r: Result<
    (DnaStruct, usize),
    BlendParseError,
>)
    requires
        pos <= input@.len(),
    ensures
        match r {
            Ok((record, next)) => struct_at(input@, pos as int, endianness) == Ok::<
                (DnaStructView, int),
                BlendParseError,
            >((record@, next as int)) && pos <= next <= input@.len(),
            Err(e) => struct_at(input@, pos as int, endianness) == Err::<
                (DnaStructView, int),
                BlendParseError,
            >(e),
        },
{
    if input.len() - pos < 4 {
        return Err(BlendParseError::NotEnoughData);
    }
    let type_index: u16 = read_u16(input, pos, endianness);
    let count: u16 = read_u16(input, pos + 2, endianness);
    let start: usize = pos + 4;
    if (input.len() - start) / 4 < count as usize {
        return Err(BlendParseError::NotEnoughData);
    }
    let mut fields: Vec<DnaField> = Vec::new();
    let mut i: u16 = 0;
    while i < count
        invariant
            i <= count,
            start == pos + 4,
            start + 4 * count <= input@.len() <= usize::MAX,
            fields@.len() == i,
            forall|j: int|
                0 <= j < i ==> fields@[j] == field_at(input@, start + 4 * j, endianness),
        decreases count - i,
    {
        let at: usize = start + 4 * (i as usize);
        fields.push(
            DnaField {
                type_index: read_u16(input, at, endianness) as usize,
                name_index: read_u16(input, at + 2, endianness) as usize,
            },
        );
        i += 1;
    }
    let record = DnaStruct { type_index: type_index as usize, fields };
    assert(record@.fields =~= struct_at(input@, pos as int, endianness).unwrap().0.fields);
    Ok((record, start + 4 * (count as usize)))
}

/// What is needed to decode a DNA: the byte order and the pointer size of
/// the file.
#[derive(Debug, Copy, Clone)]
pub struct DnaParseContext {
    pub endianness: Endianness,
    pub pointer_size: PointerSize,
}

impl DnaParseContext {
    pub fn new(endianness: Endianness, pointer_size: PointerSize) -> (ctx: Self)
        ensures
            ctx.endianness == endianness,
            ctx.pointer_size == pointer_size,
    {
        Self { endianness, pointer_size }
    }

    /// Reads the `NAME` section at `pos`.
    fn names(&self, input: &[u8], pos: usize) -> (r: Result<(Vec<String>, usize), BlendParseError>)
        requires
            pos <= input@.len(),
        ensures
            match r {
                Ok((names, next)) => strings_section(
                    input@,
                    pos as int,
                    tag_name(),
                    self.endianness,
                ) matches Ok((strings, end)) && end == next && string_views(names@) == texts(
                    strings,
                ) && next <= input@.len(),
                Err(e) => strings_section(input@, pos as int, tag_name(), self.endianness) == Err::<
                    (Seq<Seq<u8>>, int),
                    BlendParseError,
                >(e),
            },
    {
        read_strings_section(input, pos, [0x4e, 0x41, 0x4d, 0x45], self.endianness)
    }

    /// Reads the `TYPE` and `TLEN` sections at `pos`.
    fn types(&self, input: &[u8], pos: usize) -> (r: Result<(Vec<DnaType>, usize), BlendParseError>)
        requires
            pos <= input@.len(),
        ensures
            match r {
                Ok((types, next)) => types_at(input@, pos as int, self.endianness) == Ok::<
                    (Seq<DnaTypeView>, int),
                    BlendParseError,
                >((type_views(types@), next as int)) && next <= input@.len(),
                Err(e) => types_at(input@, pos as int, self.endianness) == Err::<
                    (Seq<DnaTypeView>, int),
                    BlendParseError,
                >(e),
            },
    {
        let (names, lengths_pos) = match read_strings_section(
            input,
            pos,
            [0x54, 0x59, 0x50, 0x45],
            self.endianness,
        ) {
            Ok(v) => v,
            Err(e) => {
                return Err(e);
            },
        };
        let ghost strings = strings_section(input@, pos as int, tag_type(), self.endianness).unwrap().0;
        let start: usize = match expect_tag(input, lengths_pos, [0x54, 0x4c, 0x45, 0x4e]) {
            Ok(p) => p,
            Err(e) => {
                return Err(e);
            },
        };
        let count: usize = names.len();
        if (input.len() - start) / 2 < count {
            return Err(BlendParseError::NotEnoughData);
        }
        let mut types: Vec<DnaType> = Vec::new();
        let mut i: usize = 0;
        while i < count
            invariant
                i <= count,
                count == names@.len(),
                count == strings.len(),
                string_views(names@) == texts(strings),
                start + 2 * count <= input@.len() <= usize::MAX,
                types@.len() == i,
                forall|j: int|
                    0 <= j < i ==> (#[trigger] types@[j])@ == (DnaTypeView {
                        name: lossy_text(strings[j]),
                        bytes_len: u16_of(input@.skip(start + 2 * j), self.endianness) as usize,
                    }),
            decreases count - i,
        {
            let bytes_len: u16 = read_u16(input, start + 2 * i, self.endianness);
            assert(string_views(names@)[i as int] == texts(strings)[i as int]);
            types.push(DnaType { name: names[i].clone(), bytes_len: bytes_len as usize });
            i += 1;
        }
        let next: usize = match skip_padding(input, start + 2 * count, 2 * count) {
            Ok(p) => p,
            Err(e) => {
                return Err(e);
            },
        };
        assert(type_views(types@) =~= types_at(input@, pos as int, self.endianness).unwrap().0);
        Ok((types, next))
    }

    /// Reads the `STRC` section at `pos`.
    fn structs(&self, input: &[u8], pos: usize) -> (r: Result<
        (Vec<DnaStruct>, usize),
        BlendParseError,
    >)
        requires
            pos <= input@.len(),
        ensures
            match r {
                Ok((structs, next)) => structs_at(input@, pos as int, self.endianness) == Ok::<
                    (Seq<DnaStructView>, int),
                    BlendParseError,
                >((struct_views(structs@), next as int)) && next <= input@.len(),
                Err(e) => structs_at(input@, pos as int, self.endianness) == Err::<
                    (Seq<DnaStructView>, int),
                    BlendParseError,
                >(e),
            },
    {
        let counted: usize = match expect_tag(input, pos, [0x53, 0x54, 0x52, 0x43]) {
            Ok(p) => p,
            Err(e) => {
                return Err(e);
            },
        };
        let (count, start) = match read_u32(input, counted, self.endianness) {
            Ok(v) => v,
            Err(e) => {
                return Err(e);
            },
        };
        let mut structs: Vec<DnaStruct> = Vec::new();
        let mut at: usize = start;
        let mut i: u32 = 0;
        assert(struct_views(structs@) =~= Seq::<DnaStructView>::empty());
        while i < count
            invariant
                i <= count,
                at <= input@.len(),
                structs_at(input@, pos as int, self.endianness) == structs_from(
                    input@,
                    start as int,
                    count as nat,
                    self.endianness,
                ),
                structs_from(input@, start as int, count as nat, self.endianness)
                    == match structs_from(input@, at as int, (count - i) as nat, self.endianness) {
                    Ok((rest, end)) => Ok::<(Seq<DnaStructView>, int), BlendParseError>(
                        (struct_views(structs@) + rest, end),
                    ),
                    Err(e) => Err(e),
                },
            decreases count - i,
        {
            let (record, next) = match read_struct(input, at, self.endianness) {
                Ok(v) => v,
                Err(e) => {
                    assert(structs_from(input@, at as int, (count - i) as nat, self.endianness)
                        == Err::<(Seq<DnaStructView>, int), BlendParseError>(e));
                    return Err(e);
                },
            };
            let ghost before = struct_views(structs@);
            structs.push(record);
            proof {
                assert(struct_views(structs@) =~= before.push(record@));
                match structs_from(input@, next as int, (count - i - 1) as nat, self.endianness) {
                    Ok((rest, end)) => {
                        assert(before + (seq![record@] + rest) =~= struct_views(structs@) + rest);
                    },
                    Err(e) => {},
                }
            }
            at = next;
            i += 1;
        }
        assert(struct_views(structs@) + Seq::<DnaStructView>::empty() =~= struct_views(structs@));
        Ok((structs, at))
    }

    /// Decodes the DNA at the start of `input`, the payload of a `DNA1`
    /// block, and says where in `input` the DNA ends.
    ///
    /// Fails with `NotEnoughData` where the payload ends too early and with
    /// `UnexpectedTag` where a section does not start with its tag.
    pub fn dna(&self, input: &[u8]) -> (r: Result<(Dna, usize), BlendParseError>)
        ensures
            match r {
                Ok((dna, next)) => dna_at(input@, self.endianness) == Ok::<
                    (DnaView, int),
                    BlendParseError,
                >((dna@, next as int)) && next <= input@.len(),
                Err(e) => dna_at(input@, self.endianness) == Err::<(DnaView, int), BlendParseError>(
                    e,
                ),
            },
    {
        let names_pos: usize = match expect_tag(input, 0, [0x53, 0x44, 0x4e, 0x41]) {
            Ok(p) => p,
            Err(e) => {
                return Err(e);
            },
        };
        let (names, types_pos) = match self.names(input, names_pos) {
            Ok(v) => v,
            Err(e) => {
                return Err(e);
            },
        };
        let (types, structs_pos) = match self.types(input, types_pos) {
            Ok(v) => v,
            Err(e) => {
                return Err(e);
            },
        };
        let (structs, next) = match self.structs(input, structs_pos) {
            Ok(v) => v,
            Err(e) => {
                return Err(e);
            },
        };
        let dna = Dna { names, types, structs };
        assert(dna@.names =~= string_views(dna.names@));
        assert(dna@.types =~= type_views(dna.types@));
        assert(dna@.structs =~= struct_views(dna.structs@));
        Ok((dna, next))
    }
}

} // verus!
