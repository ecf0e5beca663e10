//! Endian-aware decoding of fixed-width integers from byte slices.
//!
//! The multi-byte decoders are those of `nom::number::complete`; this module
//! states what they return and picks the one that suits the byte order.

use super::Endianness;
use vstd::prelude::*;
use vstd::string::*;

verus! {

/// The number spelled by the first two bytes, least significant byte first.
pub open spec fn le_u16_of(b: Seq<u8>) -> u16 {
    (b[0] as int + b[1] as int * 0x100) as u16
}

/// The number spelled by the first two bytes, most significant byte first.
pub open spec fn be_u16_of(b: Seq<u8>) -> u16 {
    (b[1] as int + b[0] as int * 0x100) as u16
}

/// The number spelled by the first four bytes, least significant byte first.
pub open spec fn le_u32_of(b: Seq<u8>) -> u32 {
    (b[0] as int + b[1] as int * 0x100 + b[2] as int * 0x1_0000 + b[3] as int * 0x100_0000) as u32
}

/// The number spelled by the first four bytes, most significant byte first.
pub open spec fn be_u32_of(b: Seq<u8>) -> u32 {
    (b[3] as int + b[2] as int * 0x100 + b[1] as int * 0x1_0000 + b[0] as int * 0x100_0000) as u32
}

/// The number spelled by the first eight bytes, least significant byte first.
pub open spec fn le_u64_of(b: Seq<u8>) -> u64 {
    (b[0] as int + b[1] as int * 0x100 + b[2] as int * 0x1_0000 + b[3] as int * 0x100_0000
        + b[4] as int * 0x1_0000_0000 + b[5] as int * 0x100_0000_0000 + b[6] as int
        * 0x1_0000_0000_0000 + b[7] as int * 0x100_0000_0000_0000) as u64
}

/// The number spelled by the first eight bytes, most significant byte first.
pub open spec fn be_u64_of(b: Seq<u8>) -> u64 {
    (b[7] as int + b[6] as int * 0x100 + b[5] as int * 0x1_0000 + b[4] as int * 0x100_0000
        + b[3] as int * 0x1_0000_0000 + b[2] as int * 0x100_0000_0000 + b[1] as int
        * 0x1_0000_0000_0000 + b[0] as int * 0x100_0000_0000_0000) as u64
}

/// `v` read as a two's complement number of eight bits.
pub open spec fn signed8(v: u8) -> i8 {
    if v < 0x80 {
        v as i8
    } else {
        (v - 0x100) as i8
    }
}

/// `v` read as a two's complement number of sixteen bits.
pub open spec fn signed16(v: u16) -> i16 {
    if v < 0x8000 {
        v as i16
    } else {
        (v - 0x1_0000) as i16
    }
}

/// `v` read as a two's complement number of thirty-two bits.
pub open spec fn signed32(v: u32) -> i32 {
    if v < 0x8000_0000 {
        v as i32
    } else {
        (v - 0x1_0000_0000) as i32
    }
}

/// `v` read as a two's complement number of sixty-four bits.
pub open spec fn signed64(v: u64) -> i64 {
    if v < 0x8000_0000_0000_0000 {
        v as i64
    } else {
        (v - 0x1_0000_0000_0000_0000) as i64
    }
}

/// What [`parse_u8`] returns: the first byte.
pub open spec fn u8_of(b: Seq<u8>) -> u8 {
    b[0]
}

/// What [`parse_i8`] returns.
pub open spec fn i8_of(b: Seq<u8>) -> i8 {
    signed8(b[0])
}

/// What [`parse_u16`] returns.
pub open spec fn u16_of(b: Seq<u8>, endianness: Endianness) -> u16 {
    match endianness {
        Endianness::Little => le_u16_of(b),
        Endianness::Big => be_u16_of(b),
    }
}

/// What [`parse_i16`] returns.
pub open spec fn i16_of(b: Seq<u8>, endianness: Endianness) -> i16 {
    signed16(u16_of(b, endianness))
}

/// What [`parse_u32`] returns.
pub open spec fn u32_of(b: Seq<u8>, endianness: Endianness) -> u32 {
    match endianness {
        Endianness::Little => le_u32_of(b),
        Endianness::Big => be_u32_of(b),
    }
}

/// What [`parse_i32`] returns.
pub open spec fn i32_of(b: Seq<u8>, endianness: Endianness) -> i32 {
    signed32(u32_of(b, endianness))
}

/// What [`parse_u64`] returns.
pub open spec fn u64_of(b: Seq<u8>, endianness: Endianness) -> u64 {
    match endianness {
        Endianness::Little => le_u64_of(b),
        Endianness::Big => be_u64_of(b),
    }
}

/// What [`parse_i64`] returns.
pub open spec fn i64_of(b: Seq<u8>, endianness: Endianness) -> i64 {
    signed64(u64_of(b, endianness))
}

/// Calls `nom::number::complete::le_u16`, which fails on fewer than
/// two bytes and else combines the first two, least significant byte first.
/// The rest of the input, which nom hands back as well, is dropped.
#[verifier::external_body]
fn nom_le_u16(input: &[u8]) -> (r: Option<u16>)
    ensures
        input@.len() < 2 ==> r is None,
        input@.len() >= 2 ==> r == Some(le_u16_of(input@)),
{
    match nom::number::complete::le_u16::<()>(input) {
        Ok((_, value)) => Some(value),
        Err(_) => None,
    }
}

/// Calls `nom::number::complete::le_u32`, which fails on fewer than
/// four bytes and else combines the first four, least significant byte first.
/// The rest of the input, which nom hands back as well, is dropped.
#[verifier::external_body]
fn nom_le_u32(input: &[u8]) -> (r: Option<u32>)
    ensures
        input@.len() < 4 ==> r is None,
        input@.len() >= 4 ==> r == Some(le_u32_of(input@)),
{
    match nom::number::complete::le_u32::<()>(input) {
        Ok((_, value)) => Some(value),
        Err(_) => None,
    }
}

/// Calls `nom::number::complete::le_u64`, which fails on fewer than
/// eight bytes and else combines the first eight, least significant byte first.
/// The rest of the input, which nom hands back as well, is dropped.
#[verifier::external_body]
fn nom_le_u64(input: &[u8]) -> (r: Option<u64>)
    ensures
        input@.len() < 8 ==> r is None,
        input@.len() >= 8 ==> r == Some(le_u64_of(input@)),
{
    match nom::number::complete::le_u64::<()>(input) {
        Ok((_, value)) => Some(value),
        Err(_) => None,
    }
}

/// Calls `nom::number::complete::le_i8`, which fails on fewer than
/// one byte and else casts the result of `le_u8`, the first byte, to the signed
/// type of the same width. The rest of the input is dropped.
#[verifier::external_body]
fn nom_le_i8(input: &[u8]) -> (r: Option<i8>)
    ensures
        input@.len() < 1 ==> r is None,
        input@.len() >= 1 ==> r == Some(signed8(input@[0])),
{
    match nom::number::complete::le_i8::<()>(input) {
        Ok((_, value)) => Some(value),
        Err(_) => None,
    }
}

/// Calls `nom::number::complete::le_i16`, which fails on fewer than
/// two bytes and else casts the result of `le_u16` to the signed
/// type of the same width. The rest of the input is dropped.
#[verifier::external_body]
fn nom_le_i16(input: &[u8]) -> (r: Option<i16>)
    ensures
        input@.len() < 2 ==> r is None,
        input@.len() >= 2 ==> r == Some(signed16(le_u16_of(input@))),
{
    match nom::number::complete::le_i16::<()>(input) {
        Ok((_, value)) => Some(value),
        Err(_) => None,
    }
}

/// Calls `nom::number::complete::le_i32`, which fails on fewer than
/// four bytes and else casts the result of `le_u32` to the signed
/// type of the same width. The rest of the input is dropped.
#[verifier::external_body]
fn nom_le_i32(input: &[u8]) -> (r: Option<i32>)
    ensures
        input@.len() < 4 ==> r is None,
        input@.len() >= 4 ==> r == Some(signed32(le_u32_of(input@))),
{
    match nom::number::complete::le_i32::<()>(input) {
        Ok((_, value)) => Some(value),
        Err(_) => None,
    }
}

/// Calls `nom::number::complete::le_i64`, which fails on fewer than
/// eight bytes and else casts the result of `le_u64` to the signed
/// type of the same width. The rest of the input is dropped.
#[verifier::external_body]
fn nom_le_i64(input: &[u8]) -> (r: Option<i64>)
    ensures
        input@.len() < 8 ==> r is None,
        input@.len() >= 8 ==> r == Some(signed64(le_u64_of(input@))),
{
    match nom::number::complete::le_i64::<()>(input) {
        Ok((_, value)) => Some(value),
        Err(_) => None,
    }
}

/// Calls `nom::number::complete::be_u16`, which fails on fewer than
/// two bytes and else combines the first two, most significant byte first.
/// The rest of the input, which nom hands back as well, is dropped.
#[verifier::external_body]
fn nom_be_u16(input: &[u8]) -> (r: Option<u16>)
    ensures
        input@.len() < 2 ==> r is None,
        input@.len() >= 2 ==> r == Some(be_u16_of(input@)),
{
    match nom::number::complete::be_u16::<()>(input) {
        Ok((_, value)) => Some(value),
        Err(_) => None,
    }
}

/// Calls `nom::number::complete::be_u32`, which fails on fewer than
/// four bytes and else combines the first four, most significant byte first.
/// The rest of the input, which nom hands back as well, is dropped.
#[verifier::external_body]
fn nom_be_u32(input: &[u8]) -> (r: Option<u32>)
    ensures
        input@.len() < 4 ==> r is None,
        input@.len() >= 4 ==> r == Some(be_u32_of(input@)),
{
    match nom::number::complete::be_u32::<()>(input) {
        Ok((_, value)) => Some(value),
        Err(_) => None,
    }
}

/// Calls `nom::number::complete::be_u64`, which fails on fewer than
/// eight bytes and else combines the first eight, most significant byte first.
/// The rest of the input, which nom hands back as well, is dropped.
#[verifier::external_body]
fn nom_be_u64(input: &[u8]) -> (r: Option<u64>)
    ensures
        input@.len() < 8 ==> r is None,
        input@.len() >= 8 ==> r == Some(be_u64_of(input@)),
{
    match nom::number::complete::be_u64::<()>(input) {
        Ok((_, value)) => Some(value),
        Err(_) => None,
    }
}

/// Calls `nom::number::complete::be_i8`, which fails on fewer than
/// one byte and else casts the result of `be_u8`, the first byte, to the signed
/// type of the same width. The rest of the input is dropped.
#[verifier::external_body]
fn nom_be_i8(input: &[u8]) -> (r: Option<i8>)
    ensures
        input@.len() < 1 ==> r is None,
        input@.len() >= 1 ==> r == Some(signed8(input@[0])),
{
    match nom::number::complete::be_i8::<()>(input) {
        Ok((_, value)) => Some(value),
        Err(_) => None,
    }
}

/// Calls `nom::number::complete::be_i16`, which fails on fewer than
/// two bytes and else casts the result of `be_u16` to the signed
/// type of the same width. The rest of the input is dropped.
#[verifier::external_body]
fn nom_be_i16(input: &[u8]) -> (r: Option<i16>)
    ensures
        input@.len() < 2 ==> r is None,
        input@.len() >= 2 ==> r == Some(signed16(be_u16_of(input@))),
{
    match nom::number::complete::be_i16::<()>(input) {
        Ok((_, value)) => Some(value),
        Err(_) => None,
    }
}

/// Calls `nom::number::complete::be_i32`, which fails on fewer than
/// four bytes and else casts the result of `be_u32` to the signed
/// type of the same width. The rest of the input is dropped.
#[verifier::external_body]
fn nom_be_i32(input: &[u8]) -> (r: Option<i32>)
    ensures
        input@.len() < 4 ==> r is None,
        input@.len() >= 4 ==> r == Some(signed32(be_u32_of(input@))),
{
    match nom::number::complete::be_i32::<()>(input) {
        Ok((_, value)) => Some(value),
        Err(_) => None,
    }
}

/// Calls `nom::number::complete::be_i64`, which fails on fewer than
/// eight bytes and else casts the result of `be_u64` to the signed
/// type of the same width. The rest of the input is dropped.
#[verifier::external_body]
fn nom_be_i64(input: &[u8]) -> (r: Option<i64>)
    ensures
        input@.len() < 8 ==> r is None,
        input@.len() >= 8 ==> r == Some(signed64(be_u64_of(input@))),
{
    match nom::number::complete::be_i64::<()>(input) {
        Ok((_, value)) => Some(value),
        Err(_) => None,
    }
}

/// Reads an `i8` from the start of `slice`. The byte order plays no part.
pub fn parse_i8(slice: &[u8], endianness: Endianness) -> (val: i8)
    requires
        slice@.len() >= 1,
    ensures
        val == i8_of(slice@),
{
    let parsed = match endianness {
        Endianness::Little => nom_le_i8(slice),
        Endianness::Big => nom_be_i8(slice),
    };
    parsed.unwrap()
}

/// Reads a `u8` from the start of `slice`. The byte order plays no part.
pub fn parse_u8(slice: &[u8], _endianness: Endianness) -> (val: u8)
    requires
        slice@.len() >= 1,
    ensures
        val == u8_of(slice@),
{
    slice[0]
}

/// Reads a `u16` in the given byte order from the start of `slice`.
pub fn parse_u16(slice: &[u8], endianness: Endianness) -> (val: u16)
    requires
        slice@.len() >= 2,
    ensures
        val == u16_of(slice@, endianness),
{
    let parsed = match endianness {
        Endianness::Little => nom_le_u16(slice),
        Endianness::Big => nom_be_u16(slice),
    };
    parsed.unwrap()
}

/// Reads an `i16` in the given byte order from the start of `slice`.
pub fn parse_i16(slice: &[u8], endianness: Endianness) -> (val: i16)
    requires
        slice@.len() >= 2,
    ensures
        val == i16_of(slice@, endianness),
{
    let parsed = match endianness {
        Endianness::Little => nom_le_i16(slice),
        Endianness::Big => nom_be_i16(slice),
    };
    parsed.unwrap()
}

/// Reads a `u32` in the given byte order from the start of `slice`.
pub fn parse_u32(slice: &[u8], endianness: Endianness) -> (val: u32)
    requires
        slice@.len() >= 4,
    ensures
        val == u32_of(slice@, endianness),
{
    let parsed = match endianness {
        Endianness::Little => nom_le_u32(slice),
        Endianness::Big => nom_be_u32(slice),
    };
    parsed.unwrap()
}

/// Reads an `i32` in the given byte order from the start of `slice`.
pub fn parse_i32(slice: &[u8], endianness: Endianness) -> (val: i32)
    requires
        slice@.len() >= 4,
    ensures
        val == i32_of(slice@, endianness),
{
    let parsed = match endianness {
        Endianness::Little => nom_le_i32(slice),
        Endianness::Big => nom_be_i32(slice),
    };
    parsed.unwrap()
}

/// Reads a `u64` in the given byte order from the start of `slice`.
pub fn parse_u64(slice: &[u8], endianness: Endianness) -> (val: u64)
    requires
        slice@.len() >= 8,
    ensures
        val == u64_of(slice@, endianness),
{
    let parsed = match endianness {
        Endianness::Little => nom_le_u64(slice),
        Endianness::Big => nom_be_u64(slice),
    };
    parsed.unwrap()
}

/// Reads an `i64` in the given byte order from the start of `slice`.
pub fn parse_i64(slice: &[u8], endianness: Endianness) -> (val: i64)
    requires
        slice@.len() >= 8,
    ensures
        val == i64_of(slice@, endianness),
{
    let parsed = match endianness {
        Endianness::Little => nom_le_i64(slice),
        Endianness::Big => nom_be_i64(slice),
    };
    parsed.unwrap()
}

/// A type that a primitive field can be read as: it knows the name that the
/// DNA gives to the matching type, how many bytes a value takes, and how to
/// decode one.
pub trait BlendPrimitive: Sized {
    /// The number of bytes of one value.
    spec fn width() -> nat;

    /// The value that the first bytes of `data` spell.
    spec fn decode(data: Seq<u8>, endianness: Endianness) -> Self;

    /// The name of the type in the DNA.
    spec fn name() -> Seq<char>;

    /// Decodes a value from the start of `data`.
    fn parse(data: &[u8], endianness: Endianness) -> (r: Self)
        requires
            data@.len() >= Self::width(),
        ensures
            r == Self::decode(data@, endianness),
    ;

    /// The name of the type in the DNA.
    fn blender_name() -> (r: &'static str)
        ensures
            r@ == Self::name(),
    ;

    /// The number of bytes of one value.
    fn size() -> (r: usize)
        ensures
            r == Self::width(),
            r > 0,
    ;
}

/// The bits of a `float` of the file, a single precision number in the
/// IEEE 754 format.
#[derive(Debug, Copy, Clone, PartialEq, Eq, Structural)]
pub struct FloatBits(pub u32);

/// The bits of a `double` of the file, a double precision number in the
/// IEEE 754 format.
#[derive(Debug, Copy, Clone, PartialEq, Eq, Structural)]
pub struct DoubleBits(pub u64);

impl BlendPrimitive for char {
    open spec fn width() -> nat {
        1
    }

    open spec fn decode(data: Seq<u8>, endianness: Endianness) -> Self {
        u8_of(data) as char
    }

    open spec fn name() -> Seq<char> {
        "char"@
    }

    fn parse(data: &[u8], endianness: Endianness) -> (r: Self) {
        parse_u8(data, endianness) as char
    }

    fn blender_name() -> (r: &'static str) {
        "char"
    }

    fn size() -> (r: usize) {
        1
    }
}

impl BlendPrimitive for i8 {
    open spec fn width() -> nat {
        1
    }

    open spec fn decode(data: Seq<u8>, endianness: Endianness) -> Self {
        i8_of(data)
    }

    open spec fn name() -> Seq<char> {
        "char"@
    }

    fn parse(data: &[u8], endianness: Endianness) -> (r: Self) {
        parse_i8(data, endianness)
    }

    fn blender_name() -> (r: &'static str) {
        "char"
    }

    fn size() -> (r: usize) {
        1
    }
}

impl BlendPrimitive for u8 {
    open spec fn width() -> nat {
        1
    }

    open spec fn decode(data: Seq<u8>, endianness: Endianness) -> Self {
        u8_of(data)
    }

    open spec fn name() -> Seq<char> {
        "char"@
    }

    fn parse(data: &[u8], endianness: Endianness) -> (r: Self) {
        parse_u8(data, endianness)
    }

    fn blender_name() -> (r: &'static str) {
        "char"
    }

    fn size() -> (r: usize) {
        1
    }
}

impl BlendPrimitive for u16 {
    open spec fn width() -> nat {
        2
    }

    open spec fn decode(data: Seq<u8>, endianness: Endianness) -> Self {
        u16_of(data, endianness)
    }

    open spec fn name() -> Seq<char> {
        "ushort"@
    }

    fn parse(data: &[u8], endianness: Endianness) -> (r: Self) {
        parse_u16(data, endianness)
    }

    fn blender_name() -> (r: &'static str) {
        "ushort"
    }

    fn size() -> (r: usize) {
        2
    }
}

impl BlendPrimitive for i16 {
    open spec fn width() -> nat {
        2
    }

    open spec fn decode(data: Seq<u8>, endianness: Endianness) -> Self {
        i16_of(data, endianness)
    }

    open spec fn name() -> Seq<char> {
        "short"@
    }

    fn parse(data: &[u8], endianness: Endianness) -> (r: Self) {
        parse_i16(data, endianness)
    }

    fn blender_name() -> (r: &'static str) {
        "short"
    }

    fn size() -> (r: usize) {
        2
    }
}

impl BlendPrimitive for i32 {
    open spec fn width() -> nat {
        4
    }

    open spec fn decode(data: Seq<u8>, endianness: Endianness) -> Self {
        i32_of(data, endianness)
    }

    open spec fn name() -> Seq<char> {
        "int"@
    }

    fn parse(data: &[u8], endianness: Endianness) -> (r: Self) {
        parse_i32(data, endianness)
    }

    fn blender_name() -> (r: &'static str) {
        "int"
    }

    fn size() -> (r: usize) {
        4
    }
}

impl BlendPrimitive for FloatBits {
    open spec fn width() -> nat {
        4
    }

    open spec fn decode(data: Seq<u8>, endianness: Endianness) -> Self {
        FloatBits(u32_of(data, endianness))
    }

    open spec fn name() -> Seq<char> {
        "float"@
    }

    fn parse(data: &[u8], endianness: Endianness) -> (r: Self) {
        FloatBits(parse_u32(data, endianness))
    }

    fn blender_name() -> (r: &'static str) {
        "float"
    }

    fn size() -> (r: usize) {
        4
    }
}

impl BlendPrimitive for DoubleBits {
    open spec fn width() -> nat {
        8
    }

    open spec fn decode(data: Seq<u8>, endianness: Endianness) -> Self {
        DoubleBits(u64_of(data, endianness))
    }

    open spec fn name() -> Seq<char> {
        "double"@
    }

    fn parse(data: &[u8], endianness: Endianness) -> (r: Self) {
        DoubleBits(parse_u64(data, endianness))
    }

    fn blender_name() -> (r: &'static str) {
        "double"
    }

    fn size() -> (r: usize) {
        8
    }
}

impl BlendPrimitive for u64 {
    open spec fn width() -> nat {
        8
    }

    open spec fn decode(data: Seq<u8>, endianness: Endianness) -> Self {
        u64_of(data, endianness)
    }

    open spec fn name() -> Seq<char> {
        "uint64_t"@
    }

    fn parse(data: &[u8], endianness: Endianness) -> (r: Self) {
        parse_u64(data, endianness)
    }

    fn blender_name() -> (r: &'static str) {
        "uint64_t"
    }

    fn size() -> (r: usize) {
        8
    }
}

impl BlendPrimitive for i64 {
    open spec fn width() -> nat {
        8
    }

    open spec fn decode(data: Seq<u8>, endianness: Endianness) -> Self {
        i64_of(data, endianness)
    }

    open spec fn name() -> Seq<char> {
        "int64_t"@
    }

    fn parse(data: &[u8], endianness: Endianness) -> (r: Self) {
        parse_i64(data, endianness)
    }

    fn blender_name() -> (r: &'static str) {
        "int64_t"
    }

    fn size() -> (r: usize) {
        8
    }
}

/// The names that the DNA gives to the primitive types which can be read are
/// all different: no field is of two of these types.
pub proof fn lemma_primitive_names_differ()
    ensures
        "char"@ != "ushort"@,
        "char"@ != "short"@,
        "char"@ != "int"@,
        "char"@ != "float"@,
        "char"@ != "double"@,
        "char"@ != "uint64_t"@,
        "char"@ != "int64_t"@,
        "ushort"@ != "short"@,
        "ushort"@ != "int"@,
        "ushort"@ != "float"@,
        "ushort"@ != "double"@,
        "ushort"@ != "uint64_t"@,
        "ushort"@ != "int64_t"@,
        "short"@ != "int"@,
        "short"@ != "float"@,
        "short"@ != "double"@,
        "short"@ != "uint64_t"@,
        "short"@ != "int64_t"@,
        "int"@ != "float"@,
        "int"@ != "double"@,
        "int"@ != "uint64_t"@,
        "int"@ != "int64_t"@,
        "float"@ != "double"@,
        "float"@ != "uint64_t"@,
        "float"@ != "int64_t"@,
        "double"@ != "uint64_t"@,
        "double"@ != "int64_t"@,
        "uint64_t"@ != "int64_t"@,
{
    reveal_strlit("char");
    reveal_strlit("ushort");
    reveal_strlit("short");
    reveal_strlit("int");
    reveal_strlit("float");
    reveal_strlit("double");
    reveal_strlit("uint64_t");
    reveal_strlit("int64_t");
    assert("char"@.len() == 4);
    assert("ushort"@.len() == 6);
    assert("short"@.len() == 5);
    assert("int"@.len() == 3);
    assert("float"@.len() == 5);
    assert("double"@.len() == 6);
    assert("uint64_t"@.len() == 8);
    assert("int64_t"@.len() == 7);
    assert("ushort"@[0] != "double"@[0]);
    assert("short"@[0] != "float"@[0]);
}

} // verus!
