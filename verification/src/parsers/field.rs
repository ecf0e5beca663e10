//! The grammar of DNA field names.
//!
//! A name as the DNA stores it carries the shape of the field with it:
//! `*next` is a pointer, `**mat` a pointer to pointers, `uv[2]` and
//! `obmat[4][4]` are arrays, `*ptr[3]` is an array of pointers and
//! `(*poin)()` a pointer to a function.
//!
//! A text is well formed if it is a pointer to a function,
//!
//! ```text
//! (* name ) ( anything but a closing parenthesis )
//! ```
//!
//! or asterisks, none or more, a name, and bracketed groups, none or more,
//! that run to the end of the text:
//!
//! ```text
//! * ... * name [ size ] ... [ size ]
//! ```
//!
//! A name has at least one character and none of `*`, `(`, `)`, `[`, `]`.
//! Any other text is refused as malformed.

use vstd::prelude::*;
use vstd::string::*;

verus! {

/// Why a field name is refused.
#[derive(Debug, Copy, Clone, PartialEq, Eq, Structural)]
pub enum FieldParseError {
    /// The text is not of a form that the grammar knows: it has no name, a
    /// bracket or a parenthesis that is not closed, or something after the
    /// last bracketed group or after the parameters of a function pointer.
    Malformed,
    /// The text is well formed, but what stands between a `[` and its `]` is
    /// not a number that fits `usize`, or the number of elements of the
    /// whole array does not fit `usize`.
    InvalidArraySize,
}

/// The shape of a field, apart from its type.
#[derive(Debug, Clone, PartialEq, Eq)]
pub enum FieldInfo {
    Value,
    ValueArray { len: usize, dimensions: Vec<usize> },
    Pointer { indirection_count: usize },
    PointerArray { indirection_count: usize, len: usize, dimensions: Vec<usize> },
    FnPointer,
}

/// [`FieldInfo`] as a mathematical value.
pub enum FieldShape {
    Value,
    ValueArray { len: usize, dimensions: Seq<usize> },
    Pointer { indirection_count: usize },
    PointerArray { indirection_count: usize, len: usize, dimensions: Seq<usize> },
    FnPointer,
}

impl View for FieldInfo {
    type V = FieldShape;

    open spec fn view(&self) -> FieldShape {
        match *self {
            FieldInfo::Value => FieldShape::Value,
            FieldInfo::ValueArray { len, dimensions } => FieldShape::ValueArray {
                len,
                dimensions: dimensions@,
            },
            FieldInfo::Pointer { indirection_count } => FieldShape::Pointer { indirection_count },
            FieldInfo::PointerArray { indirection_count, len, dimensions } => {
                FieldShape::PointerArray { indirection_count, len, dimensions: dimensions@ }
            },
            FieldInfo::FnPointer => FieldShape::FnPointer,
        }
    }
}

/// The first index at or after `from` at which `s` holds `c`; the length of
/// `s` if there is none.
pub open spec fn find_from(s: Seq<char>, c: char, from: int) -> int
    decreases s.len() - from,
{
    if from < 0 || from >= s.len() {
        s.len() as int
    } else if s[from] == c {
        from
    } else {
        find_from(s, c, from + 1)
    }
}

/// The number of `c` that `s` holds in a row from index `from` on.
pub open spec fn run_length(s: Seq<char>, c: char, from: int) -> nat
    decreases s.len() - from,
{
    if from < 0 || from >= s.len() || s[from] != c {
        0
    } else {
        1 + run_length(s, c, from + 1)
    }
}

/// Whether `c` is one of the ten decimal digits.
pub open spec fn is_digit(c: char) -> bool {
    '0' <= c <= '9'
}

/// The number that the decimal digits of `s` spell.
pub open spec fn digits_value(s: Seq<char>) -> nat
    decreases s.len(),
{
    if s.len() == 0 {
        0
    } else {
        digits_value(s.drop_last()) * 10 + (s.last() as u32 - '0' as u32) as nat
    }
}

/// Whether `s` holds decimal digits only.
pub open spec fn all_digits(s: Seq<char>) -> bool {
    forall|i: int| 0 <= i < s.len() ==> is_digit(#[trigger] s[i])
}

/// `s` without the `+` that may stand in front of a number.
pub open spec fn without_sign(s: Seq<char>) -> Seq<char> {
    if s.len() > 0 && s[0] == '+' {
        s.skip(1)
    } else {
        s
    }
}

/// The array size that `s` spells: decimal digits, at least one, with or
/// without a `+` before them, that make a number which fits `usize`.
pub open spec fn dimension_of(s: Seq<char>) -> Option<usize> {
    let digits = without_sign(s);
    if digits.len() > 0 && all_digits(digits) && digits_value(digits) <= usize::MAX {
        Some(digits_value(digits) as usize)
    } else {
        None
    }
}

/// Whether a bracketed group starts at `pos`: a `[` with a `]` somewhere
/// after it.
pub open spec fn group_at(s: Seq<char>, pos: int) -> bool {
    0 <= pos < s.len() && s[pos] == '[' && find_from(s, ']', pos + 1) < s.len()
}

/// Whether bracketed groups, none or more, follow each other from `pos` to
/// the end of `s`, with nothing between them and nothing after them.
pub open spec fn well_grouped(s: Seq<char>, pos: int) -> bool
    decreases s.len() - pos,
{
    if pos >= s.len() {
        pos == s.len()
    } else if group_at(s, pos) {
        proof {
            lemma_find_from_bounds(s, ']', pos + 1);
        }
        well_grouped(s, find_from(s, ']', pos + 1) + 1)
    } else {
        false
    }
}

/// The sizes spelled by the bracketed groups that follow each other from
/// `pos` on, or `None` if one of them spells no size.
pub open spec fn sizes_from(s: Seq<char>, pos: int) -> Option<Seq<usize>>
    decreases s.len() - pos,
{
    if group_at(s, pos) {
        let close = find_from(s, ']', pos + 1);
        proof {
            lemma_find_from_bounds(s, ']', pos + 1);
        }
        match (dimension_of(s.subrange(pos + 1, close)), sizes_from(s, close + 1)) {
            (Some(d), Some(rest)) => Some(seq![d] + rest),
            _ => None,
        }
    } else {
        Some(Seq::empty())
    }
}

/// The dimensions that the text from `pos` to the end of `s` spells. The
/// text is malformed unless it is made of bracketed groups alone, and each
/// group must spell a size.
pub open spec fn dimensions_from(s: Seq<char>, pos: int) -> Result<Seq<usize>, FieldParseError> {
    if !well_grouped(s, pos) {
        Err(FieldParseError::Malformed)
    } else {
        match sizes_from(s, pos) {
            Some(dimensions) => Ok(dimensions),
            None => Err(FieldParseError::InvalidArraySize),
        }
    }
}

/// The product of the numbers of `dims`; 1 for none.
pub open spec fn product(dims: Seq<usize>) -> nat
    decreases dims.len(),
{
    if dims.len() == 0 {
        1
    } else {
        product(dims.drop_last()) * (dims.last() as nat)
    }
}

/// Whether `c` is one of the characters that decorate a name.
pub open spec fn is_decoration(c: char) -> bool {
    c == '*' || c == '(' || c == ')' || c == '[' || c == ']'
}

/// Whether `s` is a name: at least one character, and none that decorates.
pub open spec fn is_name(s: Seq<char>) -> bool {
    s.len() > 0 && forall|i: int| 0 <= i < s.len() ==> !is_decoration(#[trigger] s[i])
}

/// Whether `s` has the form of a function pointer: `(*`, some text up to the
/// first `)`, and a parameter list from `(` to the next `)`, which is the
/// last character of `s`.
pub open spec fn is_fn_pointer(s: Seq<char>) -> bool {
    let close = find_from(s, ')', 2);
    &&& s.len() >= 2
    &&& s[0] == '('
    &&& s[1] == '*'
    &&& close + 1 < s.len()
    &&& s[close + 1] == '('
    &&& find_from(s, ')', close + 2) == s.len() - 1
}

/// The shape of an array of `stars` levels of pointers (of values, for no
/// star) whose name ends at `name_end`, where the brackets begin.
pub open spec fn array_shape(s: Seq<char>, stars: usize, name_end: int) -> Result<
    FieldShape,
    FieldParseError,
> {
    match dimensions_from(s, name_end) {
        Ok(dimensions) => if product(dimensions) <= usize::MAX {
            let len = product(dimensions) as usize;
            if stars == 0 {
                Ok(FieldShape::ValueArray { len, dimensions })
            } else {
                Ok(FieldShape::PointerArray { indirection_count: stars, len, dimensions })
            }
        } else {
            Err(FieldParseError::InvalidArraySize)
        },
        Err(e) => Err(e),
    }
}

/// What a field name means: the name without its decoration, and the shape.
///
/// A text that starts with `(` is a pointer to a function, or malformed.
/// In any other text the asterisks in front count the levels of
/// indirection, the name runs up to the first `[`, and the bracketed groups
/// from there to the end of the text give the dimensions of an array.
pub open spec fn field_of(s: Seq<char>) -> Result<(Seq<char>, FieldShape), FieldParseError> {
    if s.len() > 0 && s[0] == '(' {
        let name = s.subrange(2, find_from(s, ')', 2));
        if is_fn_pointer(s) && is_name(name) {
            Ok((name, FieldShape::FnPointer))
        } else {
            Err(FieldParseError::Malformed)
        }
    } else {
        let stars = run_length(s, '*', 0);
        let name_end = find_from(s, '[', stars as int);
        let name = s.subrange(stars as int, name_end);
        if !is_name(name) {
            Err(FieldParseError::Malformed)
        } else if name_end == s.len() {
            if stars == 0 {
                Ok((name, FieldShape::Value))
            } else {
                Ok((name, FieldShape::Pointer { indirection_count: stars as usize }))
            }
        } else {
            match array_shape(s, stars as usize, name_end) {
                Ok(shape) => Ok((name, shape)),
                Err(e) => Err(e),
            }
        }
    }
}

/// The index that `find_from` gives lies between `from` and the length of
/// `s`, holds `c` if it lies inside `s`, and no index before it does.
pub proof fn lemma_find_from_bounds(s: Seq<char>, c: char, from: int)
    requires
        0 <= from <= s.len(),
    ensures
        from <= find_from(s, c, from) <= s.len(),
        find_from(s, c, from) < s.len() ==> s[find_from(s, c, from)] == c,
        forall|i: int| from <= i < find_from(s, c, from) ==> s[i] != c,
    decreases s.len() - from,
{
    if from < s.len() && s[from] != c {
        lemma_find_from_bounds(s, c, from + 1);
    }
}

fn find(cs: &Vec<char>, c: char, from: usize) -> (r: usize)
    requires
        from <= cs.len(),
    ensures
        r == find_from(cs@, c, from as int),
        from <= r <= cs.len(),
{
    let mut i: usize = from;
    while i < cs.len() && cs[i] != c
        invariant
            from <= i <= cs.len(),
            find_from(cs@, c, from as int) == find_from(cs@, c, i as int),
        decreases cs.len() - i,
    {
        i += 1;
    }
    i
}

fn count_run(cs: &Vec<char>, c: char) -> (r: usize)
    ensures
        r == run_length(cs@, c, 0),
        r <= cs.len(),
        forall|i: int| 0 <= i < r ==> cs@[i] == c,
{
    let mut i: usize = 0;
    while i < cs.len() && cs[i] == c
        invariant
            i <= cs.len(),
            run_length(cs@, c, 0) == i + run_length(cs@, c, i as int),
            forall|j: int| 0 <= j < i ==> cs@[j] == c,
        decreases cs.len() - i,
    {
        i += 1;
    }
    i
}

/// The characters of `s`, one by one.
fn chars_of(s: &str) -> (cs: Vec<char>)
    ensures
        cs@ == s@,
{
    let mut cs: Vec<char> = Vec::new();
    for c in it: s.chars()
        invariant
            it.seq() == s@,
            cs@ == it.seq().take(it.index() as int),
    {
        cs.push(c);
    }
    assert(cs@ =~= s@);
    cs
}

proof fn lemma_digits_value_prefix(s: Seq<char>, k: int)
    requires
        0 <= k <= s.len(),
    ensures
        digits_value(s.take(k)) <= digits_value(s),
    decreases s.len() - k,
{
    if k < s.len() {
        lemma_digits_value_prefix(s, k + 1);
        assert(s.take(k + 1).drop_last() =~= s.take(k));
    } else {
        assert(s.take(k) =~= s);
    }
}

/// Reads the array size that the characters from `from` up to `to` spell.
fn parse_dimension(cs: &Vec<char>, from: usize, to: usize) -> (r: Option<usize>)
    requires
        from <= to <= cs.len(),
    ensures
        r == dimension_of(cs@.subrange(from as int, to as int)),
{
    let ghost text = cs@.subrange(from as int, to as int);
    let start: usize = if from < to && cs[from] == '+' {
        from + 1
    } else {
        from
    };
    let ghost digits = cs@.subrange(start as int, to as int);
    assert(digits =~= without_sign(text));
    if start == to {
        return None;
    }
    let mut value: usize = 0;
    let mut i: usize = start;
    while i < to
        invariant
            start <= i <= to <= cs.len(),
            start < to,
            from <= to,
            text == cs@.subrange(from as int, to as int),
            digits == cs@.subrange(start as int, to as int),
            digits == without_sign(text),
            forall|j: int| 0 <= j < i - start ==> is_digit(#[trigger] digits[j]),
            value == digits_value(digits.take(i - start)),
        decreases to - i,
    {
        let c: char = cs[i];
        assert(c == digits[i - start]);
        if c < '0' || c > '9' {
            assert(!is_digit(digits[i - start]));
            return None;
        }
        let digit: usize = (c as u32 - '0' as u32) as usize;
        proof {
            assert(digits.take(i - start + 1).drop_last() =~= digits.take(i - start));
            lemma_digits_value_prefix(digits, i - start + 1);
        }
        let scaled: usize = match value.checked_mul(10) {
            Some(v) => v,
            None => {
                return None;
            },
        };
        value = match scaled.checked_add(digit) {
            Some(v) => v,
            None => {
                return None;
            },
        };
        i += 1;
    }
    assert(digits.take(to - start) =~= digits);
    Some(value)
}

proof fn lemma_product_push(dims: Seq<usize>, d: usize)
    ensures
        product(dims.push(d)) == product(dims) * (d as nat),
{
    assert(dims.push(d).drop_last() =~= dims);
}

proof fn lemma_product_concat(a: Seq<usize>, b: Seq<usize>)
    ensures
        product(a + b) == product(a) * product(b),
    decreases b.len(),
{
    if b.len() == 0 {
        assert(a + b =~= a);
        assert(product(a) * 1 == product(a)) by (nonlinear_arith);
    } else {
        assert((a + b).drop_last() =~= a + b.drop_last());
        lemma_product_concat(a, b.drop_last());
        assert(product(a) * product(b.drop_last()) * (b.last() as nat) == product(a) * (product(
            b.drop_last(),
        ) * (b.last() as nat))) by (nonlinear_arith);
    }
}

proof fn lemma_product_zero(dims: Seq<usize>, i: int)
    requires
        0 <= i < dims.len(),
        dims[i] == 0,
    ensures
        product(dims) == 0,
    decreases dims.len(),
{
    if i == dims.len() - 1 {
        assert(product(dims.drop_last()) * 0 == 0) by (nonlinear_arith);
    } else {
        lemma_product_zero(dims.drop_last(), i);
        assert(0 * (dims.last() as nat) == 0) by (nonlinear_arith);
    }
}

proof fn lemma_product_positive(dims: Seq<usize>)
    requires
        forall|i: int| 0 <= i < dims.len() ==> dims[i] > 0,
    ensures
        product(dims) >= 1,
    decreases dims.len(),
{
    if dims.len() > 0 {
        lemma_product_positive(dims.drop_last());
        assert(product(dims.drop_last()) * (dims.last() as nat) >= 1) by (nonlinear_arith)
            requires
                product(dims.drop_last()) >= 1,
                dims.last() as nat >= 1,
        ;
    }
}

/// Multiplies the dimensions; `None` when the product does not fit `usize`.
fn element_count(dims: &Vec<usize>) -> (r: Option<usize>)
    ensures
        r == if product(dims@) <= usize::MAX {
            Some(product(dims@) as usize)
        } else {
            None
        },
{
    let mut i: usize = 0;
    while i < dims.len()
        invariant
            i <= dims.len(),
            forall|j: int| 0 <= j < i ==> dims@[j] > 0,
        decreases dims.len() - i,
    {
        if dims[i] == 0 {
            proof {
                lemma_product_zero(dims@, i as int);
            }
            return Some(0);
        }
        i += 1;
    }
    let mut len: usize = 1;
    let mut k: usize = 0;
    while k < dims.len()
        invariant
            k <= dims.len(),
            forall|j: int| 0 <= j < dims.len() ==> dims@[j] > 0,
            len == product(dims@.take(k as int)),
        decreases dims.len() - k,
    {
        proof {
            assert(dims@.take(k + 1) =~= dims@.take(k as int).push(dims@[k as int]));
            lemma_product_push(dims@.take(k as int), dims@[k as int]);
            assert(dims@ =~= dims@.take(k + 1) + dims@.skip(k + 1));
            lemma_product_concat(dims@.take(k + 1), dims@.skip(k + 1));
            lemma_product_positive(dims@.skip(k + 1));
            assert(product(dims@) >= product(dims@.take(k + 1))) by (nonlinear_arith)
                requires
                    product(dims@) == product(dims@.take(k + 1)) * product(dims@.skip(k + 1)),
                    product(dims@.skip(k + 1)) >= 1,
            ;
        }
        len = match len.checked_mul(dims[k]) {
            Some(v) => v,
            None => {
                return None;
            },
        };
        k += 1;
    }
    assert(dims@.take(dims.len() as int) =~= dims@);
    Some(len)
}

/// Whether the characters from `from` up to `to` make a name.
fn name_in(cs: &Vec<char>, from: usize, to: usize) -> (r: bool)
    requires
        from <= to <= cs.len(),
    ensures
        r == is_name(cs@.subrange(from as int, to as int)),
{
    let ghost text = cs@.subrange(from as int, to as int);
    if from == to {
        return false;
    }
    let mut i: usize = from;
    while i < to
        invariant
            from <= i <= to <= cs.len(),
            text == cs@.subrange(from as int, to as int),
            forall|j: int| 0 <= j < i - from ==> !is_decoration(#[trigger] text[j]),
        decreases to - i,
    {
        let c: char = cs[i];
        assert(c == text[i - from]);
        if c == '*' || c == '(' || c == ')' || c == '[' || c == ']' {
            return false;
        }
        i += 1;
    }
    true
}

/// Whether bracketed groups alone stand from `pos` to the end.
fn groups_closed(cs: &Vec<char>, pos: usize) -> (r: bool)
    requires
        pos <= cs.len(),
    ensures
        r == well_grouped(cs@, pos as int),
{
    let mut at: usize = pos;
    while at < cs.len()
        invariant
            at <= cs.len(),
            well_grouped(cs@, pos as int) == well_grouped(cs@, at as int),
        decreases cs.len() - at,
    {
        if cs[at] != '[' {
            return false;
        }
        let close: usize = find(cs, ']', at + 1);
        if close >= cs.len() {
            return false;
        }
        at = close + 1;
    }
    true
}

/// Reads the sizes of the bracketed groups that follow each other from
/// `pos` on.
fn array_dimensions(cs: &Vec<char>, pos: usize) -> (r: Option<Vec<usize>>)
    requires
        pos <= cs.len(),
    ensures
        match r {
            Some(dims) => sizes_from(cs@, pos as int) == Some(dims@),
            None => sizes_from(cs@, pos as int) is None,
        },
{
    let mut dims: Vec<usize> = Vec::new();
    let mut at: usize = pos;
    loop
        invariant
            at <= cs.len(),
            sizes_from(cs@, pos as int) == match sizes_from(cs@, at as int) {
                Some(rest) => Some(dims@ + rest),
                None => None,
            },
        decreases cs.len() - at,
    {
        if at >= cs.len() || cs[at] != '[' {
            assert(dims@ + Seq::<usize>::empty() =~= dims@);
            return Some(dims);
        }
        let close: usize = find(cs, ']', at + 1);
        if close >= cs.len() {
            assert(dims@ + Seq::<usize>::empty() =~= dims@);
            return Some(dims);
        }
        let ghost before = dims@;
        match parse_dimension(cs, at + 1, close) {
            Some(d) => {
                dims.push(d);
                proof {
                    match sizes_from(cs@, close + 1) {
                        Some(rest) => {
                            assert(before + (seq![d] + rest) =~= before.push(d) + rest);
                        },
                        None => {},
                    }
                }
            },
            None => {
                return None;
            },
        }
        at = close + 1;
    }
}

/// Parses a field name of the DNA into the name proper and the shape that the
/// decoration around it spells.
///
/// The whole of `input` is the field: a text of which something would be
/// left over is not well formed. A text that is not well formed is refused
/// as `Malformed`; a well formed text with an array size that is no number,
/// or too large a one, as `InvalidArraySize`.
pub fn parse_field(input: &str) -> (r: Result<(String, FieldInfo), FieldParseError>)
    ensures
        match r {
            Ok((name, info)) => field_of(input@) == Ok::<_, FieldParseError>((name@, info@)),
            Err(e) => field_of(input@) == Err::<(Seq<char>, FieldShape), _>(e),
        },
{
    let cs: Vec<char> = chars_of(input);
    let n: usize = cs.len();
    if n > 0 && cs[0] == '(' {
        if n >= 2 && cs[1] == '*' {
            let close: usize = find(&cs, ')', 2);
            if close < n && close + 1 < n && cs[close + 1] == '(' {
                let end: usize = find(&cs, ')', close + 2);
                if end < n && end + 1 == n && name_in(&cs, 2, close) {
                    let name: String = String::from_str(input.substring_char(2, close));
                    return Ok((name, FieldInfo::FnPointer));
                }
            }
        }
        return Err(FieldParseError::Malformed);
    }
    let stars: usize = count_run(&cs, '*');
    let name_end: usize = find(&cs, '[', stars);
    if !name_in(&cs, stars, name_end) {
        return Err(FieldParseError::Malformed);
    }
    let name: String = String::from_str(input.substring_char(stars, name_end));
    if name_end == n {
        if stars == 0 {
            Ok((name, FieldInfo::Value))
        } else {
            Ok((name, FieldInfo::Pointer { indirection_count: stars }))
        }
    } else {
        if !groups_closed(&cs, name_end) {
            return Err(FieldParseError::Malformed);
        }
        let dimensions: Vec<usize> = match array_dimensions(&cs, name_end) {
            Some(d) => d,
            None => {
                return Err(FieldParseError::InvalidArraySize);
            },
        };
        let len: usize = match element_count(&dimensions) {
            Some(l) => l,
            None => {
                return Err(FieldParseError::InvalidArraySize);
            },
        };
        if stars == 0 {
            Ok((name, FieldInfo::ValueArray { len, dimensions }))
        } else {
            Ok((name, FieldInfo::PointerArray { indirection_count: stars, len, dimensions }))
        }
    }
}

} // verus!
