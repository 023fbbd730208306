//! The numeric kinds of a schema and the values they hold.

use crate::num::{
    decimal, format_signed, format_unsigned, le_signed_value, le_value, parse_signed_decimal,
    read_le, read_le_signed, signed_decimal,
};
use crate::schema::Schema;
use vstd::prelude::*;
use vstd::slice::slice_subrange;

verus! {

/// A numeric kind of fixed width.
#[derive(Debug, Clone, Copy, PartialEq, Eq, Structural)]
pub enum NumberKind {
    U8,
    U16,
    U32,
    U64,
    I8,
    I16,
    I32,
    I64,
    F32,
    F64,
}

/// A number as a record holds it. A floating-point number is kept as the
/// bits of its IEEE 754 encoding; this library does no floating-point
/// arithmetic.
#[derive(Debug, Clone, Copy, PartialEq, Eq, Structural)]
pub enum Number {
    Unsigned(u64),
    Signed(i64),
    Float32(u32),
    Float64(u64),
}

impl NumberKind {
    /// The bytes that a number of this kind takes.
    pub open spec fn spec_width(self) -> nat {
        match self {
            NumberKind::U8 | NumberKind::I8 => 1,
            NumberKind::U16 | NumberKind::I16 => 2,
            NumberKind::U32 | NumberKind::I32 | NumberKind::F32 => 4,
            NumberKind::U64 | NumberKind::I64 | NumberKind::F64 => 8,
        }
    }

    /// The bytes that a number of this kind takes.
    pub fn width(self) -> (w: usize)
        ensures
            w == self.spec_width(),
            1 <= w <= 8,
    {
        match self {
            NumberKind::U8 | NumberKind::I8 => 1,
            NumberKind::U16 | NumberKind::I16 => 2,
            NumberKind::U32 | NumberKind::I32 | NumberKind::F32 => 4,
            NumberKind::U64 | NumberKind::I64 | NumberKind::F64 => 8,
        }
    }

    /// The name of the kind, as Rust writes the type.
    pub open spec fn spec_name(self) -> Seq<char> {
        match self {
            NumberKind::U8 => "u8"@,
            NumberKind::U16 => "u16"@,
            NumberKind::U32 => "u32"@,
            NumberKind::U64 => "u64"@,
            NumberKind::I8 => "i8"@,
            NumberKind::I16 => "i16"@,
            NumberKind::I32 => "i32"@,
            NumberKind::I64 => "i64"@,
            NumberKind::F32 => "f32"@,
            NumberKind::F64 => "f64"@,
        }
    }

    /// The name of the kind, as Rust writes the type.
    pub fn name(self) -> (s: &'static str)
        ensures
            s@ == self.spec_name(),
    {
        match self {
            NumberKind::U8 => "u8",
            NumberKind::U16 => "u16",
            NumberKind::U32 => "u32",
            NumberKind::U64 => "u64",
            NumberKind::I8 => "i8",
            NumberKind::I16 => "i16",
            NumberKind::I32 => "i32",
            NumberKind::I64 => "i64",
            NumberKind::F32 => "f32",
            NumberKind::F64 => "f64",
        }
    }

    /// Whether the kind is a floating-point one.
    pub open spec fn spec_is_float(self) -> bool {
        self == NumberKind::F32 || self == NumberKind::F64
    }

    /// Whether the kind is a floating-point one.
    pub fn is_float(self) -> (r: bool)
        ensures
            r == self.spec_is_float(),
    {
        match self {
            NumberKind::F32 | NumberKind::F64 => true,
            _ => false,
        }
    }
}

impl Schema {
    /// The numeric kind of the schema, if it is one.
    pub open spec fn spec_number_kind(&self) -> Option<NumberKind> {
        match self {
            Schema::U8 => Some(NumberKind::U8),
            Schema::U16 => Some(NumberKind::U16),
            Schema::U32 => Some(NumberKind::U32),
            Schema::U64 => Some(NumberKind::U64),
            Schema::I8 => Some(NumberKind::I8),
            Schema::I16 => Some(NumberKind::I16),
            Schema::I32 => Some(NumberKind::I32),
            Schema::I64 => Some(NumberKind::I64),
            Schema::F32 => Some(NumberKind::F32),
            Schema::F64 => Some(NumberKind::F64),
            _ => None,
        }
    }

    /// The numeric kind of the schema, if it is one.
    pub fn number_kind(&self) -> (r: Option<NumberKind>)
        ensures
            r == self.spec_number_kind(),
            r matches Some(k) ==> self.spec_size() == k.spec_width(),
    {
        match self {
            Schema::U8 => Some(NumberKind::U8),
            Schema::U16 => Some(NumberKind::U16),
            Schema::U32 => Some(NumberKind::U32),
            Schema::U64 => Some(NumberKind::U64),
            Schema::I8 => Some(NumberKind::I8),
            Schema::I16 => Some(NumberKind::I16),
            Schema::I32 => Some(NumberKind::I32),
            Schema::I64 => Some(NumberKind::I64),
            Schema::F32 => Some(NumberKind::F32),
            Schema::F64 => Some(NumberKind::F64),
            _ => None,
        }
    }
}

/// The number of kind `kind` that `bytes` hold, least significant byte
/// first.
pub open spec fn number_of(kind: NumberKind, bytes: Seq<u8>) -> Number {
    match kind {
        NumberKind::U8 | NumberKind::U16 | NumberKind::U32 | NumberKind::U64 => Number::Unsigned(
            le_value(bytes) as u64,
        ),
        NumberKind::I8 | NumberKind::I16 | NumberKind::I32 | NumberKind::I64 => Number::Signed(
            le_signed_value(bytes) as i64,
        ),
        NumberKind::F32 => Number::Float32(le_value(bytes) as u32),
        NumberKind::F64 => Number::Float64(le_value(bytes) as u64),
    }
}

/// The decimal text of an integer; a floating-point number has none here.
pub open spec fn number_text(n: Number) -> Option<Seq<char>> {
    match n {
        Number::Unsigned(u) => Some(decimal(u as nat)),
        Number::Signed(i) => Some(signed_decimal(i as int)),
        Number::Float32(_) | Number::Float64(_) => None,
    }
}

/// The value of an integer; a floating-point number has none here.
pub open spec fn number_value(n: Number) -> Option<int> {
    match n {
        Number::Unsigned(u) => Some(u as int),
        Number::Signed(i) => Some(i as int),
        Number::Float32(_) | Number::Float64(_) => None,
    }
}

/// An integer field, read from its bytes and written in decimal, reads
/// back from the text to the value that the bytes hold: for every kind of
/// integer and all bytes of its width.
pub proof fn lemma_integer_field_round_trip(kind: NumberKind, bytes: Seq<u8>)
    requires
        !kind.spec_is_float(),
        bytes.len() == kind.spec_width(),
    ensures
        number_text(number_of(kind, bytes)) is Some,
        parse_signed_decimal(number_text(number_of(kind, bytes))->0) == number_value(
            number_of(kind, bytes),
        ),
        number_value(number_of(kind, bytes)) == Some(
            match kind {
                NumberKind::I8 | NumberKind::I16 | NumberKind::I32 | NumberKind::I64
                    => le_signed_value(bytes),
                _ => le_value(bytes) as int,
            },
        ),
{
    crate::num::lemma_le_value_bound(bytes);
    crate::num::lemma_pow256_values();
    match number_of(kind, bytes) {
        Number::Unsigned(u) => {
            crate::num::lemma_signed_decimal_round_trip(u as int);
        },
        Number::Signed(i) => {
            crate::num::lemma_signed_decimal_round_trip(i as int);
        },
        _ => {},
    }
}

/// The `i`-th number of kind `kind` in `bytes`.
pub open spec fn element_of(kind: NumberKind, bytes: Seq<u8>, i: int) -> Number {
    number_of(kind, bytes.subrange(i * kind.spec_width(), (i + 1) * kind.spec_width()))
}

/// The texts of the first `n` integers of kind `kind` in `bytes`, with a
/// comma and a space between two of them.
pub open spec fn joined_numbers(kind: NumberKind, bytes: Seq<u8>, n: nat) -> Seq<char>
    decreases n,
{
    if n == 0 {
        Seq::empty()
    } else if n == 1 {
        number_text(element_of(kind, bytes, 0)).unwrap()
    } else {
        joined_numbers(kind, bytes, (n - 1) as nat) + ", "@ + number_text(
            element_of(kind, bytes, n - 1),
        ).unwrap()
    }
}

/// The integers of kind `kind` that `bytes` hold, as a bracketed list.
pub open spec fn number_list_text(kind: NumberKind, bytes: Seq<u8>) -> Seq<char> {
    "["@ + joined_numbers(kind, bytes, bytes.len() / kind.spec_width()) + "]"@
}

/// The bits of the floating-point numbers of four bytes in `bytes`.
pub open spec fn float32_bits(bytes: Seq<u8>) -> Seq<u32> {
    Seq::new(bytes.len() / 4, |i: int| le_value(bytes.subrange(4 * i, 4 * i + 4)) as u32)
}

/// The bits of the floating-point numbers of eight bytes in `bytes`.
pub open spec fn float64_bits(bytes: Seq<u8>) -> Seq<u64> {
    Seq::new(bytes.len() / 8, |i: int| le_value(bytes.subrange(8 * i, 8 * i + 8)) as u64)
}

impl Number {
    /// Reads the number of kind `kind` that `bytes` hold.
    pub fn read(kind: NumberKind, bytes: &[u8]) -> (r: Number)
        requires
            bytes@.len() == kind.spec_width(),
        ensures
            r == number_of(kind, bytes@),
    {
        proof {
            crate::num::lemma_le_value_bound(bytes@);
            crate::num::lemma_pow256_values();
        }
        match kind {
            NumberKind::U8 | NumberKind::U16 | NumberKind::U32 | NumberKind::U64 => {
                Number::Unsigned(read_le(bytes))
            },
            NumberKind::I8 | NumberKind::I16 | NumberKind::I32 | NumberKind::I64 => {
                Number::Signed(read_le_signed(bytes))
            },
            NumberKind::F32 => Number::Float32(read_le(bytes) as u32),
            NumberKind::F64 => Number::Float64(read_le(bytes)),
        }
    }

    /// The decimal text of an integer; `None` for a floating-point number.
    pub fn text(&self) -> (r: Option<String>)
        ensures
            match number_text(*self) {
                Some(t) => r matches Some(s) && s@ == t,
                None => r is None,
            },
    {
        match self {
            Number::Unsigned(u) => Some(format_unsigned(*u)),
            Number::Signed(i) => Some(format_signed(*i)),
            Number::Float32(_) | Number::Float64(_) => None,
        }
    }
}

/// Writes the integers of kind `kind` that `bytes` hold as a bracketed
/// list: `[1, 2, 3]`.
pub fn number_list(kind: NumberKind, bytes: &[u8]) -> (s: String)
    requires
        !kind.spec_is_float(),
        bytes@.len() % kind.spec_width() == 0,
    ensures
        s@ == number_list_text(kind, bytes@),
{
    let w: usize = kind.width();
    let n: usize = bytes.len() / w;
    let mut s: String = String::from_str("[");
    let mut i: usize = 0;
    assert(n * w <= bytes@.len()) by (nonlinear_arith)
        requires
            n == bytes@.len() / w as nat,
            w > 0,
    ;
    while i < n
        invariant
            w == kind.spec_width(),
            bytes@.len() <= usize::MAX,
            !kind.spec_is_float(),
            n == bytes@.len() / w as nat,
            n * w <= bytes@.len(),
            i <= n,
            s@ == "["@ + joined_numbers(kind, bytes@, i as nat),
        decreases n - i,
    {
        assert((i + 1) * w <= n * w) by (nonlinear_arith)
            requires
                i < n,
        ;
        assert(i * w + w == (i + 1) * w) by (nonlinear_arith);
        let part: &[u8] = slice_subrange(bytes, i * w, i * w + w);
        let number: Number = Number::read(kind, part);
        let text: Option<String> = number.text();
        if i > 0 {
            s.append(", ");
        }
        match text {
            Some(t) => {
                s.append(t.as_str());
            },
            None => {},
        }
        assert(s@ =~= "["@ + joined_numbers(kind, bytes@, (i + 1) as nat));
        i = i + 1;
    }
    s.append("]");
    s
}

/// Reads the bits of the floating-point numbers of four bytes in `bytes`.
pub fn read_float32_bits(bytes: &[u8]) -> (r: Vec<u32>)
    requires
        bytes@.len() % 4 == 0,
    ensures
        r@ == float32_bits(bytes@),
{
    let n: usize = bytes.len() / 4;
    let mut out: Vec<u32> = Vec::new();
    let mut i: usize = 0;
    while i < n
        invariant
            bytes@.len() <= usize::MAX,
            n == bytes@.len() / 4,
            i <= n,
            out@.len() == i,
            forall|j: int| 0 <= j < i ==> out@[j] == float32_bits(bytes@)[j],
        decreases n - i,
    {
        let part: &[u8] = slice_subrange(bytes, 4 * i, 4 * i + 4);
        proof {
            crate::num::lemma_le_value_bound(part@);
            crate::num::lemma_pow256_values();
        }
        out.push(read_le(part) as u32);
        i = i + 1;
    }
    assert(out@ =~= float32_bits(bytes@));
    out
}

/// Reads the bits of the floating-point numbers of eight bytes in `bytes`.
pub fn read_float64_bits(bytes: &[u8]) -> (r: Vec<u64>)
    requires
        bytes@.len() % 8 == 0,
    ensures
        r@ == float64_bits(bytes@),
{
    let n: usize = bytes.len() / 8;
    let mut out: Vec<u64> = Vec::new();
    let mut i: usize = 0;
    while i < n
        invariant
            bytes@.len() <= usize::MAX,
            n == bytes@.len() / 8,
            i <= n,
            out@.len() == i,
            forall|j: int| 0 <= j < i ==> out@[j] == float64_bits(bytes@)[j],
        decreases n - i,
    {
        let part: &[u8] = slice_subrange(bytes, 8 * i, 8 * i + 8);
        out.push(read_le(part));
        i = i + 1;
    }
    assert(out@ =~= float64_bits(bytes@));
    out
}

} // verus!
