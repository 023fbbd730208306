//! The fields of a model, flattened for a table.
//!
//! Each immediate field of a store's model becomes a [`Field`]: its place
//! in a record, its title, and how its bytes are shown.

use crate::gene::{gene_field, gene_field_text, GENE_SIZE};
use crate::num::{decimal, format_unsigned};
use crate::number::{
    float32_bits, float64_bits, number_list, number_list_text, number_of, number_text,
    read_float32_bits, read_float64_bits, Number, NumberKind,
};
use crate::schema::{fields_size, lemma_fields_size_grows, Schema, SchemaModel};
use crate::text::{field_text, read_text};
use std::ops::Range;
use vstd::prelude::*;
use vstd::slice::slice_subrange;

verus! {

broadcast use {vstd::seq::axiom_seq_index_decreases, vstd::std_specs::vec::group_vec_axioms};

/// How the bytes of a field are shown.
#[derive(Debug, Clone, Copy, PartialEq, Eq, Structural)]
pub enum FieldShow {
    /// Nothing is shown: a nested model, a tuple, or an array of either.
    Nothing,
    /// One number, in decimal.
    Number(NumberKind),
    /// `true` or `false`.
    Bool,
    /// One gene.
    Gene,
    /// A list of genes, one row each.
    Genes,
    /// Text up to the first zero byte.
    Str,
    /// A list of numbers in brackets.
    Numbers(NumberKind),
}

/// What is to be drawn for a field.
#[derive(Debug, PartialEq, Eq)]
pub enum Shown {
    Nothing,
    /// A label.
    Text(String),
    /// The mark for a string that holds no text.
    Empty,
    /// A floating-point number of four bytes, by its bits.
    Float32(u32),
    /// A floating-point number of eight bytes, by its bits.
    Float64(u64),
    /// Rows of two labels each: the row's number and its text.
    Rows(Vec<(String, String)>),
    /// Floating-point numbers of four bytes, by their bits.
    Float32s(Vec<u32>),
    /// Floating-point numbers of eight bytes, by their bits.
    Float64s(Vec<u64>),
}

/// [`Shown`] with its texts as sequences of characters.
pub enum ShownView {
    Nothing,
    Text(Seq<char>),
    Empty,
    Float32(u32),
    Float64(u64),
    Rows(Seq<(Seq<char>, Seq<char>)>),
    Float32s(Seq<u32>),
    Float64s(Seq<u64>),
}

impl View for Shown {
    type V = ShownView;

    open spec fn view(&self) -> ShownView {
        match self {
            Shown::Nothing => ShownView::Nothing,
            Shown::Text(s) => ShownView::Text(s@),
            Shown::Empty => ShownView::Empty,
            Shown::Float32(b) => ShownView::Float32(*b),
            Shown::Float64(b) => ShownView::Float64(*b),
            Shown::Rows(rows) => ShownView::Rows(
                Seq::new(rows@.len(), |i: int| (rows@[i].0@, rows@[i].1@)),
            ),
            Shown::Float32s(bits) => ShownView::Float32s(bits@),
            Shown::Float64s(bits) => ShownView::Float64s(bits@),
        }
    }
}

/// The rows of a list of genes: the row's number with a colon, and the
/// gene, or three dashes where its bytes are all zero.
pub open spec fn gene_rows(bytes: Seq<u8>) -> Seq<(Seq<char>, Seq<char>)> {
    Seq::new(
        bytes.len() / 16,
        |i: int|
            (
                decimal(i as nat) + ":"@,
                gene_field_text(bytes.subrange(16 * i, 16 * i + 16), "---"@),
            ),
    )
}

impl FieldShow {
    /// Whether bytes of this length can be shown: a number, a boolean and
    /// a gene need their exact width, a list a multiple of its element's.
    pub open spec fn fits(self, len: nat) -> bool {
        match self {
            FieldShow::Nothing | FieldShow::Str => true,
            FieldShow::Number(kind) => len == kind.spec_width(),
            FieldShow::Bool => len == 1,
            FieldShow::Gene => len == 16,
            FieldShow::Genes => len % 16 == 0,
            FieldShow::Numbers(kind) => len % kind.spec_width() == 0,
        }
    }

    /// What is drawn for `bytes`.
    pub open spec fn shown(self, bytes: Seq<u8>) -> ShownView {
        match self {
            FieldShow::Nothing => ShownView::Nothing,
            FieldShow::Number(kind) => match number_of(kind, bytes) {
                Number::Float32(bits) => ShownView::Float32(bits),
                Number::Float64(bits) => ShownView::Float64(bits),
                integer => ShownView::Text(number_text(integer).unwrap()),
            },
            FieldShow::Bool => ShownView::Text(
                if bytes[0] != 0 {
                    "true"@
                } else {
                    "false"@
                },
            ),
            FieldShow::Gene => ShownView::Text(gene_field_text(bytes, "---"@)),
            FieldShow::Genes => ShownView::Rows(gene_rows(bytes)),
            FieldShow::Str => if field_text(bytes).len() == 0 {
                ShownView::Empty
            } else {
                ShownView::Text(field_text(bytes))
            },
            FieldShow::Numbers(kind) => match kind {
                NumberKind::F32 => ShownView::Float32s(float32_bits(bytes)),
                NumberKind::F64 => ShownView::Float64s(float64_bits(bytes)),
                _ => ShownView::Text(number_list_text(kind, bytes)),
            },
        }
    }

    /// Decodes `bytes` and says what is to be drawn for them.
    pub fn show(self, bytes: &[u8]) -> (r: Shown)
        requires
            self.fits(bytes@.len()),
        ensures
            r@ == self.shown(bytes@),
    {
        match self {
            FieldShow::Nothing => Shown::Nothing,
            FieldShow::Number(kind) => {
                let number: Number = Number::read(kind, bytes);
                match number {
                    Number::Float32(bits) => Shown::Float32(bits),
                    Number::Float64(bits) => Shown::Float64(bits),
                    Number::Unsigned(_) | Number::Signed(_) => {
                        match number.text() {
                            Some(s) => Shown::Text(s),
                            None => Shown::Nothing,
                        }
                    },
                }
            },
            FieldShow::Bool => {
                if bytes[0] != 0 {
                    Shown::Text(String::from_str("true"))
                } else {
                    Shown::Text(String::from_str("false"))
                }
            },
            FieldShow::Gene => Shown::Text(gene_field(bytes, "---")),
            FieldShow::Genes => {
                let rows: Vec<(String, String)> = show_genes(bytes);
                let r: Shown = Shown::Rows(rows);
                assert(r@->Rows_0 =~= gene_rows(bytes@));
                r
            },
            FieldShow::Str => {
                let s: String = read_text(bytes);
                if s.as_str().unicode_len() == 0 {
                    Shown::Empty
                } else {
                    Shown::Text(s)
                }
            },
            FieldShow::Numbers(kind) => match kind {
                NumberKind::F32 => Shown::Float32s(read_float32_bits(bytes)),
                NumberKind::F64 => Shown::Float64s(read_float64_bits(bytes)),
                _ => Shown::Text(number_list(kind, bytes)),
            },
        }
    }
}

/// The rows of a list of genes.
fn show_genes(bytes: &[u8]) -> (rows: Vec<(String, String)>)
    requires
        bytes@.len() % 16 == 0,
    ensures
        rows@.len() == gene_rows(bytes@).len(),
        forall|i: int|
            0 <= i < rows@.len() ==> (#[trigger] rows@[i]).0@ == gene_rows(bytes@)[i].0
                && rows@[i].1@ == gene_rows(bytes@)[i].1,
{
    let n: usize = bytes.len() / GENE_SIZE;
    let mut rows: Vec<(String, String)> = Vec::new();
    let mut i: usize = 0;
    while i < n
        invariant
            bytes@.len() <= usize::MAX,
            n == bytes@.len() / 16,
            i <= n,
            rows@.len() == i,
            forall|j: int|
                0 <= j < i ==> (#[trigger] rows@[j]).0@ == gene_rows(bytes@)[j].0 && rows@[j].1@
                    == gene_rows(bytes@)[j].1,
        decreases n - i,
    {
        let part: &[u8] = slice_subrange(bytes, GENE_SIZE * i, GENE_SIZE * i + GENE_SIZE);
        let mut label: String = format_unsigned(i as u64);
        label.append(":");
        rows.push((label, gene_field(part, "---")));
        i = i + 1;
    }
    rows
}

/// A string field of zero bytes is shown as the mark for an empty string.
pub proof fn lemma_zero_string_is_empty(bytes: Seq<u8>)
    requires
        crate::gene::all_zero(bytes),
    ensures
        FieldShow::Str.shown(bytes) == ShownView::Empty,
{
    crate::text::lemma_field_text_leading_zero(bytes);
}

/// A string field without a zero byte is read in full: what is shown is
/// the text of all its bytes.
pub proof fn lemma_unterminated_string_is_whole(bytes: Seq<u8>)
    requires
        forall|i: int| 0 <= i < bytes.len() ==> bytes[i] != 0,
    ensures
        crate::text::field_text(bytes) == crate::text::utf8_text(bytes),
        FieldShow::Str.shown(bytes) == (if crate::text::utf8_text(bytes).len() == 0 {
            ShownView::Empty
        } else {
            ShownView::Text(crate::text::utf8_text(bytes))
        }),
{
    crate::text::lemma_field_text_unterminated(bytes);
}

/// A gene field of zero bytes is shown as absent; one with any other byte
/// is shown with its four parts, read at their places.
pub proof fn lemma_gene_shown(bytes: Seq<u8>)
    requires
        bytes.len() == 16,
    ensures
        crate::gene::all_zero(bytes) ==> FieldShow::Gene.shown(bytes) == ShownView::Text("---"@),
        !crate::gene::all_zero(bytes) ==> FieldShow::Gene.shown(bytes) == ShownView::Text(
            crate::gene::gene_parts_text(
                crate::num::le_value(bytes.subrange(0, 8)),
                bytes[8] as nat,
                bytes[9] as nat,
                bytes[10] as nat,
                bytes[11] as nat,
                crate::num::le_value(bytes.subrange(12, 16)),
            ),
        ),
{
}

/// The kind of a field that holds one number or one boolean: rows can be
/// ordered by such a field.
#[derive(Debug, Clone, Copy, PartialEq, Eq, Structural)]
pub enum Scalar {
    Number(NumberKind),
    Bool,
}

/// The place of a four-byte floating-point number in the total order of
/// IEEE 754, from its bits: negative numbers below positive ones, and among
/// the negative the greater magnitude first.
pub open spec fn float32_key(bits: u32) -> int {
    if bits < 0x8000_0000 {
        bits as int
    } else {
        0x7fff_ffff - bits
    }
}

/// The same for a number of eight bytes.
pub open spec fn float64_key(bits: u64) -> int {
    if bits < 0x8000_0000_0000_0000 {
        bits as int
    } else {
        0x7fff_ffff_ffff_ffff - bits
    }
}

impl Scalar {
    /// The bytes that the value takes.
    pub open spec fn spec_width(self) -> nat {
        match self {
            Scalar::Number(kind) => kind.spec_width(),
            Scalar::Bool => 1,
        }
    }

    /// The key by which rows are ordered: the value of an integer, 0 or 1
    /// for a boolean, and for a floating-point number its place in the
    /// total order.
    pub open spec fn key(self, bytes: Seq<u8>) -> int {
        match self {
            Scalar::Number(kind) => match number_of(kind, bytes) {
                Number::Unsigned(u) => u as int,
                Number::Signed(i) => i as int,
                Number::Float32(bits) => float32_key(bits),
                Number::Float64(bits) => float64_key(bits),
            },
            Scalar::Bool => if bytes[0] != 0 {
                1
            } else {
                0
            },
        }
    }

    /// Reads the key by which rows are ordered.
    pub fn sort_key(self, bytes: &[u8]) -> (k: i128)
        requires
            bytes@.len() == self.spec_width(),
        ensures
            k == self.key(bytes@),
    {
        match self {
            Scalar::Number(kind) => match Number::read(kind, bytes) {
                Number::Unsigned(u) => u as i128,
                Number::Signed(i) => i as i128,
                Number::Float32(bits) => {
                    if bits < 0x8000_0000 {
                        bits as i128
                    } else {
                        0x7fff_ffff - bits as i128
                    }
                },
                Number::Float64(bits) => {
                    if bits < 0x8000_0000_0000_0000 {
                        bits as i128
                    } else {
                        0x7fff_ffff_ffff_ffff - bits as i128
                    }
                },
            },
            Scalar::Bool => if bytes[0] != 0 {
                1
            } else {
                0
            },
        }
    }
}

/// One immediate field of a model, as a table shows it.
#[derive(Debug)]
pub struct Field {
    /// The field's place among the model's fields.
    pub idx: usize,
    /// The field's bytes in a record.
    pub range: Range<usize>,
    /// How the bytes are shown.
    pub show: FieldShow,
    /// Whether the table shows the field in a cell.
    pub show_array: bool,
    /// The field's name, a colon and its type.
    pub name: String,
    /// Whether the user has the field's column switched on.
    pub visible: bool,
    /// Present where rows can be ordered by the field.
    pub number_sort: Option<Scalar>,
    /// Present where the field's values can be summed up here: an integer
    /// or a boolean.
    pub number_stats: Option<Scalar>,
}

/// The type names of the first `n` of `items`, with a comma and a space
/// between two of them.
pub open spec fn joined_types(items: Seq<Schema>, n: nat) -> Seq<char>
    decreases items, n,
{
    if n == 0 || n > items.len() {
        Seq::empty()
    } else if n == 1 {
        Field::spec_ty(items[0])
    } else {
        joined_types(items, (n - 1) as nat) + ", "@ + Field::spec_ty(items[n - 1])
    }
}

impl Field {
    /// The type of a schema as a reader of Rust expects it: the name of a
    /// number's type, `bool`, `Gene`, `<Name />` for a model, `str` for a
    /// string, which is an array of bytes with `is_str` set, `[T; N]` for
    /// any other array, `(A, B)` for a tuple.
    pub open spec fn spec_ty(schema: Schema) -> Seq<char>
        decreases schema,
    {
        match schema {
            Schema::Model(m) => "<"@ + m.name@ + " />"@,
            Schema::Array { is_str, length, kind } => if is_str && *kind is U8 {
                "str"@
            } else {
                "["@ + Field::spec_ty(*kind) + "; "@ + decimal(length as nat) + "]"@
            },
            Schema::Tuple(items) => "("@ + joined_types(items@, items@.len()) + ")"@,
            Schema::Bool => "bool"@,
            Schema::Gene => "Gene"@,
            number => number.spec_number_kind().unwrap().spec_name(),
        }
    }

    /// Writes the type of a schema.
    pub fn get_ty(schema: &Schema) -> (s: String)
        ensures
            s@ == Field::spec_ty(*schema),
        decreases schema,
    {
        match schema {
            Schema::Model(m) => {
                let mut s: String = String::from_str("<");
                s.append(m.name.as_str());
                s.append(" />");
                s
            },
            Schema::Array { is_str, length, kind } => {
                let string: bool = match &**kind {
                    Schema::U8 => *is_str,
                    _ => false,
                };
                if string {
                    return String::from_str("str");
                }
                let mut s: String = String::from_str("[");
                s.append(Field::get_ty(kind).as_str());
                s.append("; ");
                s.append(format_unsigned(*length).as_str());
                s.append("]");
                s
            },
            Schema::Tuple(items) => {
                let n: usize = items.len();
                let mut s: String = String::from_str("(");
                let mut i: usize = 0;
                while i < n
                    invariant
                        n == items@.len(),
                        i <= n,
                        s@ == "("@ + joined_types(items@, i as nat),
                        decreases_to!(*schema => items@),
                    decreases n - i,
                {
                    if i > 0 {
                        s.append(", ");
                    }
                    s.append(Field::get_ty(&items[i]).as_str());
                    assert(s@ =~= "("@ + joined_types(items@, (i + 1) as nat));
                    i = i + 1;
                }
                s.append(")");
                s
            },
            Schema::Bool => String::from_str("bool"),
            Schema::Gene => String::from_str("Gene"),
            _ => {
                match schema.number_kind() {
                    Some(kind) => String::from_str(kind.name()),
                    None => String::new(),
                }
            },
        }
    }

    /// How a schema is shown, and whether the table shows it in a cell.
    pub open spec fn spec_show(schema: Schema) -> (FieldShow, bool) {
        match schema {
            Schema::Bool => (FieldShow::Bool, true),
            Schema::Gene => (FieldShow::Gene, true),
            Schema::Array { is_str, kind, .. } => if *kind is Gene {
                (FieldShow::Genes, false)
            } else if *kind is U8 && is_str {
                (FieldShow::Str, true)
            } else {
                match kind.spec_number_kind() {
                    Some(k) => (FieldShow::Numbers(k), true),
                    None => (FieldShow::Nothing, true),
                }
            },
            Schema::Model(_) | Schema::Tuple(_) => (FieldShow::Nothing, true),
            number => (FieldShow::Number(number.spec_number_kind().unwrap()), true),
        }
    }

    /// Picks how a schema is shown.
    pub fn get_show(schema: &Schema) -> (r: (FieldShow, bool))
        ensures
            r == Field::spec_show(*schema),
    {
        match schema {
            Schema::Bool => (FieldShow::Bool, true),
            Schema::Gene => (FieldShow::Gene, true),
            Schema::Array { is_str, kind, .. } => {
                match &**kind {
                    Schema::Gene => (FieldShow::Genes, false),
                    Schema::U8 => if *is_str {
                        (FieldShow::Str, true)
                    } else {
                        (FieldShow::Numbers(NumberKind::U8), true)
                    },
                    other => match other.number_kind() {
                        Some(k) => (FieldShow::Numbers(k), true),
                        None => (FieldShow::Nothing, true),
                    },
                }
            },
            Schema::Model(_) | Schema::Tuple(_) => (FieldShow::Nothing, true),
            _ => match schema.number_kind() {
                Some(k) => (FieldShow::Number(k), true),
                None => (FieldShow::Nothing, true),
            },
        }
    }

    /// The kind by which rows can be ordered: present for one number or
    /// one boolean.
    pub open spec fn spec_number_sort(schema: Schema) -> Option<Scalar> {
        match schema {
            Schema::Bool => Some(Scalar::Bool),
            other => match other.spec_number_kind() {
                Some(k) => Some(Scalar::Number(k)),
                None => None,
            },
        }
    }

    /// The kind by which rows can be ordered, if there is one.
    pub fn get_number_sort(schema: &Schema) -> (r: Option<Scalar>)
        ensures
            r == Field::spec_number_sort(*schema),
    {
        match schema {
            Schema::Bool => Some(Scalar::Bool),
            _ => match schema.number_kind() {
                Some(k) => Some(Scalar::Number(k)),
                None => None,
            },
        }
    }

    /// The kind whose values can be summed up: present for one integer or
    /// one boolean.
    pub open spec fn spec_number_stats(schema: Schema) -> Option<Scalar> {
        match Field::spec_number_sort(schema) {
            Some(Scalar::Number(k)) => if k.spec_is_float() {
                None
            } else {
                Some(Scalar::Number(k))
            },
            other => other,
        }
    }

    /// The kind whose values can be summed up, if there is one.
    pub fn get_number_stats(schema: &Schema) -> (r: Option<Scalar>)
        ensures
            r == Field::spec_number_stats(*schema),
    {
        match Field::get_number_sort(schema) {
            Some(Scalar::Number(k)) => if k.is_float() {
                None
            } else {
                Some(Scalar::Number(k))
            },
            other => other,
        }
    }

    /// The field is the `i`-th of `model`: it lies behind the fields before
    /// it, is as long as its schema says, is titled with its name and type,
    /// and is shown as its schema asks.
    pub open spec fn projects(&self, model: SchemaModel, i: int) -> bool {
        let schema = model.fields@[i].1;
        &&& self.idx == i
        &&& self.range.start == fields_size(model.fields@, i as nat)
        &&& self.range.end == fields_size(model.fields@, (i + 1) as nat)
        &&& self.name@ == model.fields@[i].0@ + ": "@ + Field::spec_ty(schema)
        &&& (self.show, self.show_array) == Field::spec_show(schema)
        &&& self.number_sort == Field::spec_number_sort(schema)
        &&& self.number_stats == Field::spec_number_stats(schema)
    }
}

/// `fields` are the fields of `model`, in its order.
pub open spec fn projection(fields: Seq<Field>, model: SchemaModel) -> bool {
    &&& fields.len() == model.fields@.len()
    &&& forall|i: int| 0 <= i < fields.len() ==> (#[trigger] fields[i]).projects(model, i)
}

/// Lays the fields of `model` out one after the other, all switched on.
/// `None` where the model is larger than a `usize` can say.
pub fn project(model: &SchemaModel) -> (r: Option<Vec<Field>>)
    ensures
        match r {
            Some(fields) => projection(fields@, *model) && forall|i: int|
                0 <= i < fields@.len() ==> (#[trigger] fields@[i]).visible,
            None => fields_size(model.fields@, model.fields@.len()) > usize::MAX,
        },
{
    let n: usize = model.fields.len();
    let mut fields: Vec<Field> = Vec::with_capacity(n);
    let mut at: usize = 0;
    let mut i: usize = 0;
    while i < n
        invariant
            n == model.fields@.len(),
            i <= n,
            fields@.len() == i,
            at == fields_size(model.fields@, i as nat),
            forall|j: int| 0 <= j < i ==> (#[trigger] fields@[j]).projects(*model, j),
            forall|j: int| 0 <= j < i ==> (#[trigger] fields@[j]).visible,
        decreases n - i,
    {
        proof {
            lemma_fields_size_grows(model.fields@, (i + 1) as nat, n as nat);
        }
        let schema: &Schema = &model.fields[i].1;
        let end: Option<usize> = match schema.size() {
            Some(s) => at.checked_add(s),
            None => None,
        };
        let end: usize = match end {
            Some(e) => e,
            None => {
                return None;
            },
        };
        let (show, show_array): (FieldShow, bool) = Field::get_show(schema);
        let mut name: String = model.fields[i].0.clone();
        name.append(": ");
        name.append(Field::get_ty(schema).as_str());
        fields.push(
            Field {
                idx: i,
                range: at..end,
                show,
                show_array,
                name,
                visible: true,
                number_sort: Field::get_number_sort(schema),
                number_stats: Field::get_number_stats(schema),
            },
        );
        at = end;
        i = i + 1;
    }
    Some(fields)
}

/// The bytes of a laid-out field can be shown as the field asks.
pub proof fn lemma_projected_field_fits(field: Field, model: SchemaModel, i: int)
    requires
        0 <= i < model.fields@.len(),
        field.projects(model, i),
    ensures
        field.range.start <= field.range.end,
        field.show.fits((field.range.end - field.range.start) as nat),
        field.number_sort matches Some(scalar) ==> scalar.spec_width() == field.range.end
            - field.range.start,
{
    let schema = model.fields@[i].1;
    assert(field.range.end - field.range.start == schema.spec_size());
    match schema {
        Schema::Array { length, kind, .. } => {
            assert(schema.spec_size() == length as nat * kind.spec_size());
            if *kind is Gene {
                assert((length as nat * 16) % 16 == 0);
            } else if kind.spec_number_kind() is Some {
                let w = kind.spec_number_kind().unwrap().spec_width();
                assert(kind.spec_size() == w);
                assert((length as nat * w) % w == 0) by (nonlinear_arith)
                    requires
                        w > 0,
                ;
            }
        },
        _ => {},
    }
}

} // verus!
