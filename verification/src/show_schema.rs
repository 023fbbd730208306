//! The detail view: a value of any schema, drawn part by part.
//!
//! The view is a list of [`Draw`] commands. A model is a section that can
//! be folded, its fields inside it; an array and a tuple stand between
//! brackets; a number, a boolean or a gene is one label.

use crate::field::Field;
use crate::gene::{gene_field, gene_field_text, GENE_SIZE};
use crate::num::{decimal, format_unsigned};
use crate::number::{
    float32_bits, float64_bits, number_list, number_list_text, number_of, number_text,
    read_float32_bits, read_float64_bits, Number, NumberKind,
};
use crate::schema::{
    fields_size, items_size, lemma_fields_size_grows, lemma_items_size_grows, Schema, SchemaModel,
};
use crate::text::{field_text, read_text};
use vstd::prelude::*;
use vstd::slice::slice_subrange;

verus! {

broadcast use {vstd::seq::axiom_seq_index_decreases, vstd::std_specs::vec::group_vec_axioms};

/// The text of a value without parts. A floating-point number is given by
/// its bits.
#[derive(Debug, PartialEq, Eq)]
pub enum Leaf {
    Text(String),
    Float32(u32),
    Float64(u64),
}

/// [`Leaf`] with its text as a sequence of characters.
pub enum LeafView {
    Text(Seq<char>),
    Float32(u32),
    Float64(u64),
}

impl View for Leaf {
    type V = LeafView;

    open spec fn view(&self) -> LeafView {
        match self {
            Leaf::Text(s) => LeafView::Text(s@),
            Leaf::Float32(b) => LeafView::Float32(*b),
            Leaf::Float64(b) => LeafView::Float64(*b),
        }
    }
}

/// One step of drawing the detail view.
#[derive(Debug, PartialEq, Eq)]
#[allow(inconsistent_fields)]
pub enum Draw {
    /// A label.
    Label(String),
    /// A label that ends in a floating-point number of four bytes.
    Float32 { prefix: String, bits: u32 },
    /// A label that ends in a floating-point number of eight bytes.
    Float64 { prefix: String, bits: u64 },
    /// A string: its label, if it has one, and its text. A string without
    /// text is drawn as the mark for an empty one.
    Str { label: Option<String>, text: String },
    /// A label that ends in a list of floating-point numbers of four bytes.
    Float32s { prefix: String, bits: Vec<u32> },
    /// A label that ends in a list of floating-point numbers of eight
    /// bytes.
    Float64s { prefix: String, bits: Vec<u64> },
    /// The head of a section that can be folded. `idx` and `depth` tell
    /// sections of one title apart; `open` says whether it starts unfolded.
    Open { title: String, idx: u64, depth: usize, open: bool },
    /// The end of the last section opened.
    Close,
}

/// [`Draw`] with its texts as sequences of characters.
#[allow(inconsistent_fields)]
pub enum DrawView {
    Label(Seq<char>),
    Float32 { prefix: Seq<char>, bits: u32 },
    Float64 { prefix: Seq<char>, bits: u64 },
    Str { label: Option<Seq<char>>, text: Seq<char> },
    Float32s { prefix: Seq<char>, bits: Seq<u32> },
    Float64s { prefix: Seq<char>, bits: Seq<u64> },
    Open { title: Seq<char>, idx: u64, depth: usize, open: bool },
    Close,
}

impl View for Draw {
    type V = DrawView;

    open spec fn view(&self) -> DrawView {
        match self {
            Draw::Label(s) => DrawView::Label(s@),
            Draw::Float32 { prefix, bits } => DrawView::Float32 { prefix: prefix@, bits: *bits },
            Draw::Float64 { prefix, bits } => DrawView::Float64 { prefix: prefix@, bits: *bits },
            Draw::Str { label, text } => DrawView::Str {
                label: match label {
                    Some(l) => Some(l@),
                    None => None,
                },
                text: text@,
            },
            Draw::Float32s { prefix, bits } => DrawView::Float32s { prefix: prefix@, bits: bits@ },
            Draw::Float64s { prefix, bits } => DrawView::Float64s { prefix: prefix@, bits: bits@ },
            Draw::Open { title, idx, depth, open } => DrawView::Open {
                title: title@,
                idx: *idx,
                depth: *depth,
                open: *open,
            },
            Draw::Close => DrawView::Close,
        }
    }
}

/// The views of a list of commands.
pub open spec fn views(draws: Seq<Draw>) -> Seq<DrawView> {
    Seq::new(draws.len(), |i: int| draws[i]@)
}

/// The schema has no parts: a number, a boolean or a gene.
pub open spec fn is_leaf(schema: Schema) -> bool {
    schema.spec_number_kind() is Some || schema is Bool || schema is Gene
}

/// The text of a value without parts: a number in decimal, `true` or
/// `false`, a gene's four parts, or `Gene(---)` for a gene of zero bytes.
pub open spec fn leaf_text(schema: Schema, v: Seq<u8>) -> LeafView {
    match schema {
        Schema::Bool => LeafView::Text(
            if v[0] != 0 {
                "true"@
            } else {
                "false"@
            },
        ),
        Schema::Gene => LeafView::Text(gene_field_text(v, "Gene(---)"@)),
        number => match number_of(number.spec_number_kind().unwrap(), v) {
            Number::Float32(bits) => LeafView::Float32(bits),
            Number::Float64(bits) => LeafView::Float64(bits),
            integer => LeafView::Text(number_text(integer).unwrap()),
        },
    }
}

/// Writes a value without parts.
pub fn string_schema_value(schema: &Schema, v: &[u8]) -> (r: Leaf)
    requires
        is_leaf(*schema),
        v@.len() == schema.spec_size(),
    ensures
        r@ == leaf_text(*schema, v@),
{
    match schema {
        Schema::Bool => {
            if v[0] != 0 {
                Leaf::Text(String::from_str("true"))
            } else {
                Leaf::Text(String::from_str("false"))
            }
        },
        Schema::Gene => Leaf::Text(gene_field(v, "Gene(---)")),
        _ => {
            let kind: NumberKind = schema.number_kind().unwrap();
            let number: Number = Number::read(kind, v);
            match number {
                Number::Float32(bits) => Leaf::Float32(bits),
                Number::Float64(bits) => Leaf::Float64(bits),
                Number::Unsigned(_) | Number::Signed(_) => match number.text() {
                    Some(s) => Leaf::Text(s),
                    None => Leaf::Text(String::new()),
                },
            }
        },
    }
}

/// What stands before a value: its label, a colon and a space, or nothing
/// where it has no label.
pub open spec fn lead(label: Option<Seq<char>>) -> Seq<char> {
    match label {
        Some(l) => l + ": "@,
        None => Seq::empty(),
    }
}

/// The one command that draws a value without parts behind its label.
pub open spec fn leaf_line(schema: Schema, v: Seq<u8>, label: Option<Seq<char>>) -> DrawView {
    match leaf_text(schema, v) {
        LeafView::Text(t) => DrawView::Label(lead(label) + t),
        LeafView::Float32(bits) => DrawView::Float32 { prefix: lead(label), bits },
        LeafView::Float64(bits) => DrawView::Float64 { prefix: lead(label), bits },
    }
}

/// The depth of what lies inside a value drawn at `depth`.
pub open spec fn deeper(depth: usize) -> usize {
    if depth == usize::MAX {
        depth
    } else {
        (depth + 1) as usize
    }
}

/// The label of a list of numbers: what stands before it, the type of the
/// array, and a colon.
pub open spec fn numbers_lead(label: Option<Seq<char>>, kind: NumberKind, count: nat) -> Seq<char> {
    (match label {
        Some(l) => l,
        None => Seq::empty(),
    }) + ": ["@ + kind.spec_name() + "; "@ + decimal(count) + "]: "@
}

/// The commands for the first `n` fields of a model whose bytes are `v`.
pub open spec fn draw_fields(fields: Seq<(String, Schema)>, v: Seq<u8>, depth: usize, n: nat) -> Seq<
    DrawView,
>
    decreases fields, n,
{
    if n == 0 || n > fields.len() {
        Seq::empty()
    } else {
        let kind = fields[n - 1].1;
        let part = v.subrange(
            fields_size(fields, (n - 1) as nat) as int,
            fields_size(fields, n) as int,
        );
        draw_fields(fields, v, depth, (n - 1) as nat) + (if is_leaf(kind) {
            seq![leaf_line(kind, part, Some(fields[n - 1].0@))]
        } else {
            drawing(kind, part, Some(fields[n - 1].0@), 0, deeper(depth))
        })
    }
}

/// The commands for the first `n` elements of an array whose bytes are
/// `v`.
pub open spec fn draw_elements(kind: Schema, v: Seq<u8>, depth: usize, n: nat) -> Seq<DrawView>
    decreases kind, n,
{
    if n == 0 {
        Seq::empty()
    } else {
        draw_elements(kind, v, depth, (n - 1) as nat) + drawing(
            kind,
            v.subrange((n - 1) * kind.spec_size(), (n * kind.spec_size()) as int),
            None,
            (n - 1) as u64,
            deeper(depth),
        )
    }
}

/// The commands for the first `n` items of a tuple whose bytes are `v`.
pub open spec fn draw_items(items: Seq<Schema>, v: Seq<u8>, depth: usize, n: nat) -> Seq<DrawView>
    decreases items, n,
{
    if n == 0 || n > items.len() {
        Seq::empty()
    } else {
        draw_items(items, v, depth, (n - 1) as nat) + drawing(
            items[n - 1],
            v.subrange(items_size(items, (n - 1) as nat) as int, items_size(items, n) as int),
            None,
            (n - 1) as u64,
            deeper(depth),
        )
    }
}

/// The commands that draw the value `v` of schema `schema`.
///
/// A model is its label, if it has one, and a section titled with the
/// model's name, unfolded at depth 0 only, that holds the fields: a field
/// without parts as one label, any other drawn in turn, one level deeper.
/// A string is its text. An array of numbers is one label with the type,
/// the count and the list. Any other array, and a tuple, is an opening
/// bracket behind the label, the elements one level deeper, each with its
/// place as `idx`, and the closing bracket. A value without parts is one
/// label.
pub open spec fn drawing(
    schema: Schema,
    v: Seq<u8>,
    label: Option<Seq<char>>,
    idx: u64,
    depth: usize,
) -> Seq<DrawView>
    decreases schema, 0nat,
{
    match schema {
        Schema::Model(m) => (match label {
            Some(l) => seq![DrawView::Label(l)],
            None => Seq::empty(),
        }) + seq![
            DrawView::Open { title: "<"@ + m.name@ + " />"@, idx, depth, open: depth == 0 },
        ] + draw_fields(m.fields@, v, depth, m.fields@.len()) + seq![DrawView::Close],
        Schema::Array { is_str, length, kind } => if *kind is U8 && is_str {
            seq![DrawView::Str { label, text: field_text(v) }]
        } else {
            match kind.spec_number_kind() {
                Some(NumberKind::F32) => seq![
                    DrawView::Float32s {
                        prefix: numbers_lead(label, NumberKind::F32, v.len() / 4),
                        bits: float32_bits(v),
                    },
                ],
                Some(NumberKind::F64) => seq![
                    DrawView::Float64s {
                        prefix: numbers_lead(label, NumberKind::F64, v.len() / 8),
                        bits: float64_bits(v),
                    },
                ],
                Some(k) => seq![
                    DrawView::Label(
                        numbers_lead(label, k, v.len() / k.spec_width()) + number_list_text(k, v),
                    ),
                ],
                None => seq![DrawView::Label(lead(label) + "["@)] + draw_elements(
                    *kind,
                    v,
                    depth,
                    length as nat,
                ) + seq![DrawView::Label("]"@)],
            }
        },
        Schema::Tuple(items) => seq![DrawView::Label(lead(label) + "("@)] + draw_items(
            items@,
            v,
            depth,
            items@.len(),
        ) + seq![DrawView::Label(")"@)],
        leaf => seq![leaf_line(leaf, v, label)],
    }
}

/// The text of a label, if there is one.
pub open spec fn label_text(label: Option<&str>) -> Option<Seq<char>> {
    match label {
        Some(l) => Some(l@),
        None => None,
    }
}

/// Writes what stands before a value.
fn lead_string(label: Option<&str>) -> (s: String)
    ensures
        s@ == lead(label_text(label)),
{
    match label {
        Some(l) => {
            let mut s: String = String::from_str(l);
            s.append(": ");
            s
        },
        None => String::new(),
    }
}

/// The command that draws a value without parts behind its label.
fn leaf_draw(schema: &Schema, v: &[u8], label: Option<&str>) -> (r: Draw)
    requires
        is_leaf(*schema),
        v@.len() == schema.spec_size(),
    ensures
        r@ == leaf_line(*schema, v@, label_text(label)),
{
    let mut prefix: String = lead_string(label);
    match string_schema_value(schema, v) {
        Leaf::Text(t) => {
            prefix.append(t.as_str());
            Draw::Label(prefix)
        },
        Leaf::Float32(bits) => Draw::Float32 { prefix, bits },
        Leaf::Float64(bits) => Draw::Float64 { prefix, bits },
    }
}

/// Writes the label of a list of numbers.
fn numbers_lead_string(label: Option<&str>, kind: NumberKind, count: usize) -> (s: String)
    ensures
        s@ == numbers_lead(label_text(label), kind, count as nat),
{
    let mut s: String = match label {
        Some(l) => String::from_str(l),
        None => String::new(),
    };
    s.append(": [");
    s.append(kind.name());
    s.append("; ");
    s.append(format_unsigned(count as u64).as_str());
    s.append("]: ");
    assert(s@ =~= numbers_lead(label_text(label), kind, count as nat));
    s
}

/// Tells whether a schema has no parts.
fn leaf(schema: &Schema) -> (r: bool)
    ensures
        r == is_leaf(*schema),
{
    match schema {
        Schema::Bool | Schema::Gene => true,
        _ => schema.number_kind().is_some(),
    }
}

/// Adds `more` behind `out`.
fn extend(out: &mut Vec<Draw>, more: Vec<Draw>)
    ensures
        views(final(out)@) == views(old(out)@) + views(more@),
{
    let mut more: Vec<Draw> = more;
    let ghost a = out@;
    let ghost b = more@;
    out.append(&mut more);
    assert(views(out@) =~= views(a) + views(b));
}

/// Adds `one` behind `out`.
fn put(out: &mut Vec<Draw>, one: Draw)
    ensures
        views(final(out)@) == views(old(out)@).push(one@),
{
    let ghost a = out@;
    out.push(one);
    assert(views(out@) =~= views(a).push(one@));
}

/// Draws the value `v` of the model `m`: its label, if it has one, and a
/// section that holds the fields. See [`drawing`].
pub fn show_model_value(
    m: &SchemaModel,
    v: &[u8],
    label: Option<&str>,
    idx: u64,
    depth: usize,
) -> (r: Vec<Draw>)
    requires
        v@.len() == fields_size(m.fields@, m.fields@.len()),
    ensures
        views(r@) == drawing(Schema::Model(*m), v@, label_text(label), idx, depth),
    decreases m,
{
    let inner: usize = if depth == usize::MAX {
        depth
    } else {
        depth + 1
    };
    let len: usize = v.len();
    let mut out: Vec<Draw> = Vec::new();
    assert(views(out@) =~= Seq::<DrawView>::empty());
    match label {
        Some(l) => {
            put(&mut out, Draw::Label(String::from_str(l)));
        },
        None => {},
    }
    let mut title: String = String::from_str("<");
    title.append(m.name.as_str());
    title.append(" />");
    put(&mut out, Draw::Open { title, idx, depth, open: depth == 0 });
    let ghost head = views(out@);
    let n: usize = m.fields.len();
    let mut at: usize = 0;
    let mut i: usize = 0;
    while i < n
        invariant
            n == m.fields@.len(),
            i <= n,
            len == v@.len(),
            v@.len() == fields_size(m.fields@, n as nat),
            at == fields_size(m.fields@, i as nat),
            inner == deeper(depth),
            decreases_to!(*m => m.fields@),
            views(out@) == head + draw_fields(m.fields@, v@, depth, i as nat),
        decreases n - i,
    {
        proof {
            lemma_fields_size_grows(m.fields@, (i + 1) as nat, n as nat);
        }
        let kind: &Schema = &m.fields[i].1;
        let name: &str = m.fields[i].0.as_str();
        let size: usize = kind.size().unwrap();
        let part: &[u8] = slice_subrange(v, at, at + size);
        if leaf(kind) {
            put(&mut out, leaf_draw(kind, part, Some(name)));
        } else {
            extend(&mut out, show_schema_value(kind, part, Some(name), 0, inner));
        }
        assert(views(out@) =~= head + draw_fields(m.fields@, v@, depth, (i + 1) as nat));
        at = at + size;
        i = i + 1;
    }
    put(&mut out, Draw::Close);
    assert(views(out@) =~= drawing(Schema::Model(*m), v@, label_text(label), idx, depth));
    out
}

/// Draws the value `v` of schema `schema`: see [`drawing`]. `label` is the
/// name of the field that holds the value, `idx` its place in an array or
/// a tuple, and `depth` the number of sections around it.
pub fn show_schema_value(
    schema: &Schema,
    v: &[u8],
    label: Option<&str>,
    idx: u64,
    depth: usize,
) -> (r: Vec<Draw>)
    requires
        v@.len() == schema.spec_size(),
    ensures
        views(r@) == drawing(*schema, v@, label_text(label), idx, depth),
    decreases schema,
{
    let inner: usize = if depth == usize::MAX {
        depth
    } else {
        depth + 1
    };
    let len: usize = v.len();
    let mut out: Vec<Draw> = Vec::new();
    assert(views(out@) =~= Seq::<DrawView>::empty());
    match schema {
        Schema::Model(m) => {
            return show_model_value(m, v, label, idx, depth);
        },
        Schema::Array { is_str, length, kind } => {
            let string: bool = match &**kind {
                Schema::U8 => *is_str,
                _ => false,
            };
            if string {
                let owned: Option<String> = match label {
                    Some(l) => Some(String::from_str(l)),
                    None => None,
                };
                put(&mut out, Draw::Str { label: owned, text: read_text(v) });
                assert(views(out@) =~= drawing(*schema, v@, label_text(label), idx, depth));
                return out;
            }
            match kind.number_kind() {
                Some(k) => {
                    let w: usize = k.width();
                    assert((*length as nat * k.spec_width()) % k.spec_width() == 0)
                        by (nonlinear_arith)
                        requires
                            k.spec_width() > 0,
                    ;
                    let lead: String = numbers_lead_string(label, k, len / w);
                    match k {
                        NumberKind::F32 => {
                            put(
                                &mut out,
                                Draw::Float32s { prefix: lead, bits: read_float32_bits(v) },
                            );
                        },
                        NumberKind::F64 => {
                            put(
                                &mut out,
                                Draw::Float64s { prefix: lead, bits: read_float64_bits(v) },
                            );
                        },
                        _ => {
                            let mut text: String = lead;
                            text.append(number_list(k, v).as_str());
                            put(&mut out, Draw::Label(text));
                        },
                    }
                    assert(views(out@) =~= drawing(*schema, v@, label_text(label), idx, depth));
                },
                None => {
                    let mut open: String = lead_string(label);
                    open.append("[");
                    put(&mut out, Draw::Label(open));
                    let ghost head = views(out@);
                    let ghost step = kind.spec_size();
                    let mut at: usize = 0;
                    let mut i: u64 = 0;
                    while i < *length
                        invariant
                            i <= *length,
                            len == v@.len(),
                            step == kind.spec_size(),
                            v@.len() == *length as nat * step,
                            at == i as nat * step,
                            inner == deeper(depth),
                            decreases_to!(*schema => **kind),
                            views(out@) == head + draw_elements(**kind, v@, depth, i as nat),
                        decreases *length - i,
                    {
                        proof {
                            assert((i + 1) * step <= *length as nat * step) by (nonlinear_arith)
                                requires
                                    i < *length,
                            ;
                            assert((i + 1) * step == i * step + step) by (nonlinear_arith);
                        }
                        let size: usize = kind.size().unwrap();
                        let part: &[u8] = slice_subrange(v, at, at + size);
                        extend(&mut out, show_schema_value(kind, part, None, i, inner));
                        assert(views(out@) =~= head + draw_elements(
                            **kind,
                            v@,
                            depth,
                            (i + 1) as nat,
                        ));
                        at = at + size;
                        i = i + 1;
                    }
                    put(&mut out, Draw::Label(String::from_str("]")));
                    assert(views(out@) =~= drawing(*schema, v@, label_text(label), idx, depth));
                },
            }
        },
        Schema::Tuple(items) => {
            let mut open: String = lead_string(label);
            open.append("(");
            put(&mut out, Draw::Label(open));
            let ghost head = views(out@);
            let n: usize = items.len();
            let mut at: usize = 0;
            let mut i: usize = 0;
            while i < n
                invariant
                    n == items@.len(),
                    i <= n,
                    len == v@.len(),
                    v@.len() == items_size(items@, n as nat),
                    at == items_size(items@, i as nat),
                    inner == deeper(depth),
                    decreases_to!(*schema => items@),
                    views(out@) == head + draw_items(items@, v@, depth, i as nat),
                decreases n - i,
            {
                proof {
                    lemma_items_size_grows(items@, (i + 1) as nat, n as nat);
                }
                let kind: &Schema = &items[i];
                let size: usize = kind.size().unwrap();
                let part: &[u8] = slice_subrange(v, at, at + size);
                extend(&mut out, show_schema_value(kind, part, None, i as u64, inner));
                assert(views(out@) =~= head + draw_items(items@, v@, depth, (i + 1) as nat));
                at = at + size;
                i = i + 1;
            }
            put(&mut out, Draw::Label(String::from_str(")")));
            assert(views(out@) =~= drawing(*schema, v@, label_text(label), idx, depth));
        },
        _ => {
            put(&mut out, leaf_draw(schema, v, label));
            assert(views(out@) =~= drawing(*schema, v@, label_text(label), idx, depth));
        },
    }
    out
}

} // verus!
