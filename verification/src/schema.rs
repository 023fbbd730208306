//! The schema of a record: what its bytes mean.

use crate::error::{DbError, ShahVisualError};
use crate::gene::GENE_SIZE;
use shah::models::Schema as Descriptor;
use vstd::prelude::*;

verus! {

broadcast use {vstd::seq::axiom_seq_index_decreases, vstd::std_specs::vec::group_vec_axioms};

/// The layout of a value in a record.
#[derive(Debug, PartialEq, Eq)]
pub enum Schema {
    /// A named record of named fields, one after the other.
    Model(SchemaModel),
    /// `length` values of one kind, one after the other. With `is_str` set
    /// and bytes as elements it holds text that ends at the first zero
    /// byte.
    Array { is_str: bool, length: u64, kind: Box<Schema> },
    /// Unnamed values, one after the other.
    Tuple(Vec<Schema>),
    U8,
    U16,
    U32,
    U64,
    I8,
    I16,
    I32,
    I64,
    F32,
    F64,
    Bool,
    /// A reference to another record.
    Gene,
}

/// A named record.
#[derive(Debug, PartialEq, Eq)]
pub struct SchemaModel {
    pub name: String,
    /// The size that the descriptor states for the model. The layout goes
    /// by the fields: see [`Schema::spec_size`].
    pub size: u64,
    pub fields: Vec<(String, Schema)>,
}

/// The bytes that the first `n` of `items` take together.
pub open spec fn items_size(items: Seq<Schema>, n: nat) -> nat
    decreases items, n,
{
    if n == 0 || n > items.len() {
        0
    } else {
        items_size(items, (n - 1) as nat) + items[n - 1].spec_size()
    }
}

/// The bytes that the first `n` of `fields` take together.
pub open spec fn fields_size(fields: Seq<(String, Schema)>, n: nat) -> nat
    decreases fields, n,
{
    if n == 0 || n > fields.len() {
        0
    } else {
        fields_size(fields, (n - 1) as nat) + fields[n - 1].1.spec_size()
    }
}

impl Schema {
    /// The bytes that a value of this schema takes: a fixed width for a
    /// number, a boolean or a gene, the sum of the parts for a model or a
    /// tuple, and the length times the element's size for an array.
    pub open spec fn spec_size(&self) -> nat
        decreases self,
    {
        match self {
            Schema::Model(m) => fields_size(m.fields@, m.fields@.len()),
            Schema::Array { length, kind, .. } => *length as nat * kind.spec_size(),
            Schema::Tuple(items) => items_size(items@, items@.len()),
            Schema::U8 | Schema::I8 | Schema::Bool => 1,
            Schema::U16 | Schema::I16 => 2,
            Schema::U32 | Schema::I32 | Schema::F32 => 4,
            Schema::U64 | Schema::I64 | Schema::F64 => 8,
            Schema::Gene => 16,
        }
    }
}

/// The sum over more fields is no smaller.
pub proof fn lemma_fields_size_grows(fields: Seq<(String, Schema)>, a: nat, b: nat)
    requires
        a <= b <= fields.len(),
    ensures
        fields_size(fields, a) <= fields_size(fields, b),
    decreases b,
{
    if a < b {
        lemma_fields_size_grows(fields, a, (b - 1) as nat);
    }
}

/// The sum over more items is no smaller.
pub proof fn lemma_items_size_grows(items: Seq<Schema>, a: nat, b: nat)
    requires
        a <= b <= items.len(),
    ensures
        items_size(items, a) <= items_size(items, b),
    decreases b,
{
    if a < b {
        lemma_items_size_grows(items, a, (b - 1) as nat);
    }
}

impl Schema {
    /// The bytes that a value of this schema takes, or `None` where that
    /// number does not fit a `usize`.
    pub fn size(&self) -> (r: Option<usize>)
        ensures
            match r {
                Some(n) => n == self.spec_size(),
                None => self.spec_size() > usize::MAX,
            },
        decreases self,
    {
        match self {
            Schema::Model(m) => {
                let n: usize = m.fields.len();
                let mut total: usize = 0;
                let mut i: usize = 0;
                while i < n
                    invariant
                        n == m.fields@.len(),
                        i <= n,
                        total == fields_size(m.fields@, i as nat),
                        decreases_to!(*self => m.fields@),
                        self.spec_size() == fields_size(m.fields@, n as nat),
                    decreases n - i,
                {
                    proof {
                        lemma_fields_size_grows(m.fields@, (i + 1) as nat, n as nat);
                    }
                    let part: Option<usize> = m.fields[i].1.size();
                    let sum: Option<usize> = match part {
                        Some(s) => total.checked_add(s),
                        None => None,
                    };
                    match sum {
                        Some(t) => {
                            total = t;
                        },
                        None => {
                            return None;
                        },
                    }
                    i = i + 1;
                }
                Some(total)
            },
            Schema::Array { length, kind, .. } => {
                if *length == 0 {
                    return Some(0);
                }
                match kind.size() {
                    None => {
                        assert(*length as nat * kind.spec_size() >= kind.spec_size())
                            by (nonlinear_arith)
                            requires
                                *length >= 1,
                        ;
                        None
                    },
                    Some(k) => {
                        if k == 0 {
                            assert(*length as nat * kind.spec_size() == 0) by (nonlinear_arith)
                                requires
                                    kind.spec_size() == 0,
                            ;
                            Some(0)
                        } else if *length > usize::MAX as u64 {
                            assert(*length as nat * kind.spec_size() >= *length as nat)
                                by (nonlinear_arith)
                                requires
                                    kind.spec_size() >= 1,
                            ;
                            None
                        } else {
                            (*length as usize).checked_mul(k)
                        }
                    },
                }
            },
            Schema::Tuple(items) => {
                let n: usize = items.len();
                let mut total: usize = 0;
                let mut i: usize = 0;
                while i < n
                    invariant
                        n == items@.len(),
                        i <= n,
                        total == items_size(items@, i as nat),
                        decreases_to!(*self => items@),
                        self.spec_size() == items_size(items@, n as nat),
                    decreases n - i,
                {
                    proof {
                        lemma_items_size_grows(items@, (i + 1) as nat, n as nat);
                    }
                    let part: Option<usize> = items[i].size();
                    let sum: Option<usize> = match part {
                        Some(s) => total.checked_add(s),
                        None => None,
                    };
                    match sum {
                        Some(t) => {
                            total = t;
                        },
                        None => {
                            return None;
                        },
                    }
                    i = i + 1;
                }
                Some(total)
            },
            Schema::U8 | Schema::I8 | Schema::Bool => Some(1),
            Schema::U16 | Schema::I16 => Some(2),
            Schema::U32 | Schema::I32 | Schema::F32 => Some(4),
            Schema::U64 | Schema::I64 | Schema::F64 => Some(8),
            Schema::Gene => Some(GENE_SIZE),
        }
    }
}

/// The size of a model is the sum of the sizes of its fields: each field
/// adds its own size to that of the fields before it.
pub proof fn lemma_model_size_is_sum(m: SchemaModel)
    ensures
        Schema::Model(m).spec_size() == fields_size(m.fields@, m.fields@.len()),
        fields_size(m.fields@, 0) == 0,
        forall|n: nat|
            1 <= n <= m.fields@.len() ==> #[trigger] fields_size(m.fields@, n) == fields_size(
                m.fields@,
                (n - 1) as nat,
            ) + m.fields@[n - 1].1.spec_size(),
{
}

/// The schema type of the `shah` crate, which its decoder returns. Nothing
/// of a value is visible here: [`lift`] copies one into a [`Schema`].
#[verifier::external_type_specification]
#[verifier::external_body]
pub struct ExDescriptor(Descriptor);

/// What `shah` decodes a schema descriptor to: `None` where it refuses the
/// bytes. The decoder reads a prefix of the bytes and is a function of
/// them alone.
pub uninterp spec fn schema_decoding(bytes: Seq<u8>) -> Option<Schema>;

/// Calls `shah::models::Schema::decode` on `bytes`. The contract claims
/// that the schema handed back, copied variant by variant into a
/// [`Schema`], is determined by the bytes, and gives it the name
/// [`schema_decoding`]; `None` stands for the decoder's one error.
#[verifier::external_body]
fn decode_descriptor(bytes: &[u8]) -> (r: Option<Schema>)
    ensures
        r == schema_decoding(bytes@),
{
    match Descriptor::decode(bytes) {
        Ok(s) => Some(lift(&s)),
        Err(_) => None,
    }
}

/// Copies a schema of `shah` into a [`Schema`]: each variant to the
/// variant of the same name, each field to the field of the same name.
#[verifier::external_body]
fn lift(s: &Descriptor) -> Schema {
    match s {
        Descriptor::Model(m) => Schema::Model(
            SchemaModel {
                name: m.name.clone(),
                size: m.size,
                fields: m.fields.iter().map(|f| (f.0.clone(), lift(&f.1))).collect(),
            },
        ),
        Descriptor::Array { is_str, length, kind } => {
            Schema::Array { is_str: *is_str, length: *length, kind: Box::new(lift(kind)) }
        },
        Descriptor::Tuple(v) => Schema::Tuple(v.iter().map(lift).collect()),
        leaf => lift_leaf(leaf),
    }
}

/// Copies a schema of `shah` that has no parts into the [`Schema`] of the
/// same name; one with parts goes to [`lift`].
#[verifier::external_body]
fn lift_leaf(s: &Descriptor) -> Schema {
    match s {
        Descriptor::U8 => Schema::U8,
        Descriptor::U16 => Schema::U16,
        Descriptor::U32 => Schema::U32,
        Descriptor::U64 => Schema::U64,
        Descriptor::I8 => Schema::I8,
        Descriptor::I16 => Schema::I16,
        Descriptor::I32 => Schema::I32,
        Descriptor::I64 => Schema::I64,
        Descriptor::F32 => Schema::F32,
        Descriptor::F64 => Schema::F64,
        Descriptor::Bool => Schema::Bool,
        Descriptor::Gene => Schema::Gene,
        parts => lift(parts),
    }
}

impl Schema {
    /// Decodes a schema descriptor. The decoding itself is `shah`'s; a
    /// descriptor that it refuses is an invalid schema.
    pub fn decode(bytes: &[u8]) -> (r: Result<Schema, ShahVisualError>)
        ensures
            match schema_decoding(bytes@) {
                Some(s) => r == Ok::<Schema, ShahVisualError>(s),
                None => r == Err::<Schema, ShahVisualError>(
                    ShahVisualError::Shah(DbError::InvalidDbSchema),
                ),
            },
    {
        match decode_descriptor(bytes) {
            Some(s) => Ok(s),
            None => Err(ShahVisualError::Shah(DbError::InvalidDbSchema)),
        }
    }
}

} // verus!
