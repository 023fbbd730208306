//! Genes: the keys by which records refer to one another.

use crate::num::{decimal, format_unsigned, le_value, read_le};
use vstd::prelude::*;
use vstd::slice::slice_subrange;

verus! {

/// The bytes that a gene takes in a record.
pub const GENE_SIZE: usize = 16;

/// A reference to a record.
#[derive(Debug, Clone, Copy, PartialEq, Eq)]
pub struct Gene {
    pub id: u64,
    pub iter: u8,
    pub pepper: [u8; 3],
    pub server: u32,
}

/// Every byte is zero.
pub open spec fn all_zero(bytes: Seq<u8>) -> bool {
    forall|i: int| 0 <= i < bytes.len() ==> bytes[i] == 0
}

/// `gene` is what the sixteen bytes hold: the id in the first eight, least
/// significant byte first, then the iteration, the three bytes of pepper,
/// and the server in the last four.
pub open spec fn gene_reads(gene: Gene, bytes: Seq<u8>) -> bool {
    &&& gene.id == le_value(bytes.subrange(0, 8))
    &&& gene.iter == bytes[8]
    &&& gene.pepper@ == bytes.subrange(9, 12)
    &&& gene.server == le_value(bytes.subrange(12, 16))
}

/// The gene of a field: `None` where every byte is zero, which stands for
/// no reference at all.
pub open spec fn gene_of(result: Option<Gene>, bytes: Seq<u8>) -> bool {
    match result {
        None => all_zero(bytes),
        Some(gene) => !all_zero(bytes) && gene_reads(gene, bytes),
    }
}

/// The text of a gene's four parts: `Gene(id, iter, [p, p, p], server)`.
pub open spec fn gene_parts_text(
    id: nat,
    iter: nat,
    first: nat,
    second: nat,
    third: nat,
    server: nat,
) -> Seq<char> {
    "Gene("@ + decimal(id) + ", "@ + decimal(iter) + ", ["@ + decimal(first) + ", "@ + decimal(
        second,
    ) + ", "@ + decimal(third) + "], "@ + decimal(server) + ")"@
}

/// The text of a gene: `Gene(id, iter, [p, p, p], server)`.
pub open spec fn gene_text(gene: Gene) -> Seq<char> {
    gene_parts_text(
        gene.id as nat,
        gene.iter as nat,
        gene.pepper@[0] as nat,
        gene.pepper@[1] as nat,
        gene.pepper@[2] as nat,
        gene.server as nat,
    )
}

/// The text of a gene field of sixteen bytes: `absent` where every byte is
/// zero, else the four parts read at their places.
pub open spec fn gene_field_text(bytes: Seq<u8>, absent: Seq<char>) -> Seq<char> {
    if all_zero(bytes) {
        absent
    } else {
        gene_parts_text(
            le_value(bytes.subrange(0, 8)),
            bytes[8] as nat,
            bytes[9] as nat,
            bytes[10] as nat,
            bytes[11] as nat,
            le_value(bytes.subrange(12, 16)),
        )
    }
}

/// Tells whether every byte is zero.
pub fn is_all_zero(bytes: &[u8]) -> (r: bool)
    ensures
        r == all_zero(bytes@),
{
    let mut i: usize = 0;
    while i < bytes.len()
        invariant
            i <= bytes@.len(),
            forall|j: int| 0 <= j < i ==> bytes@[j] == 0,
        decreases bytes@.len() - i,
    {
        if bytes[i] != 0 {
            return false;
        }
        i = i + 1;
    }
    true
}

impl Gene {
    /// Reads the gene that sixteen bytes hold; `None` where all are zero.
    pub fn decode(bytes: &[u8]) -> (r: Option<Gene>)
        requires
            bytes@.len() == GENE_SIZE,
        ensures
            gene_of(r, bytes@),
    {
        if is_all_zero(bytes) {
            return None;
        }
        Some(Gene::from_binary(bytes))
    }

    /// Reads the four parts of a gene at their places in sixteen bytes.
    pub fn from_binary(bytes: &[u8]) -> (gene: Gene)
        requires
            bytes@.len() == GENE_SIZE,
        ensures
            gene_reads(gene, bytes@),
    {
        let id: u64 = read_le(slice_subrange(bytes, 0, 8));
        let server_bytes: &[u8] = slice_subrange(bytes, 12, 16);
        let server: u64 = read_le(server_bytes);
        proof {
            crate::num::lemma_le_value_bound(server_bytes@);
            crate::num::lemma_pow256_values();
        }
        let pepper: [u8; 3] = [bytes[9], bytes[10], bytes[11]];
        assert(pepper@ =~= bytes@.subrange(9, 12));
        Gene { id, iter: bytes[8], pepper, server: server as u32 }
    }

    /// Whether the gene refers to nothing: its id is zero.
    pub fn is_none(&self) -> (r: bool)
        ensures
            r == (self.id == 0),
    {
        self.id == 0
    }

    /// Writes the gene as `Gene(id, iter, [p, p, p], server)`.
    pub fn text(&self) -> (s: String)
        ensures
            s@ == gene_text(*self),
    {
        let mut s: String = String::from_str("Gene(");
        s.append(format_unsigned(self.id).as_str());
        s.append(", ");
        s.append(format_unsigned(self.iter as u64).as_str());
        s.append(", [");
        s.append(format_unsigned(self.pepper[0] as u64).as_str());
        s.append(", ");
        s.append(format_unsigned(self.pepper[1] as u64).as_str());
        s.append(", ");
        s.append(format_unsigned(self.pepper[2] as u64).as_str());
        s.append("], ");
        s.append(format_unsigned(self.server as u64).as_str());
        s.append(")");
        assert(s@ =~= gene_text(*self));
        s
    }
}

/// Writes a gene field of sixteen bytes: `absent` where every byte is
/// zero, else the gene.
pub fn gene_field(bytes: &[u8], absent: &str) -> (s: String)
    requires
        bytes@.len() == GENE_SIZE,
    ensures
        s@ == gene_field_text(bytes@, absent@),
{
    match Gene::decode(bytes) {
        None => String::from_str(absent),
        Some(gene) => {
            assert(gene.pepper@[0] == bytes@.subrange(9, 12)[0]);
            assert(gene.pepper@[1] == bytes@.subrange(9, 12)[1]);
            assert(gene.pepper@[2] == bytes@.subrange(9, 12)[2]);
            gene.text()
        },
    }
}

/// A field of sixteen zero bytes holds no gene, and one with any other
/// byte holds the gene that its bytes spell.
pub proof fn lemma_gene_absent_iff_zero(result: Option<Gene>, bytes: Seq<u8>)
    requires
        gene_of(result, bytes),
    ensures
        result is None <==> all_zero(bytes),
        result matches Some(gene) ==> gene_reads(gene, bytes),
{
}

} // verus!
