//! The head that every store's file starts with.

use crate::num::{le_value, read_le};
use crate::text::{field_text, read_text};
use vstd::prelude::*;
use vstd::slice::slice_subrange;

verus! {

/// The bytes that a head takes.
pub const DB_HEAD_SIZE: usize = 64;

/// The prefix of the stores that `shah` itself defines.
pub const SHAH_PREFIX: u8 = 7;

/// The signature and the kind of a store.
#[derive(Debug, Clone, Copy, PartialEq, Eq)]
pub struct ShahMagic {
    pub sign: [u8; 5],
    pub prefix: u8,
    pub db: u16,
}

/// The kinds of store.
#[derive(Debug, Clone, Copy, PartialEq, Eq, Structural)]
pub enum ShahMagicDb {
    Unknown,
    Entity,
    Pond,
    Snake,
    TrieConst,
    Trie,
}

/// A store's head.
#[derive(Debug, PartialEq, Eq)]
pub struct DbHead {
    pub magic: ShahMagic,
    pub shah_version: (u16, u16),
    pub db_version: u16,
    pub revision: u16,
    pub name: String,
}

/// The signature: a bell and the letters `SHAH`.
pub open spec fn sign() -> Seq<u8> {
    seq![7u8, 83u8, 72u8, 65u8, 72u8]
}

/// The kind that the number `db` stands for.
pub open spec fn magic_db(db: u16) -> ShahMagicDb {
    if db == 1 {
        ShahMagicDb::Entity
    } else if db == 2 {
        ShahMagicDb::Pond
    } else if db == 3 {
        ShahMagicDb::Snake
    } else if db == 4 {
        ShahMagicDb::TrieConst
    } else if db == 5 {
        ShahMagicDb::Trie
    } else {
        ShahMagicDb::Unknown
    }
}

/// The number of two bytes at `at`, least significant byte first.
pub open spec fn u16_at(bytes: Seq<u8>, at: int) -> u16 {
    le_value(bytes.subrange(at, at + 2)) as u16
}

/// The number of eight bytes at `at`, least significant byte first.
pub open spec fn u64_at(bytes: Seq<u8>, at: int) -> u64 {
    le_value(bytes.subrange(at, at + 8)) as u64
}

impl ShahMagic {
    /// Whether the signature is a store's.
    pub open spec fn spec_is_valid(&self) -> bool {
        self.sign@ == sign()
    }

    /// Whether the signature is a store's.
    pub fn is_valid(&self) -> (r: bool)
        ensures
            r == self.spec_is_valid(),
    {
        let r: bool = self.sign[0] == 7 && self.sign[1] == 83 && self.sign[2] == 72 && self.sign[3]
            == 65 && self.sign[4] == 72;
        assert(r ==> self.sign@ =~= sign());
        r
    }

    /// Whether the store is of a kind that somebody else defined.
    pub open spec fn spec_is_custom(&self) -> bool {
        self.prefix != SHAH_PREFIX
    }

    /// Whether the store is of a kind that somebody else defined.
    pub fn is_custom(&self) -> (r: bool)
        ensures
            r == self.spec_is_custom(),
    {
        self.prefix != SHAH_PREFIX
    }

    /// The kind of the store.
    pub fn db(&self) -> (r: ShahMagicDb)
        ensures
            r == magic_db(self.db),
    {
        if self.db == 1 {
            ShahMagicDb::Entity
        } else if self.db == 2 {
            ShahMagicDb::Pond
        } else if self.db == 3 {
            ShahMagicDb::Snake
        } else if self.db == 4 {
            ShahMagicDb::TrieConst
        } else if self.db == 5 {
            ShahMagicDb::Trie
        } else {
            ShahMagicDb::Unknown
        }
    }
}

/// Reads the number of two bytes at `at`.
pub fn read_u16(bytes: &[u8], at: usize) -> (r: u16)
    requires
        at + 2 <= bytes@.len(),
    ensures
        r == u16_at(bytes@, at as int),
{
    let len: usize = bytes.len();
    let part: &[u8] = slice_subrange(bytes, at, at + 2);
    proof {
        crate::num::lemma_le_value_bound(part@);
        crate::num::lemma_pow256_values();
    }
    read_le(part) as u16
}

/// Reads the number of eight bytes at `at`.
pub fn read_u64(bytes: &[u8], at: usize) -> (r: u64)
    requires
        at + 8 <= bytes@.len(),
    ensures
        r == u64_at(bytes@, at as int),
{
    let len: usize = bytes.len();
    read_le(slice_subrange(bytes, at, at + 8))
}

impl DbHead {
    /// The head is what the first 64 of `bytes` hold: five bytes of
    /// signature, the prefix, the kind, the two numbers of the library's
    /// version, the store's version, its revision, and 48 bytes of name.
    pub open spec fn reads(&self, bytes: Seq<u8>) -> bool {
        &&& self.magic.sign@ == bytes.subrange(0, 5)
        &&& self.magic.prefix == bytes[5]
        &&& self.magic.db == u16_at(bytes, 6)
        &&& self.shah_version.0 == u16_at(bytes, 8)
        &&& self.shah_version.1 == u16_at(bytes, 10)
        &&& self.db_version == u16_at(bytes, 12)
        &&& self.revision == u16_at(bytes, 14)
        &&& self.name@ == field_text(bytes.subrange(16, 64))
    }

    /// Reads the head that `bytes` start with; `None` where they are fewer
    /// than a head.
    pub fn parse(bytes: &[u8]) -> (r: Option<DbHead>)
        ensures
            r is None <==> bytes@.len() < DB_HEAD_SIZE,
            r matches Some(head) ==> head.reads(bytes@),
    {
        if bytes.len() < DB_HEAD_SIZE {
            return None;
        }
        let sign: [u8; 5] = [bytes[0], bytes[1], bytes[2], bytes[3], bytes[4]];
        assert(sign@ =~= bytes@.subrange(0, 5));
        let magic: ShahMagic = ShahMagic { sign, prefix: bytes[5], db: read_u16(bytes, 6) };
        let name: String = read_text(slice_subrange(bytes, 16, 64));
        Some(
            DbHead {
                magic,
                shah_version: (read_u16(bytes, 8), read_u16(bytes, 10)),
                db_version: read_u16(bytes, 12),
                revision: read_u16(bytes, 14),
                name,
            },
        )
    }
}

} // verus!
