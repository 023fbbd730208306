//! Telling the kinds of store apart, and opening one.

use crate::entity::EntityDb;
use crate::error::{DbError, ShahVisualError};
use crate::head::{magic_db, sign, u16_at, DbHead, ShahMagicDb, DB_HEAD_SIZE, SHAH_PREFIX};
use crate::trie_const::{meta_oversized, TrieConstDb};
use crate::utils::texts;
use vstd::prelude::*;

verus! {

/// A store of one of the kinds that are shown.
pub enum DatabaseKind {
    Entity(EntityDb),
    TrieConst(TrieConstDb),
}

/// The kind of the store that starts with `head`. Fewer bytes than a head
/// are a short read. A head without the signature, one of a kind that
/// somebody else defined, and one of a kind that is not shown, is an
/// invalid head.
pub open spec fn kind_of(head: Seq<u8>) -> Result<ShahMagicDb, ShahVisualError> {
    if head.len() < DB_HEAD_SIZE {
        Err(ShahVisualError::Io)
    } else if head.subrange(0, 5) != sign() || head[5] != SHAH_PREFIX {
        Err(ShahVisualError::Shah(DbError::InvalidDbHead))
    } else {
        match magic_db(u16_at(head, 6)) {
            ShahMagicDb::Entity => Ok(ShahMagicDb::Entity),
            ShahMagicDb::TrieConst => Ok(ShahMagicDb::TrieConst),
            _ => Err(ShahVisualError::Shah(DbError::InvalidDbHead)),
        }
    }
}

/// The store is a constant trie whose cache would take more than 100 MiB.
/// Such a store is not to be opened: to go on would be to ask for memory
/// without bound.
pub open spec fn fatal(head: Seq<u8>) -> bool {
    kind_of(head) == Ok::<ShahMagicDb, ShahVisualError>(ShahMagicDb::TrieConst) && meta_oversized(
        head,
    )
}

/// Reads the kind of the store that starts with `head`.
pub fn database_kind(head: &[u8]) -> (r: Result<ShahMagicDb, ShahVisualError>)
    ensures
        r == kind_of(head@),
{
    let db_head: DbHead = match DbHead::parse(head) {
        Some(h) => h,
        None => {
            return Err(ShahVisualError::Io);
        },
    };
    if !db_head.magic.is_valid() {
        return Err(ShahVisualError::Shah(DbError::InvalidDbHead));
    }
    if db_head.magic.is_custom() {
        return Err(ShahVisualError::Shah(DbError::InvalidDbHead));
    }
    match db_head.magic.db() {
        ShahMagicDb::Entity => Ok(ShahMagicDb::Entity),
        ShahMagicDb::TrieConst => Ok(ShahMagicDb::TrieConst),
        _ => Err(ShahVisualError::Shah(DbError::InvalidDbHead)),
    }
}

/// Tells whether the store must not be opened: see [`fatal`].
pub fn is_fatal(head: &[u8]) -> (r: bool)
    ensures
        r == fatal(head@),
{
    match database_kind(head) {
        Ok(ShahMagicDb::TrieConst) => TrieConstDb::oversized(head),
        _ => false,
    }
}

impl DatabaseKind {
    /// `r` is what opening the store that starts with `head` gives: the
    /// error of [`kind_of`], or what opening a store of its kind gives.
    pub open spec fn new_result(
        r: Result<DatabaseKind, ShahVisualError>,
        head: Seq<u8>,
        parts: Seq<Seq<char>>,
    ) -> bool {
        match kind_of(head) {
            Err(e) => r == Err::<DatabaseKind, ShahVisualError>(e),
            Ok(ShahMagicDb::Entity) => match r {
                Ok(DatabaseKind::Entity(db)) => crate::entity::init_result(Ok(db), head, parts),
                Ok(_) => false,
                Err(e) => crate::entity::init_result(Err(e), head, parts),
            },
            Ok(_) => match r {
                Ok(DatabaseKind::TrieConst(db)) => crate::trie_const::init_result(Ok(db), head),
                Ok(_) => false,
                Err(e) => crate::trie_const::init_result(Err(e), head),
            },
        }
    }

    /// Opens the store whose file starts with `head`. `parts` are the
    /// ordinary components of the file's path.
    pub fn new(head: &[u8], parts: &[String]) -> (r: Result<DatabaseKind, ShahVisualError>)
        requires
            !fatal(head@),
        ensures
            DatabaseKind::new_result(r, head@, texts(parts@)),
    {
        match database_kind(head) {
            Err(e) => Err(e),
            Ok(ShahMagicDb::Entity) => match EntityDb::init(head, parts) {
                Ok(db) => Ok(DatabaseKind::Entity(db)),
                Err(e) => Err(e),
            },
            Ok(_) => match TrieConstDb::init(head) {
                Ok(db) => Ok(DatabaseKind::TrieConst(db)),
                Err(e) => Err(e),
            },
        }
    }

    /// The title of the store.
    pub fn title(&self) -> (s: String)
        ensures
            s@ == (match self {
                DatabaseKind::Entity(db) => crate::entity::title_of(
                    db.prefix@,
                    db.name@,
                    db.revision,
                ),
                DatabaseKind::TrieConst(db) => db.name@,
            }),
    {
        match self {
            DatabaseKind::Entity(db) => db.title(),
            DatabaseKind::TrieConst(db) => db.name.clone(),
        }
    }
}

} // verus!
