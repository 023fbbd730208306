//! A constant trie: a table of pointers behind its metadata.
//!
//! The file holds the metadata, then a cache of `alphabet ^ depth`
//! pointers of eight bytes, then index tables of one slot per letter. The
//! store is shown through a window over the cache; a pointer that is picked
//! leads to one index table.

use crate::error::{DbError, ShahVisualError};
use crate::gene::{gene_reads, Gene, GENE_SIZE};
use crate::head::{read_u64, u64_at};
use crate::num::{decimal, format_unsigned, le_value, read_le};
use crate::text::{field_text, lossy_text, read_text, utf8_text};
use crate::window::{record, row_count, ReadPlan, Window};
use vstd::prelude::*;
use vstd::slice::slice_subrange;

verus! {

/// The bytes of the metadata, which the cache follows.
pub const TRIE_CONST_META: u64 = 4184;

/// The bytes that the metadata keep for the alphabet.
pub const ABC_CAPACITY: u64 = 4096;

/// The most bytes that a cache may take: 100 MiB.
pub const CACHE_LIMIT: u64 = 104857600;

/// The most pointers that a cache may hold.
pub const CACHE_LEN_LIMIT: u64 = 13107200;

/// The power `base ^ exp`.
pub open spec fn power(base: nat, exp: nat) -> nat
    decreases exp,
{
    if exp == 0 {
        1
    } else {
        base * power(base, (exp - 1) as nat)
    }
}

/// A power of a positive base is positive and grows with the exponent.
pub proof fn lemma_power_grows(base: nat, a: nat, b: nat)
    requires
        base >= 1,
        a <= b,
    ensures
        1 <= power(base, a) <= power(base, b),
    decreases b,
{
    if a < b {
        lemma_power_grows(base, a, (b - 1) as nat);
        assert(power(base, (b - 1) as nat) <= base * power(base, (b - 1) as nat))
            by (nonlinear_arith)
            requires
                base >= 1,
        ;
    } else if a > 0 {
        lemma_power_grows(base, (a - 1) as nat, (a - 1) as nat);
        assert(1 <= base * power(base, (a - 1) as nat)) by (nonlinear_arith)
            requires
                base >= 1,
                power(base, (a - 1) as nat) >= 1,
        ;
    }
}

/// Computes `base ^ exp` where it is at most `limit`; `None` where it is
/// more.
pub fn bounded_power(base: u64, exp: u64, limit: u64) -> (r: Option<u64>)
    ensures
        match r {
            Some(p) => p == power(base as nat, exp as nat) && p <= limit,
            None => power(base as nat, exp as nat) > limit,
        },
{
    if exp == 0 {
        return if limit >= 1 {
            Some(1)
        } else {
            None
        };
    }
    if base == 0 {
        assert(power(0, exp as nat) == 0) by (nonlinear_arith)
            requires
                power(0, exp as nat) == 0 * power(0, (exp - 1) as nat),
        ;
        return Some(0);
    }
    if limit == 0 {
        proof {
            lemma_power_grows(base as nat, 0, exp as nat);
        }
        return None;
    }
    if base == 1 {
        proof {
            lemma_power_one(exp as nat);
        }
        return Some(1);
    }
    let mut p: u64 = 1;
    let mut i: u64 = 0;
    while i < exp
        invariant
            base >= 2,
            limit >= 1,
            i <= exp,
            p == power(base as nat, i as nat),
            1 <= p <= limit,
        decreases exp - i,
    {
        let next: Option<u64> = p.checked_mul(base);
        let fits: bool = match next {
            Some(q) => q <= limit,
            None => false,
        };
        proof {
            assert(power(base as nat, (i + 1) as nat) == base * power(base as nat, i as nat));
            assert(base * p == p * base) by (nonlinear_arith);
            assert(p * base >= 1) by (nonlinear_arith)
                requires
                    p >= 1,
                    base >= 2,
            ;
        }
        if !fits {
            proof {
                lemma_power_grows(base as nat, (i + 1) as nat, exp as nat);
            }
            return None;
        }
        p = p * base;
        i = i + 1;
    }
    Some(p)
}

/// Every power of one is one.
pub proof fn lemma_power_one(exp: nat)
    ensures
        power(1, exp) == 1,
    decreases exp,
{
    if exp > 0 {
        lemma_power_one((exp - 1) as nat);
    }
}

/// The alphabet's length in bytes, as the metadata declare it.
pub open spec fn meta_abc_len(meta: Seq<u8>) -> u64 {
    u64_at(meta, 80)
}

/// The alphabet: the text of the declared bytes.
pub open spec fn meta_abc(meta: Seq<u8>) -> Seq<char> {
    utf8_text(meta.subrange(88, 88 + meta_abc_len(meta)))
}

/// The pointers in the cache: the alphabet's size to the power of the
/// cache depth.
pub open spec fn meta_cache_len(meta: Seq<u8>) -> nat {
    power(meta_abc(meta).len(), u64_at(meta, 72) as nat)
}

/// The metadata are whole, and the alphabet that they declare fits its
/// place.
pub open spec fn meta_valid(meta: Seq<u8>) -> bool {
    meta.len() >= TRIE_CONST_META && meta_abc_len(meta) < ABC_CAPACITY
}

/// The metadata are valid and ask for a cache of more than 100 MiB. Such a
/// store is not opened at all.
pub open spec fn meta_oversized(meta: Seq<u8>) -> bool {
    meta_valid(meta) && meta_cache_len(meta) > CACHE_LEN_LIMIT
}

/// The label of the cache entry `idx` for a cache of depth `width`: `09`, a
/// space, and the number filled up with zeros in front to `width` places.
pub open spec fn cache_label(idx: nat, width: nat) -> Seq<char> {
    "09 "@ + zeros(width - decimal(idx).len()) + decimal(idx)
}

/// `n` zeros; none where `n` is not positive.
pub open spec fn zeros(n: int) -> Seq<char> {
    Seq::new(
        if n > 0 {
            n as nat
        } else {
            0
        },
        |i: int| '0',
    )
}

/// Whether entry `i` of `data` is listed. Of a run of zeros the first is
/// listed and the rest is left out; the last entry is always listed.
pub open spec fn listed(data: Seq<u64>, i: int) -> bool {
    !(i >= 1 && data[i - 1] == 0 && data[i] == 0 && i + 1 != data.len())
}

/// The list of the first `n` cache entries, runs of zeros collapsed: each
/// listed entry with its label and its pointer.
pub open spec fn cache_list(data: Seq<u64>, skip: nat, width: nat, n: nat) -> Seq<(Seq<char>, u64)>
    decreases n,
{
    if n == 0 || n > data.len() {
        Seq::empty()
    } else if listed(data, n - 1) {
        cache_list(data, skip, width, (n - 1) as nat).push(
            (cache_label((skip + n - 1) as nat, width), data[n - 1]),
        )
    } else {
        cache_list(data, skip, width, (n - 1) as nat)
    }
}

/// The pointers that the rows of a window hold.
pub open spec fn pointers(rows: Seq<Vec<u8>>) -> Seq<u64> {
    Seq::new(rows.len(), |i: int| le_value(rows[i]@) as u64)
}

/// The texts of a list of labelled pointers.
pub open spec fn list_view(list: Seq<(String, u64)>) -> Seq<(Seq<char>, u64)> {
    Seq::new(list.len(), |i: int| (list[i].0@, list[i].1))
}

/// `r` is what opening the store that starts with `meta` gives. Metadata
/// that are not whole are a short read; an alphabet that is declared as
/// long as its place or longer makes them invalid. Any other metadata
/// open, with the window asking for the first ten pointers and nothing
/// read.
pub open spec fn init_result(r: Result<TrieConstDb, ShahVisualError>, meta: Seq<u8>) -> bool {
    if meta.len() < TRIE_CONST_META {
        r == Err::<TrieConstDb, ShahVisualError>(ShahVisualError::Io)
    } else if meta_abc_len(meta) >= ABC_CAPACITY {
        r == Err::<TrieConstDb, ShahVisualError>(ShahVisualError::Shah(DbError::InvalidDbMeta))
    } else {
        r matches Ok(db) && {
            &&& db.wf()
            &&& db.listed_fresh()
            &&& db.name@ == field_text(meta.subrange(16, 64))
            &&& db.index == u64_at(meta, 64)
            &&& db.cache == u64_at(meta, 72)
            &&& db.abc_len == meta_abc_len(meta)
            &&& db.abc@ == meta_abc(meta)
            &&& db.abc_count == meta_abc(meta).len()
            &&& db.cache_len == meta_cache_len(meta)
            &&& db.window.skip.main == 0
            &&& db.window.show.main == 10
            &&& !db.window.dirty()
            &&& db.window.rows@.len() == 0
            &&& db.index_pos is None
            &&& db.index_show is None
            &&& db.index_show_gene is None
            &&& !db.read_gene
        }
    }
}

/// A constant trie, opened.
pub struct TrieConstDb {
    pub name: String,
    /// The depth of the index.
    pub index: u64,
    /// The depth of the cache.
    pub cache: u64,
    /// The alphabet.
    pub abc: String,
    /// The letters of the alphabet.
    pub abc_count: usize,
    /// The bytes of the alphabet, which is also the number of slots in an
    /// index table.
    pub abc_len: usize,
    /// The pointers in the cache.
    pub cache_len: u64,
    /// The window over the cache.
    pub window: Window,
    /// The pointers in view.
    pub cache_data: Vec<u64>,
    /// The pointers in view as they are listed.
    pub cached_cache_ui: Vec<(String, u64)>,
    /// Where the index table in view lies.
    pub index_pos: Option<u64>,
    /// The index table in view, read as pointers.
    pub index_show: Option<Vec<u64>>,
    /// The index table in view, read as genes.
    pub index_show_gene: Option<Vec<Gene>>,
    /// Whether the next index table is read as genes.
    pub read_gene: bool,
}

impl TrieConstDb {
    /// The store is sound: its window lies over the cache, and the pointers
    /// in view are those of the window's rows.
    pub open spec fn wf(&self) -> bool {
        &&& self.window.wf()
        &&& self.window.header == TRIE_CONST_META
        &&& self.window.item_size == 8
        &&& self.window.total == self.cache_len
        &&& self.window.sort_by is None
        &&& self.abc_len < ABC_CAPACITY
        &&& self.cache_data@ == pointers(self.window.rows@)
    }

    /// The two stores have the same metadata: name, depths, alphabet and
    /// the size of the cache. No refresh and no click changes these.
    pub open spec fn same_meta(&self, other: TrieConstDb) -> bool {
        &&& self.name == other.name
        &&& self.index == other.index
        &&& self.cache == other.cache
        &&& self.abc == other.abc
        &&& self.abc_count == other.abc_count
        &&& self.abc_len == other.abc_len
        &&& self.cache_len == other.cache_len
    }

    /// What is listed is what the window holds, from its `skip` on.
    pub open spec fn listed_fresh(&self) -> bool {
        list_view(self.cached_cache_ui@) == cache_list(
            self.cache_data@,
            self.window.skip.main as nat,
            self.cache as nat,
            self.cache_data@.len(),
        )
    }

    /// Whether the metadata are valid and ask for a cache of more than
    /// 100 MiB, so that the store must not be opened.
    pub fn oversized(meta: &[u8]) -> (r: bool)
        ensures
            r == meta_oversized(meta@),
    {
        if (meta.len() as u64) < TRIE_CONST_META {
            return false;
        }
        let abc_len: u64 = read_u64(meta, 80);
        if abc_len >= ABC_CAPACITY {
            return false;
        }
        let abc: String = lossy_text(slice_subrange(meta, 88, 88 + abc_len as usize));
        let count: usize = abc.as_str().unicode_len();
        bounded_power(count as u64, read_u64(meta, 72), CACHE_LEN_LIMIT).is_none()
    }

    /// Opens the store whose file starts with `meta`. Metadata that are
    /// not whole are a short read; an alphabet that is declared as long as
    /// its place or longer makes them invalid. The window asks for the
    /// first ten pointers; nothing is read yet.
    pub fn init(meta: &[u8]) -> (r: Result<TrieConstDb, ShahVisualError>)
        requires
            !meta_oversized(meta@),
        ensures
            init_result(r, meta@),
    {
        if (meta.len() as u64) < TRIE_CONST_META {
            return Err(ShahVisualError::Io);
        }
        let abc_len: u64 = read_u64(meta, 80);
        if abc_len >= ABC_CAPACITY {
            return Err(ShahVisualError::Shah(DbError::InvalidDbMeta));
        }
        let abc: String = lossy_text(slice_subrange(meta, 88, 88 + abc_len as usize));
        let count: usize = abc.as_str().unicode_len();
        let cache: u64 = read_u64(meta, 72);
        let cache_len: u64 = bounded_power(count as u64, cache, CACHE_LEN_LIMIT).unwrap();
        let mut window: Window = Window::new(TRIE_CONST_META, 8);
        window.total = cache_len;
        assert(window.header + window.total * window.item_size <= u64::MAX) by {
            assert(window.item_size == 8);
            assert(window.total <= CACHE_LEN_LIMIT);
            assert(window.total * window.item_size == window.total * 8);
        }
        let db: TrieConstDb = TrieConstDb {
            name: read_text(slice_subrange(meta, 16, 64)),
            index: read_u64(meta, 64),
            cache,
            abc,
            abc_count: count,
            abc_len: abc_len as usize,
            cache_len,
            window,
            cache_data: Vec::new(),
            cached_cache_ui: Vec::new(),
            index_pos: None,
            index_show: None,
            index_show_gene: None,
            read_gene: false,
        };
        assert(db.cache_data@ =~= pointers(db.window.rows@));
        assert(list_view(db.cached_cache_ui@) =~= cache_list(
            db.cache_data@,
            0,
            db.cache as nat,
            0,
        ));
        Ok(db)
    }

    /// What is to be read for the window over the cache as it is asked for
    /// now; `skip` and `show` are clamped first.
    pub fn plan_cache(&mut self) -> (p: ReadPlan)
        requires
            old(self).wf(),
        ensures
            final(self).wf(),
            final(self).window.skip.main == crate::window::clamped_skip(
                old(self).window.skip.main,
                old(self).cache_len,
            ),
            final(self).window.show.main == crate::window::clamped_show(
                old(self).window.show.main,
                old(self).cache_len,
            ),
            p.offset == TRIE_CONST_META + final(self).window.skip.main * 8,
            p.length == row_count(
                final(self).window.skip.main,
                final(self).window.show.main,
                old(self).cache_len,
            ) * 8,
            !final(self).window.dirty(),
            final(self).window.rows == old(self).window.rows,
            final(self).window.order == old(self).window.order,
            final(self).same_meta(*old(self)),
            final(self).cache_data == old(self).cache_data,
            final(self).cached_cache_ui == old(self).cached_cache_ui,
            final(self).index_pos == old(self).index_pos,
            final(self).index_show == old(self).index_show,
            final(self).index_show_gene == old(self).index_show_gene,
            final(self).read_gene == old(self).read_gene,
    {
        self.window.plan()
    }

    /// Tells whether the window asked for has changed since it was last
    /// looked at.
    pub fn cache_changed(&mut self) -> (r: bool)
        requires
            old(self).wf(),
        ensures
            final(self).wf(),
            r == old(self).window.dirty(),
            !final(self).window.dirty(),
            final(self).window.skip.main == old(self).window.skip.main,
            final(self).window.show.main == old(self).window.show.main,
            final(self).window.rows == old(self).window.rows,
            final(self).window.order == old(self).window.order,
            final(self).same_meta(*old(self)),
            final(self).cache_data == old(self).cache_data,
            final(self).cached_cache_ui == old(self).cached_cache_ui,
            final(self).index_pos == old(self).index_pos,
            final(self).index_show == old(self).index_show,
            final(self).index_show_gene == old(self).index_show_gene,
            final(self).read_gene == old(self).read_gene,
    {
        self.window.changed()
    }

    /// Takes the bytes that were read for the window over the cache.
    /// Where they are exactly the window's pointers, these are in view and
    /// listed with runs of zeros collapsed. Where they are fewer or more,
    /// the read was short: nothing is in view, and the error says so.
    pub fn update_cache_data(&mut self, bytes: &[u8]) -> (r: Result<(), ShahVisualError>)
        requires
            old(self).wf(),
        ensures
            final(self).wf(),
            final(self).listed_fresh(),
            !final(self).window.dirty(),
            r is Ok <==> bytes@.len() == row_count(
                final(self).window.skip.main,
                final(self).window.show.main,
                old(self).cache_len,
            ) * 8,
            r is Err ==> r == Err::<(), ShahVisualError>(ShahVisualError::Io),
            r is Err ==> final(self).cache_data@.len() == 0,
            r is Ok ==> final(self).window.fresh() && final(self).cache_data@.len() == row_count(
                final(self).window.skip.main,
                final(self).window.show.main,
                old(self).cache_len,
            ) && forall|i: int|
                0 <= i < final(self).cache_data@.len() ==> #[trigger] final(self).cache_data@[i]
                    == le_value(record(bytes@, 8, i)),
            final(self).window.skip.main == crate::window::clamped_skip(
                old(self).window.skip.main,
                old(self).cache_len,
            ),
            final(self).window.show.main == crate::window::clamped_show(
                old(self).window.show.main,
                old(self).cache_len,
            ),
            final(self).same_meta(*old(self)),
            final(self).index_pos == old(self).index_pos,
            final(self).index_show == old(self).index_show,
            final(self).index_show_gene == old(self).index_show_gene,
            final(self).read_gene == old(self).read_gene,
    {
        let loaded: Result<(), ShahVisualError> = self.window.load(bytes);
        let n: usize = self.window.len();
        let mut data: Vec<u64> = Vec::with_capacity(n);
        let mut i: usize = 0;
        while i < n
            invariant
                self.window.wf(),
                self.window.item_size == 8,
                n == self.window.rows@.len(),
                i <= n,
                data@.len() == i,
                forall|j: int| 0 <= j < i ==> data@[j] == #[trigger] pointers(self.window.rows@)[j],
            decreases n - i,
        {
            let row: &Vec<u8> = &self.window.rows[i];
            data.push(read_le(row.as_slice()));
            i = i + 1;
        }
        assert(data@ =~= pointers(self.window.rows@));
        proof {
            if loaded is Ok {
                assert forall|j: int| 0 <= j < data@.len() implies #[trigger] data@[j] == le_value(
                    record(bytes@, 8, j),
                ) by {
                    assert(self.window.rows@[j]@ == record(bytes@, 8, j));
                    assert(data@[j] == pointers(self.window.rows@)[j]);
                    crate::num::lemma_le_value_bound(self.window.rows@[j]@);
                    crate::num::lemma_pow256_values();
                }
            }
        }
        self.cache_data = data;
        self.relist();
        loaded
    }

    /// Lists the pointers in view anew.
    fn relist(&mut self)
        requires
            old(self).window.skip.main + old(self).cache_data@.len() <= u64::MAX,
        ensures
            final(self).listed_fresh(),
            final(self).window == old(self).window,
            final(self).cache_data == old(self).cache_data,
            final(self).same_meta(*old(self)),
            final(self).index_pos == old(self).index_pos,
            final(self).index_show == old(self).index_show,
            final(self).index_show_gene == old(self).index_show_gene,
            final(self).read_gene == old(self).read_gene,
    {
        let n: usize = self.cache_data.len();
        let skip: u64 = self.window.skip.main;
        let mut list: Vec<(String, u64)> = Vec::new();
        let mut i: usize = 0;
        while i < n
            invariant
                n == self.cache_data@.len(),
                i <= n,
                skip + n <= u64::MAX,
                list_view(list@) == cache_list(
                    self.cache_data@,
                    skip as nat,
                    self.cache as nat,
                    i as nat,
                ),
            decreases n - i,
        {
            let p: u64 = self.cache_data[i];
            let run: bool = i >= 1 && self.cache_data[i - 1] == 0 && p == 0 && i + 1 != n;
            let ghost before = list_view(list@);
            if !run {
                list.push((label(skip + i as u64, self.cache), p));
                assert(list_view(list@) =~= before.push(
                    (cache_label((skip + i) as nat, self.cache as nat), p),
                ));
            } else {
                assert(list_view(list@) =~= before);
            }
            i = i + 1;
        }
        self.cached_cache_ui = list;
    }

    /// Where the index table lies that is to be read, and how long it is:
    /// one slot per byte of the alphabet, of a gene's size or a pointer's.
    pub fn index_plan(&self) -> (p: Option<ReadPlan>)
        requires
            self.abc_len < ABC_CAPACITY,
        ensures
            p == (match self.index_pos {
                Some(pos) => Some(
                    ReadPlan {
                        offset: pos,
                        length: (self.abc_len * slot_size(self.read_gene)) as u64,
                    },
                ),
                None => None,
            }),
    {
        match self.index_pos {
            Some(pos) => {
                let slot: usize = if self.read_gene {
                    GENE_SIZE
                } else {
                    8
                };
                Some(ReadPlan { offset: pos, length: (self.abc_len * slot) as u64 })
            },
            None => None,
        }
    }

    /// Takes the bytes that were read for the index table. Where a table
    /// is picked and the bytes are exactly its slots, the table in view is
    /// what they hold; otherwise nothing changes.
    pub fn update_index(&mut self, bytes: &[u8])
        requires
            old(self).abc_len < ABC_CAPACITY,
        ensures
            final(self).window == old(self).window,
            final(self).cache_data == old(self).cache_data,
            final(self).cached_cache_ui == old(self).cached_cache_ui,
            final(self).same_meta(*old(self)),
            final(self).index_pos == old(self).index_pos,
            final(self).read_gene == old(self).read_gene,
            !(old(self).index_pos is Some && bytes@.len() == old(self).abc_len * slot_size(
                old(self).read_gene,
            )) ==> final(self).index_show == old(self).index_show && final(self).index_show_gene
                == old(self).index_show_gene,
            old(self).index_pos is Some && bytes@.len() == old(self).abc_len * slot_size(
                old(self).read_gene,
            ) ==> (if old(self).read_gene {
                &&& final(self).index_show == old(self).index_show
                &&& final(self).index_show_gene matches Some(genes)
                &&& genes@.len() == old(self).abc_len
                &&& forall|i: int|
                    0 <= i < genes@.len() ==> gene_reads(#[trigger] genes@[i], record(bytes@, 16, i))
            } else {
                &&& final(self).index_show_gene == old(self).index_show_gene
                &&& final(self).index_show matches Some(slots)
                &&& slots@.len() == old(self).abc_len
                &&& forall|i: int|
                    0 <= i < slots@.len() ==> #[trigger] slots@[i] == le_value(record(bytes@, 8, i))
            }),
    {
        if self.index_pos.is_none() {
            return ;
        }
        let n: usize = self.abc_len;
        if self.read_gene {
            if bytes.len() != n * GENE_SIZE {
                return ;
            }
            let mut genes: Vec<Gene> = Vec::with_capacity(n);
            let mut i: usize = 0;
            while i < n
                invariant
                    n < ABC_CAPACITY,
                    bytes@.len() == n * 16,
                    i <= n,
                    genes@.len() == i,
                    forall|j: int|
                        0 <= j < i ==> gene_reads(#[trigger] genes@[j], record(bytes@, 16, j)),
                decreases n - i,
            {
                let part: &[u8] = slice_subrange(bytes, i * GENE_SIZE, i * GENE_SIZE + GENE_SIZE);
                genes.push(Gene::from_binary(part));
                i = i + 1;
            }
            self.index_show_gene = Some(genes);
        } else {
            if bytes.len() != n * 8 {
                return ;
            }
            let mut slots: Vec<u64> = Vec::with_capacity(n);
            let mut i: usize = 0;
            while i < n
                invariant
                    n < ABC_CAPACITY,
                    bytes@.len() == n * 8,
                    i <= n,
                    slots@.len() == i,
                    forall|j: int|
                        0 <= j < i ==> #[trigger] slots@[j] == le_value(record(bytes@, 8, j)),
                decreases n - i,
            {
                let part: &[u8] = slice_subrange(bytes, i * 8, i * 8 + 8);
                slots.push(read_le(part));
                i = i + 1;
            }
            self.index_show = Some(slots);
        }
    }

    /// A pointer of the cache is picked: its index table is to be read as
    /// pointers, and a table of genes is no longer in view.
    pub fn select_cache(&mut self, pointer: u64)
        ensures
            final(self).index_pos == Some(pointer),
            !final(self).read_gene,
            final(self).index_show_gene is None,
            final(self).index_show == old(self).index_show,
            final(self).window == old(self).window,
            final(self).cache_data == old(self).cache_data,
            final(self).cached_cache_ui == old(self).cached_cache_ui,
            final(self).same_meta(*old(self)),
    {
        self.index_pos = Some(pointer);
        self.read_gene = false;
        self.index_show_gene = None;
    }

    /// A pointer of an index table is picked: what it points at is to be
    /// read as genes.
    pub fn select_index(&mut self, pointer: u64)
        ensures
            final(self).index_pos == Some(pointer),
            final(self).read_gene,
            final(self).index_show == old(self).index_show,
            final(self).index_show_gene == old(self).index_show_gene,
            final(self).window == old(self).window,
            final(self).cache_data == old(self).cache_data,
            final(self).cached_cache_ui == old(self).cached_cache_ui,
            final(self).same_meta(*old(self)),
    {
        self.read_gene = true;
        self.index_pos = Some(pointer);
    }
}

/// The bytes of one slot of an index table.
pub open spec fn slot_size(read_gene: bool) -> nat {
    if read_gene {
        16
    } else {
        8
    }
}

/// Writes the label of a cache entry.
pub fn label(idx: u64, width: u64) -> (s: String)
    ensures
        s@ == cache_label(idx as nat, width as nat),
{
    let digits: String = format_unsigned(idx);
    let len: usize = digits.as_str().unicode_len();
    let mut s: String = String::from_str("09 ");
    let mut k: u64 = len as u64;
    assert(s@ =~= "09 "@ + zeros(0));
    while k < width
        invariant
            len == digits@.len(),
            len <= k,
            k <= width || k == len,
            s@ == "09 "@ + zeros(k - len),
        decreases width - k,
    {
        proof {
            reveal_strlit("0");
        }
        s.append("0");
        assert(s@ =~= "09 "@ + zeros(k + 1 - len));
        k = k + 1;
    }
    assert(zeros(k - len) =~= zeros(width - len));
    s.append(digits.as_str());
    s
}

} // verus!
