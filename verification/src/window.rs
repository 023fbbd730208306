//! A bounded window over the records of a file.
//!
//! The window holds the rows that were last read, in file order, beside the
//! order in which they are shown. It decides what is to be read; the caller
//! reads and hands the bytes back.

use crate::error::ShahVisualError;
use crate::field::{Field, Scalar};
use crate::sort::{file_order, identity_order, sort_order, stable_order};
use crate::value::Value;
use vstd::prelude::*;
use vstd::slice::{slice_subrange, slice_to_vec};

verus! {

/// What is to be read from the file: `length` bytes from `offset` on.
#[derive(Debug, Clone, Copy, PartialEq, Eq, Structural)]
pub struct ReadPlan {
    pub offset: u64,
    pub length: u64,
}

/// The field by which the rows are ordered: where its bytes start in a
/// record, and its kind.
#[derive(Debug, Clone, Copy, PartialEq, Eq, Structural)]
pub struct SortBy {
    pub start: usize,
    pub scalar: Scalar,
}

/// A window over fixed-size records that follow a header.
pub struct Window {
    /// The bytes before the first record.
    pub header: u64,
    /// The bytes of one record.
    pub item_size: u64,
    /// The records in the file.
    pub total: u64,
    /// The records to pass over.
    pub skip: Value<u64>,
    /// The records to show.
    pub show: Value<u64>,
    /// The rows last read, in file order.
    pub rows: Vec<Vec<u8>>,
    /// The order in which the rows are shown.
    pub order: Vec<usize>,
    /// The field by which the rows are ordered, if any.
    pub sort_by: Option<SortBy>,
}

/// The whole records that a file of `file_len` bytes holds behind its
/// header.
pub open spec fn total_rows(file_len: nat, header: nat, item_size: nat) -> nat {
    ((file_len - header) / item_size as int) as nat
}

/// `skip` brought into the file: at most the last record, and 0 where
/// there is none.
pub open spec fn clamped_skip(skip: u64, total: u64) -> u64 {
    if total == 0 {
        0
    } else if skip > total - 1 {
        (total - 1) as u64
    } else {
        skip
    }
}

/// `show` brought into the file: at least one record and at most all, and
/// 0 where there is none.
pub open spec fn clamped_show(show: u64, total: u64) -> u64 {
    if total == 0 {
        0
    } else if show < 1 {
        1
    } else if show > total {
        total
    } else {
        show
    }
}

/// The rows that a window of `skip` and `show` holds, both already
/// clamped: `show` of them, or as many as follow `skip`.
pub open spec fn row_count(skip: u64, show: u64, total: u64) -> nat {
    if show <= total - skip {
        show as nat
    } else {
        (total - skip) as nat
    }
}

/// The `i`-th record of `item_size` bytes in `bytes`.
pub open spec fn record(bytes: Seq<u8>, item_size: nat, i: int) -> Seq<u8> {
    bytes.subrange(i * item_size, (i + 1) * item_size)
}

/// The key of each row by the field `sort`.
pub open spec fn row_keys(rows: Seq<Vec<u8>>, sort: SortBy) -> Seq<i128> {
    Seq::new(
        rows.len(),
        |i: int|
            sort.scalar.key(
                rows[i]@.subrange(sort.start as int, sort.start + sort.scalar.spec_width()),
            ) as i128,
    )
}

/// After a refresh a window holds as many rows as `show` asks for, or as
/// many as follow `skip`, whichever is fewer; and `skip` points at a
/// record, or is 0 where there is none.
pub proof fn lemma_fresh_window(w: Window)
    requires
        w.fresh(),
    ensures
        w.rows@.len() == vstd::math::min(w.show.main as int, w.total - w.skip.main),
        0 <= w.skip.main <= vstd::math::max(w.total - 1, 0),
        w.show.main <= w.total,
        w.total > 0 ==> w.show.main >= 1,
{
}

/// A window that is ordered by a field shows its rows by ascending key,
/// and rows of equal key in the order of the file.
pub proof fn lemma_sorted_window_is_stable(w: Window, i: int, j: int)
    requires
        w.wf(),
        w.sort_by is Some,
        0 <= i < j < w.rows@.len(),
    ensures
        row_keys(w.rows@, w.sort_by->0)[w.order@[i] as int] <= row_keys(
            w.rows@,
            w.sort_by->0,
        )[w.order@[j] as int],
        row_keys(w.rows@, w.sort_by->0)[w.order@[i] as int] == row_keys(
            w.rows@,
            w.sort_by->0,
        )[w.order@[j] as int] ==> w.order@[i] < w.order@[j],
        w.order@[i] != w.order@[j],
{
    let keys = row_keys(w.rows@, w.sort_by->0);
    assert(crate::sort::row_before(keys, w.order@[i] as int, w.order@[j] as int));
}

impl Window {
    /// The window is sound: the records lie within what a `u64` can
    /// address, every row is one record long, the field to order by lies
    /// within a record, and the rows are shown in file order or, where a
    /// field is chosen, in the stable order by that field.
    pub open spec fn wf(&self) -> bool {
        &&& self.header + self.total * self.item_size <= u64::MAX
        &&& self.rows_fit()
        &&& match self.sort_by {
            None => file_order(self.order@, self.rows@.len()),
            Some(sort) => {
                &&& sort.start + sort.scalar.spec_width() <= self.item_size
                &&& stable_order(self.order@, row_keys(self.rows@, sort))
            },
        }
    }

    /// Every row is one record long.
    pub open spec fn rows_fit(&self) -> bool {
        forall|i: int|
            0 <= i < self.rows@.len() ==> (#[trigger] self.rows@[i])@.len() == self.item_size
    }

    /// `skip` or `show` differs from what was last observed.
    pub open spec fn dirty(&self) -> bool {
        self.skip.main != self.skip.past || self.show.main != self.show.past
    }

    /// The window is clamped and filled: `skip` points at a record, or is 0
    /// where there is none, and the rows are as many as `show` asks for, or
    /// as many as follow `skip`.
    pub open spec fn fresh(&self) -> bool {
        &&& self.skip.main == clamped_skip(self.skip.main, self.total)
        &&& self.show.main == clamped_show(self.show.main, self.total)
        &&& self.rows@.len() == row_count(self.skip.main, self.show.main, self.total)
    }

    /// An empty window over a file that is not measured yet: it asks for
    /// the first ten records.
    pub fn new(header: u64, item_size: u64) -> (w: Self)
        ensures
            w.wf(),
            w.header == header,
            w.item_size == item_size,
            w.total == 0,
            w.skip.main == 0 && w.skip.past == 0,
            w.show.main == 10 && w.show.past == 10,
            w.rows@.len() == 0,
            w.sort_by is None,
    {
        Window {
            header,
            item_size,
            total: 0,
            skip: Value { main: 0, past: 0 },
            show: Value { main: 10, past: 10 },
            rows: Vec::new(),
            order: Vec::new(),
            sort_by: None,
        }
    }

    /// Measures the file anew: the total is the number of whole records
    /// behind the header. The rows stay as they are until the next refresh.
    pub fn set_total(&mut self, file_len: u64)
        requires
            old(self).wf(),
            old(self).item_size > 0,
            file_len >= old(self).header,
        ensures
            final(self).wf(),
            final(self).total == total_rows(
                file_len as nat,
                old(self).header as nat,
                old(self).item_size as nat,
            ),
            final(self).header == old(self).header,
            final(self).item_size == old(self).item_size,
            final(self).skip == old(self).skip,
            final(self).show == old(self).show,
            final(self).sort_by == old(self).sort_by,
            final(self).rows == old(self).rows,
            final(self).order == old(self).order,
    {
        let total: u64 = (file_len - self.header) / self.item_size;
        assert(total * self.item_size <= file_len - self.header) by (nonlinear_arith)
            requires
                total == (file_len - self.header) / self.item_size as int,
                self.item_size > 0,
                file_len >= self.header,
        ;
        self.total = total;
    }

    /// Asks for `show` records after the first `skip`. It takes effect at
    /// the next refresh.
    pub fn set_window(&mut self, skip: u64, show: u64)
        ensures
            final(self).skip.main == skip,
            final(self).show.main == show,
            final(self).skip.past == old(self).skip.past,
            final(self).show.past == old(self).show.past,
            final(self).header == old(self).header,
            final(self).item_size == old(self).item_size,
            final(self).total == old(self).total,
            final(self).rows == old(self).rows,
            final(self).order == old(self).order,
            final(self).sort_by == old(self).sort_by,
    {
        self.skip.main = skip;
        self.show.main = show;
    }

    /// Tells whether `skip` or `show` differs from what was last observed,
    /// and records both as observed.
    pub fn changed(&mut self) -> (r: bool)
        ensures
            r == old(self).dirty(),
            !final(self).dirty(),
            final(self).skip.main == old(self).skip.main,
            final(self).show.main == old(self).show.main,
            final(self).skip.past == old(self).skip.main,
            final(self).show.past == old(self).show.main,
            final(self).header == old(self).header,
            final(self).item_size == old(self).item_size,
            final(self).total == old(self).total,
            final(self).rows == old(self).rows,
            final(self).order == old(self).order,
            final(self).sort_by == old(self).sort_by,
    {
        let skip_changed: bool = self.skip.main != self.skip.past;
        let show_changed: bool = self.show.main != self.show.past;
        self.skip.past = self.skip.main;
        self.show.past = self.show.main;
        skip_changed || show_changed
    }

    /// Brings `skip` and `show` into the file.
    fn clamp(&mut self)
        ensures
            final(self).skip.main == clamped_skip(old(self).skip.main, old(self).total),
            final(self).show.main == clamped_show(old(self).show.main, old(self).total),
            final(self).skip.past == final(self).skip.main,
            final(self).show.past == final(self).show.main,
            final(self).header == old(self).header,
            final(self).item_size == old(self).item_size,
            final(self).total == old(self).total,
            final(self).rows == old(self).rows,
            final(self).order == old(self).order,
            final(self).sort_by == old(self).sort_by,
    {
        let total: u64 = self.total;
        let skip: u64 = if total == 0 {
            0
        } else if self.skip.main > total - 1 {
            total - 1
        } else {
            self.skip.main
        };
        let show: u64 = if total == 0 {
            0
        } else if self.show.main < 1 {
            1
        } else if self.show.main > total {
            total
        } else {
            self.show.main
        };
        self.skip = Value { main: skip, past: skip };
        self.show = Value { main: show, past: show };
    }

    /// The rows that the window holds after a refresh.
    fn count(&self) -> (n: u64)
        requires
            self.skip.main == clamped_skip(self.skip.main, self.total),
            self.show.main == clamped_show(self.show.main, self.total),
        ensures
            n == row_count(self.skip.main, self.show.main, self.total),
            self.skip.main + n <= self.total,
    {
        let rest: u64 = self.total - self.skip.main;
        if self.show.main <= rest {
            self.show.main
        } else {
            rest
        }
    }

    /// The first half of a refresh: clamps `skip` and `show` and says where
    /// in the file the window's records lie.
    pub fn plan(&mut self) -> (p: ReadPlan)
        requires
            old(self).wf(),
        ensures
            final(self).wf(),
            final(self).skip.main == clamped_skip(old(self).skip.main, old(self).total),
            final(self).show.main == clamped_show(old(self).show.main, old(self).total),
            final(self).skip.past == final(self).skip.main,
            final(self).show.past == final(self).show.main,
            final(self).header == old(self).header,
            final(self).item_size == old(self).item_size,
            final(self).total == old(self).total,
            final(self).rows == old(self).rows,
            final(self).order == old(self).order,
            final(self).sort_by == old(self).sort_by,
            p.offset == old(self).header + final(self).skip.main * old(self).item_size,
            p.length == row_count(final(self).skip.main, final(self).show.main, old(self).total)
                * old(self).item_size,
    {
        self.clamp();
        let n: u64 = self.count();
        let skip: u64 = self.skip.main;
        proof {
            let size = self.item_size as int;
            let total = self.total as int;
            assert(skip * size + n * size == (skip + n) * size) by (nonlinear_arith);
            assert((skip + n) * size <= total * size) by (nonlinear_arith)
                requires
                    skip + n <= total,
                    size >= 0,
            ;
            assert(0 <= skip * size) by (nonlinear_arith)
                requires
                    size >= 0,
            ;
            assert(0 <= n * size) by (nonlinear_arith)
                requires
                    size >= 0,
            ;
        }
        ReadPlan { offset: self.header + skip * self.item_size, length: n * self.item_size }
    }

    /// The second half of a refresh: takes the bytes that were read. Where
    /// they are exactly the window's records, the rows are those records,
    /// in file order, shown in the order of the field chosen. Where they
    /// are fewer or more, the read was short: no row is kept, and the error
    /// says so.
    pub fn load(&mut self, bytes: &[u8]) -> (r: Result<(), ShahVisualError>)
        requires
            old(self).wf(),
        ensures
            final(self).wf(),
            final(self).skip.main == clamped_skip(old(self).skip.main, old(self).total),
            final(self).show.main == clamped_show(old(self).show.main, old(self).total),
            final(self).skip.past == final(self).skip.main,
            final(self).show.past == final(self).show.main,
            final(self).header == old(self).header,
            final(self).item_size == old(self).item_size,
            final(self).total == old(self).total,
            final(self).sort_by == old(self).sort_by,
            r is Ok <==> bytes@.len() == row_count(
                final(self).skip.main,
                final(self).show.main,
                old(self).total,
            ) * old(self).item_size,
            r is Err ==> r == Err::<(), ShahVisualError>(ShahVisualError::Io),
            r is Err ==> final(self).rows@.len() == 0,
            r is Ok ==> final(self).fresh() && forall|i: int|
                0 <= i < final(self).rows@.len() ==> (#[trigger] final(self).rows@[i])@ == record(
                    bytes@,
                    old(self).item_size as nat,
                    i,
                ),
    {
        self.clamp();
        let n: u64 = self.count();
        let size: u64 = self.item_size;
        proof {
            assert(n * size <= self.total * size) by (nonlinear_arith)
                requires
                    n <= self.total,
                    size >= 0,
            ;
            assert(0 <= n * size) by (nonlinear_arith)
                requires
                    size >= 0,
            ;
        }
        self.rows = Vec::new();
        self.order = Vec::new();
        if bytes.len() as u64 != n * size {
            proof {
                if let Some(sort) = self.sort_by {
                    assert(row_keys(self.rows@, sort) =~= Seq::<i128>::empty());
                }
            }
            return Err(ShahVisualError::Io);
        }
        let width: usize = if n == 0 {
            0
        } else {
            assert(size <= n * size) by (nonlinear_arith)
                requires
                    n >= 1,
                    size >= 0,
            ;
            size as usize
        };
        let count: usize = if width == 0 {
            0
        } else {
            assert(n <= n * size) by (nonlinear_arith)
                requires
                    size >= 1,
                    n >= 0,
            ;
            n as usize
        };
        let mut rows: Vec<Vec<u8>> = Vec::new();
        let mut i: usize = 0;
        while i < count
            invariant
                i <= count,
                count <= n,
                count > 0 ==> count == n && width == size,
                bytes@.len() == n * size,
                bytes@.len() <= usize::MAX,
                rows@.len() == i,
                forall|j: int|
                    0 <= j < i ==> (#[trigger] rows@[j])@ == record(bytes@, size as nat, j),
            decreases count - i,
        {
            assert((i + 1) * width <= count * width) by (nonlinear_arith)
                requires
                    i < count,
            ;
            assert(i * width + width == (i + 1) * width) by (nonlinear_arith);
            assert(0 <= i * width) by (nonlinear_arith);
            let part: &[u8] = slice_subrange(bytes, i * width, i * width + width);
            rows.push(slice_to_vec(part));
            i = i + 1;
        }
        if count == 0 && n > 0 {
            // Records of no bytes: each row is empty.
            let mut k: u64 = 0;
            while k < n
                invariant
                    k <= n,
                    size == 0,
                    rows@.len() == k,
                    forall|j: int|
                        0 <= j < k ==> (#[trigger] rows@[j])@ == record(bytes@, size as nat, j),
                decreases n - k,
            {
                let empty: Vec<u8> = Vec::new();
                assert(empty@ =~= record(bytes@, 0, k as int));
                rows.push(empty);
                k = k + 1;
            }
        }
        assert forall|j: int| 0 <= j < rows@.len() implies (#[trigger] rows@[j])@.len()
            == size by {
            assert((j + 1) * size <= n * size) by (nonlinear_arith)
                requires
                    j < n,
                    size >= 0,
            ;
            assert((j + 1) * size - j * size == size) by (nonlinear_arith);
            assert(0 <= j * size) by (nonlinear_arith)
                requires
                    j >= 0,
                    size >= 0,
            ;
        }
        self.rows = rows;
        self.reorder();
        Ok(())
    }

    /// The key of each row by the field `sort`, in file order.
    pub fn keys(&self, sort: SortBy) -> (keys: Vec<i128>)
        requires
            self.rows_fit(),
            sort.start + sort.scalar.spec_width() <= self.item_size,
        ensures
            keys@ == row_keys(self.rows@, sort),
    {
        let n: usize = self.rows.len();
        let width: usize = match sort.scalar {
            Scalar::Number(kind) => kind.width(),
            Scalar::Bool => 1,
        };
        let mut keys: Vec<i128> = Vec::with_capacity(n);
        let mut i: usize = 0;
        while i < n
            invariant
                n == self.rows@.len(),
                i <= n,
                keys@.len() == i,
                width == sort.scalar.spec_width(),
                sort.start + width <= self.item_size,
                forall|j: int| 0 <= j < n ==> (#[trigger] self.rows@[j])@.len() == self.item_size,
                forall|j: int| 0 <= j < i ==> keys@[j] == #[trigger] row_keys(self.rows@, sort)[j],
            decreases n - i,
        {
            let row: &Vec<u8> = &self.rows[i];
            let row_len: usize = row.len();
            assert(row_len == self.item_size);
            let part: &[u8] = slice_subrange(row.as_slice(), sort.start, sort.start + width);
            keys.push(sort.scalar.sort_key(part));
            i = i + 1;
        }
        assert(keys@ =~= row_keys(self.rows@, sort));
        keys
    }

    /// Shows the rows in the order that `sort_by` asks for.
    fn reorder(&mut self)
        requires
            old(self).rows_fit(),
            old(self).header + old(self).total * old(self).item_size <= u64::MAX,
            old(self).sort_by matches Some(sort) ==> sort.start + sort.scalar.spec_width() <= old(
                self
            ).item_size,
        ensures
            final(self).wf(),
            final(self).header == old(self).header,
            final(self).item_size == old(self).item_size,
            final(self).total == old(self).total,
            final(self).skip == old(self).skip,
            final(self).show == old(self).show,
            final(self).rows == old(self).rows,
            final(self).sort_by == old(self).sort_by,
    {
        match self.sort_by {
            None => {
                self.order = identity_order(self.rows.len());
            },
            Some(sort) => {
                let keys: Vec<i128> = self.keys(sort);
                self.order = sort_order(&keys);
            },
        }
    }

    /// Orders the rows by `field`, stably and ascending, where the field
    /// holds one number or one boolean and lies within a record. Another
    /// field changes nothing.
    pub fn sort(&mut self, field: &Field)
        requires
            old(self).wf(),
        ensures
            final(self).wf(),
            final(self).header == old(self).header,
            final(self).item_size == old(self).item_size,
            final(self).total == old(self).total,
            final(self).skip == old(self).skip,
            final(self).show == old(self).show,
            final(self).rows == old(self).rows,
            final(self).sort_by == (match field.number_sort {
                Some(scalar) => if field.range.start + scalar.spec_width() <= old(self).item_size {
                    Some(SortBy { start: field.range.start, scalar })
                } else {
                    old(self).sort_by
                },
                None => old(self).sort_by,
            }),
    {
        match field.number_sort {
            Some(scalar) => {
                let width: usize = match scalar {
                    Scalar::Number(kind) => kind.width(),
                    Scalar::Bool => 1,
                };
                let fits: bool = match (field.range.start as u64).checked_add(width as u64) {
                    Some(end) => end <= self.item_size,
                    None => false,
                };
                if fits {
                    self.sort_by = Some(SortBy { start: field.range.start, scalar });
                    self.reorder();
                }
            },
            None => {},
        }
    }

    /// Shows the rows in file order again.
    pub fn clear_sort(&mut self)
        requires
            old(self).wf(),
        ensures
            final(self).wf(),
            final(self).sort_by is None,
            final(self).header == old(self).header,
            final(self).item_size == old(self).item_size,
            final(self).total == old(self).total,
            final(self).skip == old(self).skip,
            final(self).show == old(self).show,
            final(self).rows == old(self).rows,
    {
        self.sort_by = None;
        self.reorder();
    }

    /// The row shown at place `i`.
    pub fn row(&self, i: usize) -> (r: &Vec<u8>)
        requires
            self.wf(),
            i < self.rows@.len(),
        ensures
            *r == self.rows@[self.order@[i as int] as int],
            r@.len() == self.item_size,
    {
        proof {
            if let Some(sort) = self.sort_by {
                assert(row_keys(self.rows@, sort).len() == self.rows@.len());
            }
        }
        &self.rows[self.order[i]]
    }

    /// The number of rows held.
    pub fn len(&self) -> (n: usize)
        ensures
            n == self.rows@.len(),
    {
        self.rows.len()
    }
}

} // verus!
