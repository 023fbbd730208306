//! The order in which a window shows its rows.

use vstd::prelude::*;

verus! {

/// Row `a` comes before row `b`: its key is smaller, or the keys are equal
/// and it stands earlier in the file.
pub open spec fn row_before(keys: Seq<i128>, a: int, b: int) -> bool {
    keys[a] < keys[b] || (keys[a] == keys[b] && a < b)
}

/// `order` lists rows of `keys`, each at most once, so that every row comes
/// before the rows listed after it.
pub open spec fn ordered(order: Seq<usize>, keys: Seq<i128>) -> bool {
    &&& forall|i: int| 0 <= i < order.len() ==> (#[trigger] order[i]) < keys.len()
    &&& forall|i: int, j: int|
        0 <= i < j < order.len() ==> row_before(
            keys,
            #[trigger] order[i] as int,
            #[trigger] order[j] as int,
        )
}

/// `order` is the stable ascending order of the rows by `keys`: it lists as
/// many rows as there are, by ascending key, and rows of equal key in file
/// order. There is one such order.
pub open spec fn stable_order(order: Seq<usize>, keys: Seq<i128>) -> bool {
    order.len() == keys.len() && ordered(order, keys)
}

/// `order` lists the rows in file order.
pub open spec fn file_order(order: Seq<usize>, n: nat) -> bool {
    order.len() == n && forall|i: int| 0 <= i < n ==> #[trigger] order[i] == i
}

/// The rows in file order.
pub fn identity_order(n: usize) -> (order: Vec<usize>)
    ensures
        file_order(order@, n as nat),
{
    let mut order: Vec<usize> = Vec::with_capacity(n);
    let mut i: usize = 0;
    while i < n
        invariant
            i <= n,
            order@.len() == i,
            forall|j: int| 0 <= j < i ==> #[trigger] order@[j] == j,
        decreases n - i,
    {
        order.push(i);
        i = i + 1;
    }
    order
}

/// `part` lists rows from `lo` up to `hi`, each at most once, so that every
/// row comes before the rows listed after it.
pub open spec fn ordered_within(part: Seq<usize>, keys: Seq<i128>, lo: int, hi: int) -> bool {
    &&& forall|i: int| 0 <= i < part.len() ==> lo <= (#[trigger] part[i]) < hi
    &&& forall|i: int, j: int|
        0 <= i < j < part.len() ==> row_before(
            keys,
            #[trigger] part[i] as int,
            #[trigger] part[j] as int,
        )
}

/// Merges two ordered lists, the first of rows below `mid` and the second
/// of rows from `mid` on, into one.
fn merge(
    keys: &Vec<i128>,
    left: &Vec<usize>,
    right: &Vec<usize>,
    lo: usize,
    mid: usize,
    hi: usize,
) -> (out: Vec<usize>)
    requires
        lo <= mid <= hi <= keys@.len(),
        ordered_within(left@, keys@, lo as int, mid as int),
        ordered_within(right@, keys@, mid as int, hi as int),
        left@.len() + right@.len() <= usize::MAX,
    ensures
        out@.len() == left@.len() + right@.len(),
        ordered_within(out@, keys@, lo as int, hi as int),
{
    let mut out: Vec<usize> = Vec::with_capacity(left.len() + right.len());
    let mut a: usize = 0;
    let mut b: usize = 0;
    while a < left.len() || b < right.len()
        invariant
            lo <= mid <= hi <= keys@.len(),
            ordered_within(left@, keys@, lo as int, mid as int),
            ordered_within(right@, keys@, mid as int, hi as int),
            a <= left@.len(),
            b <= right@.len(),
            out@.len() == a + b,
            ordered_within(out@, keys@, lo as int, hi as int),
            forall|i: int, j: int|
                0 <= i < out@.len() && a <= j < left@.len() ==> row_before(
                    keys@,
                    #[trigger] out@[i] as int,
                    #[trigger] left@[j] as int,
                ),
            forall|i: int, j: int|
                0 <= i < out@.len() && b <= j < right@.len() ==> row_before(
                    keys@,
                    #[trigger] out@[i] as int,
                    #[trigger] right@[j] as int,
                ),
        decreases left@.len() - a + right@.len() - b,
    {
        let from_left: bool = if a == left.len() {
            false
        } else if b == right.len() {
            true
        } else {
            keys[left[a]] <= keys[right[b]]
        };
        let ghost before = out@;
        if from_left {
            let row: usize = left[a];
            out.push(row);
            a = a + 1;
            proof {
                assert forall|i: int, j: int|
                    0 <= i < out@.len() && a <= j < left@.len() implies row_before(
                    keys@,
                    #[trigger] out@[i] as int,
                    #[trigger] left@[j] as int,
                ) by {
                    if i < before.len() {
                        assert(out@[i] == before[i]);
                    } else {
                        assert(row_before(keys@, left@[a - 1] as int, left@[j] as int));
                    }
                }
                assert forall|i: int, j: int|
                    0 <= i < out@.len() && b <= j < right@.len() implies row_before(
                    keys@,
                    #[trigger] out@[i] as int,
                    #[trigger] right@[j] as int,
                ) by {
                    if i < before.len() {
                        assert(out@[i] == before[i]);
                    } else {
                        assert(row < mid <= right@[j]);
                        if j > b {
                            assert(row_before(keys@, right@[b as int] as int, right@[j] as int));
                        }
                    }
                }
            }
        } else {
            let row: usize = right[b];
            out.push(row);
            b = b + 1;
            proof {
                assert forall|i: int, j: int|
                    0 <= i < out@.len() && b <= j < right@.len() implies row_before(
                    keys@,
                    #[trigger] out@[i] as int,
                    #[trigger] right@[j] as int,
                ) by {
                    if i < before.len() {
                        assert(out@[i] == before[i]);
                    } else {
                        assert(row_before(keys@, right@[b - 1] as int, right@[j] as int));
                    }
                }
                assert forall|i: int, j: int|
                    0 <= i < out@.len() && a <= j < left@.len() implies row_before(
                    keys@,
                    #[trigger] out@[i] as int,
                    #[trigger] left@[j] as int,
                ) by {
                    if i < before.len() {
                        assert(out@[i] == before[i]);
                    } else {
                        assert(left@[j] < mid <= row);
                        assert(row_before(keys@, left@[a as int] as int, left@[j] as int) || j == a);
                    }
                }
            }
        }
        proof {
            assert forall|i: int, j: int| 0 <= i < j < out@.len() implies row_before(
                keys@,
                #[trigger] out@[i] as int,
                #[trigger] out@[j] as int,
            ) by {
                if j < before.len() {
                    assert(out@[i] == before[i] && out@[j] == before[j]);
                } else {
                    assert(out@[i] == before[i]);
                }
            }
        }
    }
    out
}

/// The stable ascending order of the rows from `lo` up to `hi`.
fn sort_range(keys: &Vec<i128>, lo: usize, hi: usize) -> (order: Vec<usize>)
    requires
        lo <= hi <= keys@.len(),
    ensures
        order@.len() == hi - lo,
        ordered_within(order@, keys@, lo as int, hi as int),
    decreases hi - lo,
{
    if hi - lo <= 1 {
        let mut order: Vec<usize> = Vec::new();
        if hi - lo == 1 {
            order.push(lo);
        }
        return order;
    }
    let mid: usize = lo + (hi - lo) / 2;
    let left: Vec<usize> = sort_range(keys, lo, mid);
    let right: Vec<usize> = sort_range(keys, mid, hi);
    merge(keys, &left, &right, lo, mid, hi)
}

/// The stable ascending order of the rows by their keys.
pub fn sort_order(keys: &Vec<i128>) -> (order: Vec<usize>)
    ensures
        stable_order(order@, keys@),
{
    sort_range(keys, 0, keys.len())
}

/// In a stable order, rows of equal key stand as they stand in the file.
pub proof fn lemma_stable_order_keeps_file_order(order: Seq<usize>, keys: Seq<i128>, i: int, j: int)
    requires
        stable_order(order, keys),
        0 <= i < j < order.len(),
        keys[order[i] as int] == keys[order[j] as int],
    ensures
        order[i] < order[j],
{
}

/// In a stable order the keys ascend.
pub proof fn lemma_stable_order_ascends(order: Seq<usize>, keys: Seq<i128>, i: int, j: int)
    requires
        stable_order(order, keys),
        0 <= i <= j < order.len(),
    ensures
        keys[order[i] as int] <= keys[order[j] as int],
{
}

/// A row has fewer rows before it than a row that comes after it has.
proof fn lemma_fewer_rows_before(keys: Seq<i128>, x: int, y: int)
    requires
        0 <= x < keys.len(),
        0 <= y < keys.len(),
        row_before(keys, x, y),
        rows_before(keys, x).finite(),
        rows_before(keys, y).finite(),
    ensures
        rows_before(keys, x).len() < rows_before(keys, y).len(),
{
    let low = rows_before(keys, x);
    let high = rows_before(keys, y);
    assert(!low.contains(x));
    assert(high.contains(x));
    assert(low.insert(x).subset_of(high));
    vstd::set_lib::lemma_len_subset(low.insert(x), high);
}

/// A stable order lists no row twice.
pub proof fn lemma_stable_order_distinct(order: Seq<usize>, keys: Seq<i128>, i: int, j: int)
    requires
        stable_order(order, keys),
        0 <= i < order.len(),
        0 <= j < order.len(),
        i != j,
    ensures
        order[i] != order[j],
{
    if i < j {
        assert(row_before(keys, order[i] as int, order[j] as int));
    } else {
        assert(row_before(keys, order[j] as int, order[i] as int));
    }
}

/// There is one stable order: two that meet the definition are equal.
pub proof fn lemma_stable_order_unique(a: Seq<usize>, b: Seq<usize>, keys: Seq<i128>)
    requires
        stable_order(a, keys),
        stable_order(b, keys),
    ensures
        a == b,
{
    lemma_stable_order_covers(a, keys);
    lemma_stable_order_covers(b, keys);
    assert forall|i: int| 0 <= i < a.len() implies a[i] == b[i] by {
        lemma_rank(a, keys, i);
        lemma_rank(b, keys, i);
        lemma_listed_count(a, keys, i);
        lemma_listed_count(b, keys, i);
        let x = a[i] as int;
        let y = b[i] as int;
        if row_before(keys, x, y) {
            lemma_fewer_rows_before(keys, x, y);
        }
        if row_before(keys, y, x) {
            lemma_fewer_rows_before(keys, y, x);
        }
    }
    assert(a =~= b);
}

/// The rows that come before row `r`.
pub open spec fn rows_before(keys: Seq<i128>, r: int) -> Set<int> {
    Set::new(|x: int| 0 <= x < keys.len() && row_before(keys, x, r))
}

/// `order` lists row `r`.
pub open spec fn lists(order: Seq<usize>, r: int) -> bool {
    exists|i: int| 0 <= i < order.len() && #[trigger] order[i] == r
}

/// A stable order lists every row.
pub proof fn lemma_stable_order_covers(order: Seq<usize>, keys: Seq<i128>)
    requires
        stable_order(order, keys),
    ensures
        forall|r: int| 0 <= r < keys.len() ==> #[trigger] lists(order, r),
{
    let listed = listed_upto(order, order.len() as int);
    lemma_listed_count(order, keys, order.len() as int);
    let all = Set::new(|r: int| 0 <= r < keys.len());
    lemma_range_set(keys.len() as int);
    assert(listed.subset_of(all)) by {
        assert forall|x: int| listed.contains(x) implies all.contains(x) by {
            let i = choose|i: int| 0 <= i < order.len() && #[trigger] order[i] == x;
        }
    }
    vstd::set_lib::lemma_subset_equality(listed, all);
    assert forall|r: int| 0 <= r < keys.len() implies #[trigger] lists(order, r) by {
        assert(all.contains(r));
        assert(listed.contains(r));
    }
}

/// The rows that the first `n` places of `order` list.
pub open spec fn listed_upto(order: Seq<usize>, n: int) -> Set<int> {
    Set::new(|r: int| exists|i: int| 0 <= i < n && #[trigger] order[i] == r)
}

/// The first `n` places list `n` rows.
proof fn lemma_listed_count(order: Seq<usize>, keys: Seq<i128>, n: int)
    requires
        stable_order(order, keys),
        0 <= n <= order.len(),
    ensures
        listed_upto(order, n).finite(),
        listed_upto(order, n).len() == n,
    decreases n,
{
    if n == 0 {
        assert(listed_upto(order, 0) =~= Set::<int>::empty());
    } else {
        lemma_listed_count(order, keys, n - 1);
        let prev = listed_upto(order, n - 1);
        let r = order[n - 1] as int;
        assert(!prev.contains(r)) by {
            if prev.contains(r) {
                let i = choose|i: int| 0 <= i < n - 1 && #[trigger] order[i] == r;
                lemma_stable_order_distinct(order, keys, i, n - 1);
            }
        }
        assert(listed_upto(order, n) =~= prev.insert(r)) by {
            assert forall|x: int| listed_upto(order, n).contains(x) implies prev.insert(
                r,
            ).contains(x) by {
                let i = choose|i: int| 0 <= i < n && #[trigger] order[i] == x;
                if i < n - 1 {
                    assert(prev.contains(x));
                }
            }
            assert forall|x: int| prev.insert(r).contains(x) implies listed_upto(
                order,
                n,
            ).contains(x) by {
                if x == r {
                    assert(order[n - 1] == x);
                } else {
                    let i = choose|i: int| 0 <= i < n - 1 && #[trigger] order[i] == x;
                    assert(0 <= i < n && order[i] == x);
                }
            }
        }
    }
}

/// The numbers below `n` are `n` in number.
proof fn lemma_range_set(n: int)
    requires
        0 <= n,
    ensures
        Set::new(|r: int| 0 <= r < n).finite(),
        Set::new(|r: int| 0 <= r < n).len() == n,
    decreases n,
{
    if n == 0 {
        assert(Set::new(|r: int| 0 <= r < 0) =~= Set::<int>::empty());
    } else {
        lemma_range_set(n - 1);
        assert(Set::new(|r: int| 0 <= r < n) =~= Set::new(|r: int| 0 <= r < n - 1).insert(n - 1));
    }
}

/// The row at place `i` of a stable order has exactly `i` rows before it.
proof fn lemma_rank(order: Seq<usize>, keys: Seq<i128>, i: int)
    requires
        stable_order(order, keys),
        0 <= i < order.len(),
        forall|r: int| 0 <= r < keys.len() ==> #[trigger] lists(order, r),
    ensures
        rows_before(keys, order[i] as int) == listed_upto(order, i),
        listed_upto(order, i).len() == i,
{
    lemma_listed_count(order, keys, i);
    let target = order[i] as int;
    assert(rows_before(keys, target) =~= listed_upto(order, i)) by {
        assert forall|x: int| rows_before(keys, target).contains(x) implies listed_upto(
            order,
            i,
        ).contains(x) by {
            assert(lists(order, x));
            let k = choose|k: int| 0 <= k < order.len() && #[trigger] order[k] == x;
            if k > i {
                assert(row_before(keys, order[i] as int, order[k] as int));
            }
            assert(k != i);
            assert(0 <= k < i && order[k] == x);
        }
        assert forall|x: int| listed_upto(order, i).contains(x) implies rows_before(
            keys,
            target,
        ).contains(x) by {
            let k = choose|k: int| 0 <= k < i && #[trigger] order[k] == x;
            assert(row_before(keys, order[k] as int, order[i] as int));
        }
    }
}

} // verus!
