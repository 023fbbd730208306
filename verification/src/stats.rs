//! A summary of the numbers in one column of a window.

use crate::num::{decimal, format_unsigned, format_wide, signed_decimal};
use vstd::prelude::*;

verus! {

/// The count, the least, the greatest and the sum of some numbers.
#[derive(Debug, Clone, Copy, PartialEq, Eq, Structural)]
pub struct Stats {
    pub count: usize,
    pub min: i128,
    pub max: i128,
    pub sum: i128,
}

/// The sum of the first `n` of `keys`.
pub open spec fn sum_of(keys: Seq<i128>, n: nat) -> int
    decreases n,
{
    if n == 0 || n > keys.len() {
        0
    } else {
        sum_of(keys, (n - 1) as nat) + keys[n - 1]
    }
}

/// `stats` sums up the first `n` of `keys`, of which there is at least
/// one.
pub open spec fn sums_up(stats: Stats, keys: Seq<i128>, n: nat) -> bool {
    &&& 1 <= n <= keys.len()
    &&& stats.count == n
    &&& stats.sum == sum_of(keys, n)
    &&& exists|i: int| 0 <= i < n && #[trigger] keys[i] == stats.min
    &&& exists|i: int| 0 <= i < n && #[trigger] keys[i] == stats.max
    &&& forall|i: int| 0 <= i < n ==> stats.min <= #[trigger] keys[i] <= stats.max
}

/// The text of a summary: the count, the least, the greatest, and the
/// mean rounded down.
pub open spec fn stats_text(stats: Stats) -> Seq<char> {
    "count: "@ + decimal(stats.count as nat) + ", min: "@ + signed_decimal(stats.min as int)
        + ", max: "@ + signed_decimal(stats.max as int) + ", avg: "@ + signed_decimal(
        stats.spec_mean(),
    )
}

impl Stats {
    /// The mean, rounded down.
    pub open spec fn spec_mean(self) -> int {
        self.sum as int / self.count as int
    }

    /// The mean, rounded down.
    pub fn mean(&self) -> (m: i128)
        requires
            self.count > 0,
        ensures
            m == self.spec_mean(),
    {
        let count: i128 = self.count as i128;
        if self.sum >= 0 {
            self.sum / count
        } else {
            let t: i128 = -(self.sum + 1);
            let q: i128 = t / count;
            assert(self.sum as int / count as int == -(t as int / count as int) - 1)
                by (nonlinear_arith)
                requires
                    count > 0,
                    t >= 0,
                    self.sum == -(t + 1),
            ;
            -q - 1
        }
    }

    /// Writes the summary.
    pub fn text(&self) -> (s: String)
        requires
            self.count > 0,
        ensures
            s@ == stats_text(*self),
    {
        let mut s: String = String::from_str("count: ");
        s.append(format_unsigned(self.count as u64).as_str());
        s.append(", min: ");
        s.append(format_wide(self.min).as_str());
        s.append(", max: ");
        s.append(format_wide(self.max).as_str());
        s.append(", avg: ");
        s.append(format_wide(self.mean()).as_str());
        assert(s@ =~= stats_text(*self));
        s
    }
}

/// Sums up `keys`. `None` where there is no key, or where the sum is more
/// than an `i128` can say.
pub fn number_stats(keys: &Vec<i128>) -> (r: Option<Stats>)
    ensures
        match r {
            Some(stats) => sums_up(stats, keys@, keys@.len()),
            None => keys@.len() == 0 || exists|n: nat|
                1 <= n <= keys@.len() && !(i128::MIN <= #[trigger] sum_of(keys@, n) <= i128::MAX),
        },
{
    let n: usize = keys.len();
    if n == 0 {
        return None;
    }
    let mut stats: Stats = Stats { count: 1, min: keys[0], max: keys[0], sum: keys[0] };
    assert(sum_of(keys@, 1) == keys@[0]) by {
        assert(sum_of(keys@, 0) == 0);
    }
    let mut i: usize = 1;
    while i < n
        invariant
            n == keys@.len(),
            1 <= i <= n,
            sums_up(stats, keys@, i as nat),
        decreases n - i,
    {
        let key: i128 = keys[i];
        let sum: i128 = match stats.sum.checked_add(key) {
            Some(sum) => sum,
            None => {
                assert(!(i128::MIN <= sum_of(keys@, (i + 1) as nat) <= i128::MAX));
                return None;
            },
        };
        let ghost before = stats;
        stats = Stats {
            count: i + 1,
            min: if key < stats.min {
                key
            } else {
                stats.min
            },
            max: if key > stats.max {
                key
            } else {
                stats.max
            },
            sum,
        };
        proof {
            let a = choose|a: int| 0 <= a < i && #[trigger] keys@[a] == before.min;
            let b = choose|b: int| 0 <= b < i && #[trigger] keys@[b] == before.max;
            if key < before.min {
                assert(keys@[i as int] == stats.min);
            } else {
                assert(keys@[a] == stats.min);
            }
            if key > before.max {
                assert(keys@[i as int] == stats.max);
            } else {
                assert(keys@[b] == stats.max);
            }
        }
        i = i + 1;
    }
    Some(stats)
}

} // verus!
