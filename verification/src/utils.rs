//! Names: those that a path gives a store, and finding a name in a list.

use vstd::prelude::*;

verus! {

/// The index of the last part that reads `data`, or -1 where none does.
pub open spec fn last_data(parts: Seq<Seq<char>>) -> int
    decreases parts.len(),
{
    if parts.len() == 0 {
        -1
    } else if parts.last() == "data"@ {
        parts.len() - 1
    } else {
        last_data(parts.drop_last())
    }
}

/// The part at `i`, or no text where there is none.
pub open spec fn part_at(parts: Seq<Seq<char>>, i: int) -> Seq<char> {
    if 0 <= i < parts.len() {
        parts[i]
    } else {
        Seq::empty()
    }
}

/// The names that a path gives a store. `parts` are the path's ordinary
/// components, first to last. The scope is the part before the last `data`
/// directory, the store's name the part after it, and the title what
/// follows the name: one part with a slash behind it, or two with a slash
/// between them. A path without a `data` directory has no scope and is
/// read from its first part on.
pub open spec fn db_name_of(parts: Seq<Seq<char>>) -> (Seq<char>, Seq<char>, Seq<char>) {
    let k = last_data(parts);
    let scope = part_at(parts, k - 1);
    let name = part_at(parts, k + 1);
    let left = parts.len() - (k + 1);
    let title = if left <= 1 {
        Seq::empty()
    } else {
        parts[k + 2] + "/"@ + part_at(parts, k + 3)
    };
    (scope, name, title)
}

/// `last_data` is the one index that reads `data` and has no `data` behind
/// it; -1 where no part reads so.
pub proof fn lemma_last_data(parts: Seq<Seq<char>>)
    ensures
        -1 <= last_data(parts) < parts.len(),
        last_data(parts) >= 0 ==> parts[last_data(parts)] == "data"@,
        forall|j: int| last_data(parts) < j < parts.len() ==> parts[j] != "data"@,
    decreases parts.len(),
{
    if parts.len() > 0 && parts.last() != "data"@ {
        let front = parts.drop_last();
        lemma_last_data(front);
        assert forall|j: int| last_data(parts) < j < parts.len() implies parts[j] != "data"@ by {
            if j < parts.len() - 1 {
                assert(parts[j] == front[j]);
            }
        }
    }
}

/// An index that reads `data` with no `data` behind it is `last_data`.
pub proof fn lemma_last_data_is(parts: Seq<Seq<char>>, k: int)
    requires
        -1 <= k < parts.len(),
        k >= 0 ==> parts[k] == "data"@,
        forall|j: int| k < j < parts.len() ==> parts[j] != "data"@,
    ensures
        last_data(parts) == k,
{
    lemma_last_data(parts);
    let m = last_data(parts);
    if m > k {
        assert(parts[m] != "data"@);
    }
    if k > m {
        assert(parts[k] != "data"@);
    }
}

/// The texts of the parts.
pub open spec fn texts(parts: Seq<String>) -> Seq<Seq<char>> {
    Seq::new(parts.len(), |i: int| parts[i]@)
}

/// Reads the scope, the name and the title of a store off the ordinary
/// components of its path.
pub fn db_name(parts: &[String]) -> (r: (String, String, String))
    ensures
        (r.0@, r.1@, r.2@) == db_name_of(texts(parts@)),
{
    let n: usize = parts.len();
    let data: String = String::from_str("data");
    let ghost all = texts(parts@);
    let mut i: usize = n;
    let mut found: bool = false;
    while i > 0 && !found
        invariant
            n == parts@.len(),
            i <= n,
            all == texts(parts@),
            data@ == "data"@,
            found ==> i < n && all[i as int] == "data"@,
            forall|j: int| (if found { i + 1 } else { i as int }) <= j < n ==> all[j] != "data"@,
        decreases i + (if found { 0int } else { 1int }),
    {
        if parts[i - 1] == data {
            found = true;
        }
        i = i - 1;
    }
    // the part behind the last `data`, or the first part
    let first: usize = if found {
        i + 1
    } else {
        0
    };
    proof {
        let k: int = if found {
            i as int
        } else {
            -1
        };
        lemma_last_data_is(all, k);
        assert(first == k + 1);
    }
    let scope: String = if found && i > 0 {
        parts[i - 1].clone()
    } else {
        String::new()
    };
    let name: String = if first < n {
        parts[first].clone()
    } else {
        String::new()
    };
    let title: String = if n - first <= 1 {
        String::new()
    } else {
        let mut t: String = parts[first + 1].clone();
        t.append("/");
        if n - first > 2 {
            t.append(parts[first + 2].as_str());
        }
        assert(t@ =~= db_name_of(all).2);
        t
    };
    assert(scope@ =~= db_name_of(all).0);
    assert(name@ =~= db_name_of(all).1);
    assert(title@ =~= db_name_of(all).2);
    (scope, name, title)
}

/// The first index at which `name` stands among the first `n` of `names`,
/// or -1 where it does not stand there.
pub open spec fn index_of(names: Seq<Seq<char>>, name: Seq<char>, n: nat) -> int
    decreases n,
{
    if n == 0 || n > names.len() {
        -1
    } else if index_of(names, name, (n - 1) as nat) >= 0 {
        index_of(names, name, (n - 1) as nat)
    } else if names[n - 1] == name {
        n - 1
    } else {
        -1
    }
}

/// `index_of` is the first index at which the name stands.
pub proof fn lemma_index_of(names: Seq<Seq<char>>, name: Seq<char>, n: nat)
    requires
        n <= names.len(),
    ensures
        -1 <= index_of(names, name, n) < n,
        index_of(names, name, n) >= 0 ==> names[index_of(names, name, n)] == name,
        forall|j: int|
            0 <= j < (if index_of(names, name, n) >= 0 {
                index_of(names, name, n)
            } else {
                n as int
            }) ==> names[j] != name,
    decreases n,
{
    if n > 0 {
        lemma_index_of(names, name, (n - 1) as nat);
    }
}

/// An index at which the name stands, with no such index before it, is
/// `index_of`; and -1 is where the name stands nowhere.
pub proof fn lemma_index_of_is(names: Seq<Seq<char>>, name: Seq<char>, r: int)
    requires
        -1 <= r < names.len(),
        r >= 0 ==> names[r] == name,
        forall|j: int|
            0 <= j < (if r >= 0 {
                r
            } else {
                names.len() as int
            }) ==> names[j] != name,
    ensures
        index_of(names, name, names.len()) == r,
{
    lemma_index_of(names, name, names.len());
    let m = index_of(names, name, names.len());
    if m >= 0 && (r < 0 || m < r) {
        assert(names[m] != name);
    }
    if r >= 0 && (m < 0 || r < m) {
        assert(names[r] != name);
    }
}

/// Where two lists agree on their first `n` names, `index_of` agrees on
/// them.
pub proof fn lemma_index_prefix(a: Seq<Seq<char>>, b: Seq<Seq<char>>, name: Seq<char>, n: nat)
    requires
        n <= a.len(),
        n <= b.len(),
        forall|j: int| 0 <= j < n ==> a[j] == b[j],
    ensures
        index_of(a, name, n) == index_of(b, name, n),
    decreases n,
{
    if n > 0 {
        lemma_index_prefix(a, b, name, (n - 1) as nat);
    }
}

} // verus!
