//! The files that can be opened, grouped by scope and by store.

use crate::utils::{
    db_name, db_name_of, index_of, lemma_index_of, lemma_index_of_is, lemma_index_prefix, texts,
};
use vstd::prelude::*;

verus! {

/// The files of one store: each with its title and its path.
#[derive(Debug)]
pub struct DbGroup {
    pub name: String,
    pub files: Vec<(String, String)>,
}

/// The stores of one scope.
#[derive(Debug)]
pub struct Scope {
    pub name: String,
    pub dbs: Vec<DbGroup>,
}

/// The files that can be opened. A scope stands once, and so does a store
/// within its scope; both stand in the order in which they first came.
#[derive(Debug)]
pub struct DbPaths {
    pub scopes: Vec<Scope>,
}

/// The titles and paths of a store's files, as texts.
pub type Files = Seq<(Seq<char>, Seq<char>)>;

/// The names of the stores.
pub open spec fn group_names(dbs: Seq<DbGroup>) -> Seq<Seq<char>> {
    Seq::new(dbs.len(), |i: int| dbs[i].name@)
}

/// The names of the scopes.
pub open spec fn scope_names(scopes: Seq<Scope>) -> Seq<Seq<char>> {
    Seq::new(scopes.len(), |i: int| scopes[i].name@)
}

/// The files as texts.
pub open spec fn files_view(files: Seq<(String, String)>) -> Files {
    Seq::new(files.len(), |i: int| (files[i].0@, files[i].1@))
}

/// The stores by name, each with its files.
pub open spec fn groups_view(dbs: Seq<DbGroup>) -> Map<Seq<char>, Files> {
    Map::new(
        |name: Seq<char>| index_of(group_names(dbs), name, dbs.len()) >= 0,
        |name: Seq<char>| files_view(dbs[index_of(group_names(dbs), name, dbs.len())].files@),
    )
}

/// The scopes by name, each with its stores.
pub open spec fn scopes_view(scopes: Seq<Scope>) -> Map<Seq<char>, Map<Seq<char>, Files>> {
    Map::new(
        |name: Seq<char>| index_of(scope_names(scopes), name, scopes.len()) >= 0,
        |name: Seq<char>| groups_view(scopes[index_of(scope_names(scopes), name, scopes.len())].dbs@),
    )
}

/// The map with one more file under `name`.
pub open spec fn with_file(groups: Map<Seq<char>, Files>, name: Seq<char>, file: (
    Seq<char>,
    Seq<char>,
)) -> Map<Seq<char>, Files> {
    groups.insert(
        name,
        (if groups.contains_key(name) {
            groups[name]
        } else {
            Seq::empty()
        }).push(file),
    )
}

/// The map with one more file under `scope` and `name`.
pub open spec fn with_scoped_file(
    scopes: Map<Seq<char>, Map<Seq<char>, Files>>,
    scope: Seq<char>,
    name: Seq<char>,
    file: (Seq<char>, Seq<char>),
) -> Map<Seq<char>, Map<Seq<char>, Files>> {
    scopes.insert(
        scope,
        with_file(
            if scopes.contains_key(scope) {
                scopes[scope]
            } else {
                Map::empty()
            },
            name,
            file,
        ),
    )
}

/// The names with `name` behind them, unless it stands among them already.
pub open spec fn with_name(names: Seq<Seq<char>>, name: Seq<char>) -> Seq<Seq<char>> {
    if index_of(names, name, names.len()) >= 0 {
        names
    } else {
        names.push(name)
    }
}

/// Finds the store named `name`.
fn find_group(dbs: &Vec<DbGroup>, name: &String) -> (r: Option<usize>)
    ensures
        match r {
            Some(i) => i < dbs@.len() && i == index_of(group_names(dbs@), name@, dbs@.len()),
            None => index_of(group_names(dbs@), name@, dbs@.len()) == -1,
        },
{
    let mut i: usize = 0;
    while i < dbs.len()
        invariant
            i <= dbs@.len(),
            forall|j: int| 0 <= j < i ==> group_names(dbs@)[j] != name@,
        decreases dbs@.len() - i,
    {
        if dbs[i].name == *name {
            proof {
                lemma_index_of_is(group_names(dbs@), name@, i as int);
            }
            return Some(i);
        }
        i = i + 1;
    }
    proof {
        lemma_index_of_is(group_names(dbs@), name@, -1);
    }
    None
}

/// Finds the scope named `name`.
fn find_scope(scopes: &Vec<Scope>, name: &String) -> (r: Option<usize>)
    ensures
        match r {
            Some(i) => i < scopes@.len() && i == index_of(
                scope_names(scopes@),
                name@,
                scopes@.len(),
            ),
            None => index_of(scope_names(scopes@), name@, scopes@.len()) == -1,
        },
{
    let mut i: usize = 0;
    while i < scopes.len()
        invariant
            i <= scopes@.len(),
            forall|j: int| 0 <= j < i ==> scope_names(scopes@)[j] != name@,
        decreases scopes@.len() - i,
    {
        if scopes[i].name == *name {
            proof {
                lemma_index_of_is(scope_names(scopes@), name@, i as int);
            }
            return Some(i);
        }
        i = i + 1;
    }
    proof {
        lemma_index_of_is(scope_names(scopes@), name@, -1);
    }
    None
}

/// Adds a file to the store named `name`, which is new where no store has
/// that name yet.
fn add_to_groups(dbs: &mut Vec<DbGroup>, name: String, title: String, path: String)
    ensures
        groups_view(final(dbs)@) == with_file(groups_view(old(dbs)@), name@, (title@, path@)),
        group_names(final(dbs)@) == with_name(group_names(old(dbs)@), name@),
{
    let ghost before = dbs@;
    let ghost names = group_names(before);
    match find_group(dbs, &name) {
        Some(i) => {
            let mut group: DbGroup = dbs.remove(i);
            let ghost files = group.files@;
            group.files.push((title, path));
            assert(files_view(group.files@) =~= files_view(files).push((title@, path@)));
            dbs.insert(i, group);
            proof {
                assert(group_names(dbs@) =~= names);
                lemma_index_of(names, name@, names.len());
                assert forall|k: Seq<char>| #[trigger]
                    groups_view(dbs@).contains_key(k) == with_file(
                        groups_view(before),
                        name@,
                        (title@, path@),
                    ).contains_key(k) by {}
                assert forall|k: Seq<char>| #[trigger] groups_view(dbs@).contains_key(k) implies
                    groups_view(dbs@)[k] == with_file(
                        groups_view(before),
                        name@,
                        (title@, path@),
                    )[k] by {
                    let at = index_of(names, k, names.len());
                    lemma_index_of(names, k, names.len());
                    if k != name@ {
                        assert(at != i);
                        assert(dbs@[at] == before[at]);
                    }
                }
                assert(groups_view(dbs@) =~= with_file(
                    groups_view(before),
                    name@,
                    (title@, path@),
                ));
            }
        },
        None => {
            let mut files: Vec<(String, String)> = Vec::new();
            files.push((title, path));
            assert(files_view(files@) =~= Seq::<(Seq<char>, Seq<char>)>::empty().push(
                (title@, path@),
            ));
            dbs.push(DbGroup { name, files });
            proof {
                let after = group_names(dbs@);
                assert(after =~= names.push(name@));
                assert forall|k: Seq<char>|
                    index_of(after, k, after.len()) == (if index_of(names, k, names.len()) >= 0 {
                        index_of(names, k, names.len())
                    } else if k == name@ {
                        names.len() as int
                    } else {
                        -1
                    }) by {
                    lemma_index_prefix(after, names, k, names.len());
                }
                assert forall|k: Seq<char>| #[trigger]
                    groups_view(dbs@).contains_key(k) == with_file(
                        groups_view(before),
                        name@,
                        (title@, path@),
                    ).contains_key(k) by {}
                assert forall|k: Seq<char>| #[trigger] groups_view(dbs@).contains_key(k) implies
                    groups_view(dbs@)[k] == with_file(
                        groups_view(before),
                        name@,
                        (title@, path@),
                    )[k] by {
                    let at = index_of(after, k, after.len());
                    lemma_index_of(after, k, after.len());
                    lemma_index_of(names, k, names.len());
                    if k != name@ {
                        assert(at == index_of(names, k, names.len()));
                        assert(dbs@[at] == before[at]);
                    } else {
                        assert(index_of(names, k, names.len()) < 0);
                    }
                }
                assert(groups_view(dbs@) =~= with_file(
                    groups_view(before),
                    name@,
                    (title@, path@),
                ));
            }
        },
    }
}

impl View for DbPaths {
    type V = Map<Seq<char>, Map<Seq<char>, Files>>;

    open spec fn view(&self) -> Self::V {
        scopes_view(self.scopes@)
    }
}

impl DbPaths {
    /// No file yet.
    pub fn new() -> (r: Self)
        ensures
            r@ == Map::<Seq<char>, Map<Seq<char>, Files>>::empty(),
            r.scopes@.len() == 0,
    {
        let r: DbPaths = DbPaths { scopes: Vec::new() };
        assert(r@ =~= Map::<Seq<char>, Map<Seq<char>, Files>>::empty());
        r
    }

    /// Adds the file at `path`, whose ordinary components are `parts`: it
    /// comes under the scope and the store that [`db_name`] reads off the
    /// parts, with the title that it reads, behind the files that stand
    /// there already. A scope that is new comes behind the scopes that
    /// there are.
    pub fn add_file_path(&mut self, parts: &[String], path: String)
        ensures
            final(self)@ == with_scoped_file(
                old(self)@,
                db_name_of(texts(parts@)).0,
                db_name_of(texts(parts@)).1,
                (db_name_of(texts(parts@)).2, path@),
            ),
            scope_names(final(self).scopes@) == with_name(
                scope_names(old(self).scopes@),
                db_name_of(texts(parts@)).0,
            ),
    {
        let (scope, name, title): (String, String, String) = db_name(parts);
        let ghost before = self.scopes@;
        let ghost names = scope_names(before);
        let ghost file = (title@, path@);
        let ghost key = scope@;
        let ghost db = name@;
        match find_scope(&self.scopes, &scope) {
            Some(i) => {
                let mut found: Scope = self.scopes.remove(i);
                add_to_groups(&mut found.dbs, name, title, path);
                self.scopes.insert(i, found);
                proof {
                    assert(scope_names(self.scopes@) =~= names);
                    lemma_index_of(names, key, names.len());
                    let want = with_scoped_file(scopes_view(before), key, db, file);
                    assert forall|k: Seq<char>| #[trigger]
                        scopes_view(self.scopes@).contains_key(k) == want.contains_key(k) by {}
                    assert forall|k: Seq<char>| #[trigger]
                        scopes_view(self.scopes@).contains_key(k) implies scopes_view(
                        self.scopes@,
                    )[k] == want[k] by {
                        let at = index_of(names, k, names.len());
                        lemma_index_of(names, k, names.len());
                        if k != key {
                            assert(at != i);
                            assert(self.scopes@[at] == before[at]);
                        }
                    }
                    assert(scopes_view(self.scopes@) =~= want);
                }
            },
            None => {
                let mut dbs: Vec<DbGroup> = Vec::new();
                assert(groups_view(dbs@) =~= Map::<Seq<char>, Files>::empty());
                add_to_groups(&mut dbs, name, title, path);
                self.scopes.push(Scope { name: scope, dbs });
                proof {
                    let after = scope_names(self.scopes@);
                    assert(after =~= names.push(key));
                    assert forall|k: Seq<char>|
                        index_of(after, k, after.len()) == (if index_of(names, k, names.len())
                            >= 0 {
                            index_of(names, k, names.len())
                        } else if k == key {
                            names.len() as int
                        } else {
                            -1
                        }) by {
                        lemma_index_prefix(after, names, k, names.len());
                    }
                    let want = with_scoped_file(scopes_view(before), key, db, file);
                    assert forall|k: Seq<char>| #[trigger]
                        scopes_view(self.scopes@).contains_key(k) == want.contains_key(k) by {}
                    assert forall|k: Seq<char>| #[trigger]
                        scopes_view(self.scopes@).contains_key(k) implies scopes_view(
                        self.scopes@,
                    )[k] == want[k] by {
                        let at = index_of(after, k, after.len());
                        lemma_index_of(after, k, after.len());
                        lemma_index_of(names, k, names.len());
                        if k != key {
                            assert(at == index_of(names, k, names.len()));
                            assert(self.scopes@[at] == before[at]);
                        } else {
                            assert(index_of(names, k, names.len()) < 0);
                        }
                    }
                    assert(scopes_view(self.scopes@) =~= want);
                }
            },
        }
    }
}

/// The most levels of directories that are gone into.
pub const MAX_DEPTH: usize = 5;

/// The number at which a count of entries stops a walk.
pub const MAX_TOTAL: usize = 1000;

/// Whether a path at `depth`, reached after `total` steps down, is looked
/// at, and if so how many entries its directory may count before the walk
/// leaves it: `None` past the fifth level and from the thousandth step on.
pub fn walk_budget(depth: usize, total: usize) -> (r: Option<usize>)
    ensures
        r == (if total >= MAX_TOTAL || depth > MAX_DEPTH {
            None
        } else {
            Some((MAX_TOTAL - total) as usize)
        }),
{
    if total >= MAX_TOTAL {
        return None;
    }
    if depth > MAX_DEPTH {
        return None;
    }
    Some(MAX_TOTAL - total)
}

/// Whether a directory that has counted `n` entries is left: when that is
/// more than its budget.
pub fn over_budget(n: usize, budget: usize) -> (r: bool)
    ensures
        r == (n > budget),
{
    n > budget
}

} // verus!
