//! A store of fixed-size records behind a head that describes them.

use crate::error::{DbError, ShahVisualError};
use crate::field::{lemma_projected_field_fits, project, projection, Field, Shown, ShownView};
use crate::head::{read_u16, read_u64, u16_at, u64_at};
use crate::num::{decimal, format_unsigned};
use crate::schema::{fields_size, lemma_fields_size_grows, schema_decoding, Schema, SchemaModel};
use crate::show_schema::{drawing, show_model_value, views, Draw};
use crate::stats::{number_stats, sums_up, Stats};
use crate::text::{field_text, read_text};
use crate::utils::{db_name, db_name_of, index_of, lemma_index_of_is, texts};
use crate::window::{row_keys, ReadPlan, SortBy, Window};
use vstd::prelude::*;
use vstd::slice::slice_subrange;

verus! {

/// The bytes of an entity store's head: the common head, the item size and
/// the schema descriptor.
pub const ENTITY_HEAD_SIZE: usize = 4168;

/// The bytes before the first record: the head and the progress counters.
pub const ENTITY_META: u64 = 4184;

/// How far a migration of the store has come.
#[derive(Debug, Clone, Copy, PartialEq, Eq, Structural)]
pub struct EntityKochProg {
    pub total: u64,
    pub prog: u64,
}

/// An entity store, opened.
pub struct EntityDb {
    pub name: String,
    pub scope: String,
    pub prefix: String,
    pub revision: u16,
    pub schema: SchemaModel,
    pub koch_prog: EntityKochProg,
    /// The bytes of one record.
    pub item_size: u64,
    /// The records in view.
    pub window: Window,
    /// The row that is shown in detail, if any.
    pub active_item: Option<usize>,
    pub fields: Vec<Field>,
}

/// The item size that a head declares.
pub open spec fn head_item_size(head: Seq<u8>) -> u64 {
    u64_at(head, 64)
}

/// The schema descriptor in a head.
pub open spec fn head_schema(head: Seq<u8>) -> Seq<u8> {
    head.subrange(72, 4168)
}

/// The progress counters behind a head.
pub open spec fn head_koch_prog(head: Seq<u8>) -> EntityKochProg {
    EntityKochProg { total: u64_at(head, 4168), prog: u64_at(head, 4176) }
}

/// A store with this schema and this declared item size can be opened: the
/// schema is a model, and its fields take exactly the item size, which a
/// `usize` can say.
pub open spec fn opens(schema: Schema, item_size: u64) -> bool {
    schema is Model && schema.spec_size() == item_size && item_size <= usize::MAX
}

/// The prefix of a store: the directory that holds it, unless that is the
/// store's own name.
pub open spec fn prefix_of(name: Seq<char>, dir: Seq<char>) -> Seq<char> {
    if name == dir {
        Seq::empty()
    } else {
        dir
    }
}

/// The title of a store: its prefix and a slash where it has one, its
/// name, a dot and its revision.
pub open spec fn title_of(prefix: Seq<char>, name: Seq<char>, revision: u16) -> Seq<char> {
    if prefix.len() == 0 {
        name + "."@ + decimal(revision as nat)
    } else {
        prefix + "/"@ + name + "."@ + decimal(revision as nat)
    }
}

/// `r` is what opening the store that starts with `head` gives. A head
/// that is shorter than the meta region is a short read. A descriptor that
/// `shah` refuses, and a schema with which the store cannot be opened, is
/// an invalid schema. Any other head opens.
pub open spec fn init_result(
    r: Result<EntityDb, ShahVisualError>,
    head: Seq<u8>,
    parts: Seq<Seq<char>>,
) -> bool {
    if head.len() < ENTITY_META {
        r == Err::<EntityDb, ShahVisualError>(ShahVisualError::Io)
    } else {
        match schema_decoding(head_schema(head)) {
            None => r == Err::<EntityDb, ShahVisualError>(
                ShahVisualError::Shah(DbError::InvalidDbSchema),
            ),
            Some(schema) => match r {
                Ok(db) => opens(schema, head_item_size(head)) && db.wf() && db.opened(
                    schema->Model_0,
                    head,
                    parts,
                ),
                Err(e) => !opens(schema, head_item_size(head)) && e == ShahVisualError::Shah(
                    DbError::InvalidDbSchema,
                ),
            },
        }
    }
}

impl EntityDb {
    /// The store is sound: its window is, over records of the item size
    /// behind the store's meta region, and its fields are the model's, laid
    /// out over exactly one record.
    pub open spec fn wf(&self) -> bool {
        &&& self.window.wf()
        &&& self.window.header == ENTITY_META
        &&& self.window.item_size == self.item_size
        &&& projection(self.fields@, self.schema)
        &&& fields_size(self.schema.fields@, self.schema.fields@.len()) == self.item_size
    }

    /// The two stores have the same names, revision, schema and item
    /// size: what is read off the head and the path when a store is
    /// opened, and what nothing changes afterwards.
    pub open spec fn same_head(&self, other: EntityDb) -> bool {
        &&& self.name == other.name
        &&& self.scope == other.scope
        &&& self.prefix == other.prefix
        &&& self.revision == other.revision
        &&& self.schema == other.schema
        &&& self.item_size == other.item_size
    }

    /// The field `field` is the one that `sort` orders by: it starts where
    /// `sort` starts and rows can be ordered by it as `sort` says.
    pub open spec fn sorts_by(&self, field: int, sort: SortBy) -> bool {
        self.fields@[field].range.start == sort.start && self.fields@[field].number_sort == Some(
            sort.scalar,
        )
    }

    /// The store is as it is when just opened from `head`, with `model` as
    /// its schema and `parts` as its path: nothing read, nothing chosen,
    /// every field switched on.
    pub open spec fn opened(&self, model: SchemaModel, head: Seq<u8>, parts: Seq<Seq<char>>) -> bool {
        &&& self.schema == model
        &&& self.item_size == head_item_size(head)
        &&& self.revision == u16_at(head, 14)
        &&& self.name@ == field_text(head.subrange(16, 64))
        &&& self.scope@ == db_name_of(parts).0
        &&& self.prefix@ == prefix_of(self.name@, db_name_of(parts).1)
        &&& self.koch_prog == head_koch_prog(head)
        &&& self.active_item is None
        &&& self.window.total == 0
        &&& self.window.skip.main == 0
        &&& self.window.show.main == 10
        &&& !self.window.dirty()
        &&& self.window.rows@.len() == 0
        &&& self.window.sort_by is None
        &&& forall|i: int| 0 <= i < self.fields@.len() ==> (#[trigger] self.fields@[i]).visible
    }

    /// Opens a store whose schema is already decoded. The schema has to be
    /// a model whose fields take exactly the item size that the head
    /// declares; any other is an invalid schema.
    pub fn from_schema(schema: Schema, head: &[u8], parts: &[String]) -> (r: Result<
        EntityDb,
        ShahVisualError,
    >)
        requires
            head@.len() >= ENTITY_META,
        ensures
            match r {
                Ok(db) => opens(schema, head_item_size(head@)) && db.wf() && db.opened(
                    schema->Model_0,
                    head@,
                    texts(parts@),
                ),
                Err(e) => !opens(schema, head_item_size(head@)) && e == ShahVisualError::Shah(
                    DbError::InvalidDbSchema,
                ),
            },
    {
        let item_size: u64 = read_u64(head, 64);
        let model: SchemaModel = match schema {
            Schema::Model(m) => m,
            _ => {
                return Err(ShahVisualError::Shah(DbError::InvalidDbSchema));
            },
        };
        let fields: Vec<Field> = match project(&model) {
            Some(fields) => fields,
            None => {
                return Err(ShahVisualError::Shah(DbError::InvalidDbSchema));
            },
        };
        let n: usize = fields.len();
        let size: usize = if n == 0 {
            0
        } else {
            fields[n - 1].range.end
        };
        assert(size == fields_size(model.fields@, model.fields@.len())) by {
            if n > 0 {
                assert(fields@[n - 1].projects(model, n - 1));
            }
        }
        if size as u64 != item_size {
            return Err(ShahVisualError::Shah(DbError::InvalidDbSchema));
        }
        let head_name: String = read_text(slice_subrange(head, 16, 64));
        let (scope, dir, _title): (String, String, String) = db_name(parts);
        let prefix: String = if head_name == dir {
            String::new()
        } else {
            dir
        };
        let koch_prog: EntityKochProg = EntityKochProg {
            total: read_u64(head, 4168),
            prog: read_u64(head, 4176),
        };
        Ok(
            EntityDb {
                name: head_name,
                scope,
                prefix,
                revision: read_u16(head, 14),
                schema: model,
                koch_prog,
                item_size,
                window: Window::new(ENTITY_META, item_size),
                active_item: None,
                fields,
            },
        )
    }

    /// Opens the store whose file starts with `head`. `parts` are the
    /// ordinary components of the file's path. A head that is shorter than
    /// the meta region is a short read. The schema descriptor is decoded by
    /// `shah`; what follows is [`EntityDb::from_schema`].
    pub fn init(head: &[u8], parts: &[String]) -> (r: Result<EntityDb, ShahVisualError>)
        ensures
            init_result(r, head@, texts(parts@)),
    {
        if (head.len() as u64) < ENTITY_META {
            return Err(ShahVisualError::Io);
        }
        let descriptor: &[u8] = slice_subrange(head, 72, ENTITY_HEAD_SIZE);
        match Schema::decode(descriptor) {
            Ok(schema) => EntityDb::from_schema(schema, head, parts),
            Err(e) => Err(e),
        }
    }

    /// The title of the store.
    pub fn title(&self) -> (s: String)
        ensures
            s@ == title_of(self.prefix@, self.name@, self.revision),
    {
        let mut s: String = String::new();
        if self.prefix.as_str().unicode_len() != 0 {
            s.append(self.prefix.as_str());
            s.append("/");
        }
        s.append(self.name.as_str());
        s.append(".");
        s.append(format_unsigned(self.revision as u64).as_str());
        assert(s@ =~= title_of(self.prefix@, self.name@, self.revision));
        s
    }

    /// Measures the file anew.
    pub fn update_total(&mut self, file_len: u64)
        requires
            old(self).wf(),
            old(self).item_size > 0,
            file_len >= ENTITY_META,
        ensures
            final(self).wf(),
            final(self).window.total == crate::window::total_rows(
                file_len as nat,
                ENTITY_META as nat,
                old(self).item_size as nat,
            ),
            final(self).window.rows == old(self).window.rows,
            final(self).window.order == old(self).window.order,
            final(self).window.skip == old(self).window.skip,
            final(self).window.show == old(self).window.show,
            final(self).window.sort_by == old(self).window.sort_by,
            final(self).fields == old(self).fields,
            final(self).same_head(*old(self)),
            final(self).koch_prog == old(self).koch_prog,
            final(self).active_item == old(self).active_item,
    {
        self.window.set_total(file_len);
    }

    /// Takes the sixteen bytes of the progress counters as read anew;
    /// fewer are a short read.
    pub fn update_koch_prog(&mut self, bytes: &[u8]) -> (r: Result<(), ShahVisualError>)
        ensures
            bytes@.len() < 16 ==> r == Err::<(), ShahVisualError>(ShahVisualError::Io),
            bytes@.len() < 16 ==> *final(self) == *old(self),
            bytes@.len() >= 16 ==> r is Ok && final(self).koch_prog == (EntityKochProg {
                total: u64_at(bytes@, 0),
                prog: u64_at(bytes@, 8),
            }),
            final(self).window == old(self).window,
            final(self).fields == old(self).fields,
            final(self).same_head(*old(self)),
            final(self).active_item == old(self).active_item,
    {
        if bytes.len() < 16 {
            return Err(ShahVisualError::Io);
        }
        self.koch_prog = EntityKochProg { total: read_u64(bytes, 0), prog: read_u64(bytes, 8) };
        Ok(())
    }

    /// What is to be read for the window as it is asked for now; `skip` and
    /// `show` are clamped first.
    pub fn plan_items(&mut self) -> (p: ReadPlan)
        requires
            old(self).wf(),
        ensures
            final(self).wf(),
            final(self).window.skip.main == crate::window::clamped_skip(
                old(self).window.skip.main,
                old(self).window.total,
            ),
            final(self).window.show.main == crate::window::clamped_show(
                old(self).window.show.main,
                old(self).window.total,
            ),
            !final(self).window.dirty(),
            final(self).window.total == old(self).window.total,
            final(self).window.rows == old(self).window.rows,
            final(self).window.order == old(self).window.order,
            final(self).window.sort_by == old(self).window.sort_by,
            p.offset == ENTITY_META + final(self).window.skip.main * old(self).item_size,
            p.length == crate::window::row_count(
                final(self).window.skip.main,
                final(self).window.show.main,
                old(self).window.total,
            ) * old(self).item_size,
            final(self).fields == old(self).fields,
            final(self).same_head(*old(self)),
            final(self).koch_prog == old(self).koch_prog,
            final(self).active_item == old(self).active_item,
    {
        self.window.plan()
    }

    /// Tells whether the window asked for has changed since it was last
    /// looked at, and if so what is to be read.
    pub fn poll(&mut self) -> (p: Option<ReadPlan>)
        requires
            old(self).wf(),
        ensures
            final(self).wf(),
            p is Some <==> old(self).window.dirty(),
            !final(self).window.dirty(),
            p is None ==> final(self).window.skip.main == old(self).window.skip.main,
            p is None ==> final(self).window.show.main == old(self).window.show.main,
            p is Some ==> final(self).window.skip.main == crate::window::clamped_skip(
                old(self).window.skip.main,
                old(self).window.total,
            ),
            p is Some ==> final(self).window.show.main == crate::window::clamped_show(
                old(self).window.show.main,
                old(self).window.total,
            ),
            final(self).window.rows == old(self).window.rows,
            final(self).window.order == old(self).window.order,
            final(self).window.sort_by == old(self).window.sort_by,
            p matches Some(plan) ==> plan.offset == ENTITY_META + final(self).window.skip.main
                * old(self).item_size && plan.length == crate::window::row_count(
                final(self).window.skip.main,
                final(self).window.show.main,
                old(self).window.total,
            ) * old(self).item_size,
            final(self).window.total == old(self).window.total,
            final(self).fields == old(self).fields,
            final(self).same_head(*old(self)),
            final(self).koch_prog == old(self).koch_prog,
            final(self).active_item == old(self).active_item,
    {
        if self.window.changed() {
            Some(self.window.plan())
        } else {
            None
        }
    }

    /// Takes the bytes that were read for the window. See
    /// [`Window::load`].
    pub fn update_items(&mut self, bytes: &[u8]) -> (r: Result<(), ShahVisualError>)
        requires
            old(self).wf(),
        ensures
            final(self).wf(),
            final(self).window.skip.main == crate::window::clamped_skip(
                old(self).window.skip.main,
                old(self).window.total,
            ),
            final(self).window.show.main == crate::window::clamped_show(
                old(self).window.show.main,
                old(self).window.total,
            ),
            !final(self).window.dirty(),
            r is Ok <==> bytes@.len() == crate::window::row_count(
                final(self).window.skip.main,
                final(self).window.show.main,
                old(self).window.total,
            ) * old(self).item_size,
            r is Err ==> r == Err::<(), ShahVisualError>(ShahVisualError::Io),
            r is Err ==> final(self).window.rows@.len() == 0,
            r is Ok ==> final(self).window.fresh() && forall|i: int|
                0 <= i < final(self).window.rows@.len() ==> (#[trigger] final(
                    self
                ).window.rows@[i])@ == crate::window::record(bytes@, old(self).item_size as nat, i),
            final(self).window.total == old(self).window.total,
            final(self).window.sort_by == old(self).window.sort_by,
            final(self).fields == old(self).fields,
            final(self).same_head(*old(self)),
            final(self).koch_prog == old(self).koch_prog,
            final(self).active_item == old(self).active_item,
    {
        self.window.load(bytes)
    }

    /// The bytes of field `field` in the row shown at `place`.
    pub open spec fn cell_bytes(&self, place: int, field: int) -> Seq<u8> {
        self.window.rows@[self.window.order@[place] as int]@.subrange(
            self.fields@[field].range.start as int,
            self.fields@[field].range.end as int,
        )
    }

    /// What the table draws for field `field` of the row shown at `place`:
    /// nothing for a field that the table leaves out.
    pub fn table_cell(&self, place: usize, field: usize) -> (r: Shown)
        requires
            self.wf(),
            place < self.window.rows@.len(),
            field < self.fields@.len(),
        ensures
            r@ == (if self.fields@[field as int].show_array {
                self.fields@[field as int].show.shown(self.cell_bytes(place as int, field as int))
            } else {
                ShownView::Nothing
            }),
    {
        if !self.fields[field].show_array {
            return Shown::Nothing;
        }
        self.detail_cell(place, field)
    }

    /// What the detail view draws for field `field` of the row shown at
    /// `place`.
    pub fn detail_cell(&self, place: usize, field: usize) -> (r: Shown)
        requires
            self.wf(),
            place < self.window.rows@.len(),
            field < self.fields@.len(),
        ensures
            r@ == self.fields@[field as int].show.shown(self.cell_bytes(place as int, field as int)),
    {
        let f: &Field = &self.fields[field];
        let row: &Vec<u8> = self.window.row(place);
        proof {
            assert(self.fields@[field as int].projects(self.schema, field as int));
            lemma_projected_field_fits(*f, self.schema, field as int);
            lemma_fields_size_grows(
                self.schema.fields@,
                (field + 1) as nat,
                self.schema.fields@.len(),
            );
        }
        let part: &[u8] = slice_subrange(row.as_slice(), f.range.start, f.range.end);
        f.show.show(part)
    }

    /// Draws the whole record of the row shown at `place`, part by part:
    /// see [`drawing`].
    pub fn detail(&self, place: usize) -> (r: Vec<Draw>)
        requires
            self.wf(),
            place < self.window.rows@.len(),
        ensures
            views(r@) == drawing(
                Schema::Model(self.schema),
                self.window.rows@[self.window.order@[place as int] as int]@,
                None,
                0,
                0,
            ),
    {
        let row: &Vec<u8> = self.window.row(place);
        show_model_value(&self.schema, row.as_slice(), None, 0, 0)
    }

    /// The summary of a column: present where the field is switched on,
    /// holds integers or booleans, and there are rows to sum up.
    pub fn field_stats(&self, field: usize) -> (r: Option<Stats>)
        requires
            self.wf(),
            field < self.fields@.len(),
        ensures
            r matches Some(stats) ==> self.fields@[field as int].visible && self.fields@[field as int].number_stats
                is Some && sums_up(
                stats,
                row_keys(
                    self.window.rows@,
                    SortBy {
                        start: self.fields@[field as int].range.start,
                        scalar: self.fields@[field as int].number_stats->0,
                    },
                ),
                self.window.rows@.len(),
            ),
            !self.fields@[field as int].visible || self.fields@[field as int].number_stats is None
                || self.window.rows@.len() == 0 ==> r is None,
            r is None && self.fields@[field as int].visible && self.fields@[field as int].number_stats
                is Some && self.window.rows@.len() > 0 ==> exists|n: nat|
                1 <= n <= self.window.rows@.len() && !(i128::MIN <= #[trigger] crate::stats::sum_of(
                    row_keys(
                        self.window.rows@,
                        SortBy {
                            start: self.fields@[field as int].range.start,
                            scalar: self.fields@[field as int].number_stats->0,
                        },
                    ),
                    n,
                ) <= i128::MAX),
    {
        let f: &Field = &self.fields[field];
        if !f.visible {
            return None;
        }
        match f.number_stats {
            None => None,
            Some(scalar) => {
                proof {
                    assert(self.fields@[field as int].projects(self.schema, field as int));
                    lemma_projected_field_fits(*f, self.schema, field as int);
                    lemma_fields_size_grows(
                        self.schema.fields@,
                        (field + 1) as nat,
                        self.schema.fields@.len(),
                    );
                }
                let keys: Vec<i128> = self.window.keys(SortBy { start: f.range.start, scalar });
                number_stats(&keys)
            },
        }
    }

    /// Orders the rows by field `field`, where rows can be ordered by it.
    pub fn sort_by(&mut self, field: usize)
        requires
            old(self).wf(),
            field < old(self).fields@.len(),
        ensures
            final(self).wf(),
            final(self).window.sort_by == (match old(self).fields@[field as int].number_sort {
                Some(scalar) => Some(
                    SortBy { start: old(self).fields@[field as int].range.start, scalar },
                ),
                None => old(self).window.sort_by,
            }),
            final(self).window.rows == old(self).window.rows,
            final(self).window.total == old(self).window.total,
            final(self).window.skip == old(self).window.skip,
            final(self).window.show == old(self).window.show,
            final(self).fields == old(self).fields,
            final(self).same_head(*old(self)),
            final(self).koch_prog == old(self).koch_prog,
            final(self).active_item == old(self).active_item,
    {
        proof {
            let f = self.fields@[field as int];
            assert(f.projects(self.schema, field as int));
            lemma_projected_field_fits(f, self.schema, field as int);
            lemma_fields_size_grows(
                self.schema.fields@,
                (field + 1) as nat,
                self.schema.fields@.len(),
            );
        }
        self.window.sort(&self.fields[field]);
    }

    /// The field by which the rows are ordered: the first whose bytes
    /// start where the window's key starts and by which rows can be ordered
    /// as the window orders them. `None` where the rows stand in file
    /// order, and where no field is such.
    pub fn sorted_field(&self) -> (r: Option<usize>)
        ensures
            match self.window.sort_by {
                None => r is None,
                Some(sort) => match r {
                    Some(at) => at < self.fields@.len() && self.sorts_by(at as int, sort)
                        && forall|j: int| 0 <= j < at ==> !self.sorts_by(j, sort),
                    None => forall|j: int| 0 <= j < self.fields@.len() ==> !self.sorts_by(j, sort),
                },
            },
    {
        let sort: SortBy = match self.window.sort_by {
            Some(sort) => sort,
            None => {
                return None;
            },
        };
        let mut i: usize = 0;
        while i < self.fields.len()
            invariant
                i <= self.fields@.len(),
                self.window.sort_by == Some(sort),
                forall|j: int| 0 <= j < i ==> !self.sorts_by(j, sort),
            decreases self.fields@.len() - i,
        {
            let same_scalar: bool = match self.fields[i].number_sort {
                Some(scalar) => scalar == sort.scalar,
                None => false,
            };
            if self.fields[i].range.start == sort.start && same_scalar {
                return Some(i);
            }
            i = i + 1;
        }
        None
    }

    /// Shows the rows in file order again.
    pub fn clear_sort(&mut self)
        requires
            old(self).wf(),
        ensures
            final(self).wf(),
            final(self).window.sort_by is None,
            final(self).window.rows == old(self).window.rows,
            final(self).window.total == old(self).window.total,
            final(self).window.skip == old(self).window.skip,
            final(self).window.show == old(self).window.show,
            final(self).fields == old(self).fields,
            final(self).same_head(*old(self)),
            final(self).koch_prog == old(self).koch_prog,
            final(self).active_item == old(self).active_item,
    {
        self.window.clear_sort();
    }

    /// A click on the row at `place`: it becomes the row shown in detail,
    /// or stops being it.
    pub fn click_row(&mut self, place: usize)
        ensures
            final(self).active_item == (if old(self).active_item == Some(place) {
                None
            } else {
                Some(place)
            }),
            final(self).window == old(self).window,
            final(self).fields == old(self).fields,
            final(self).same_head(*old(self)),
            final(self).koch_prog == old(self).koch_prog,
    {
        let same: bool = match self.active_item {
            Some(at) => at == place,
            None => false,
        };
        if same {
            self.active_item = None;
        } else {
            self.active_item = Some(place);
        }
    }

    /// The row shown in detail: the one last clicked, while the window
    /// holds a row at its place.
    pub fn active_row(&self) -> (r: Option<usize>)
        ensures
            r == (match self.active_item {
                Some(at) => if at < self.window.rows@.len() {
                    Some(at)
                } else {
                    None
                },
                None => None,
            }),
    {
        match self.active_item {
            Some(at) => if at < self.window.len() {
                Some(at)
            } else {
                None
            },
            None => None,
        }
    }
}

/// The titles of the fields.
pub open spec fn field_names(fields: Seq<Field>) -> Seq<Seq<char>> {
    Seq::new(fields.len(), |i: int| fields[i].name@)
}

/// Which fields are switched on.
pub open spec fn visibles(fields: Seq<Field>) -> Seq<bool> {
    Seq::new(fields.len(), |i: int| fields[i].visible)
}

/// Which fields are switched on after the first `n` of `saved` are
/// applied to `start`, one after the other: each switches the first field
/// of its title, and does nothing where no field has that title.
pub open spec fn saved_visible(
    names: Seq<Seq<char>>,
    start: Seq<bool>,
    saved: Seq<(String, bool)>,
    n: nat,
) -> Seq<bool>
    decreases n,
{
    if n == 0 || n > saved.len() {
        start
    } else {
        let before = saved_visible(names, start, saved, (n - 1) as nat);
        let at = index_of(names, saved[n - 1].0@, names.len());
        if at >= 0 {
            before.update(at, saved[n - 1].1)
        } else {
            before
        }
    }
}

/// Two lists of fields differ in nothing but in which are switched on.
pub open spec fn same_but_visible(a: Seq<Field>, b: Seq<Field>) -> bool {
    &&& a.len() == b.len()
    &&& forall|i: int|
        0 <= i < a.len() ==> (#[trigger] a[i]).idx == b[i].idx && a[i].range == b[i].range
            && a[i].show == b[i].show && a[i].show_array == b[i].show_array && a[i].name@
            == b[i].name@ && a[i].number_sort == b[i].number_sort && a[i].number_stats
            == b[i].number_stats
}

/// Switches one field.
fn set_visible(fields: &mut Vec<Field>, at: usize, visible: bool)
    requires
        at < old(fields)@.len(),
    ensures
        same_but_visible(final(fields)@, old(fields)@),
        visibles(final(fields)@) == visibles(old(fields)@).update(at as int, visible),
{
    let mut field: Field = fields.remove(at);
    field.visible = visible;
    fields.insert(at, field);
    assert(visibles(fields@) =~= visibles(old(fields)@).update(at as int, visible));
}

impl EntityDb {
    /// Which fields are switched on, each by its title: what is kept from
    /// one sitting to the next.
    pub fn visibility(&self) -> (r: Vec<(String, bool)>)
        ensures
            r@.len() == self.fields@.len(),
            forall|i: int|
                0 <= i < r@.len() ==> (#[trigger] r@[i]).0@ == self.fields@[i].name@ && r@[i].1
                    == self.fields@[i].visible,
    {
        let n: usize = self.fields.len();
        let mut out: Vec<(String, bool)> = Vec::with_capacity(n);
        let mut i: usize = 0;
        while i < n
            invariant
                n == self.fields@.len(),
                i <= n,
                out@.len() == i,
                forall|j: int|
                    0 <= j < i ==> (#[trigger] out@[j]).0@ == self.fields@[j].name@ && out@[j].1
                        == self.fields@[j].visible,
            decreases n - i,
        {
            out.push((self.fields[i].name.clone(), self.fields[i].visible));
            i = i + 1;
        }
        out
    }

    /// Switches the fields as `saved` says, entry by entry: see
    /// [`saved_visible`].
    pub fn apply_visibility(&mut self, saved: &Vec<(String, bool)>)
        requires
            old(self).wf(),
        ensures
            final(self).wf(),
            same_but_visible(final(self).fields@, old(self).fields@),
            visibles(final(self).fields@) == saved_visible(
                field_names(old(self).fields@),
                visibles(old(self).fields@),
                saved@,
                saved@.len(),
            ),
            final(self).window == old(self).window,
            final(self).same_head(*old(self)),
            final(self).koch_prog == old(self).koch_prog,
            final(self).active_item == old(self).active_item,
    {
        let ghost names = field_names(self.fields@);
        let ghost start = visibles(self.fields@);
        let mut k: usize = 0;
        while k < saved.len()
            invariant
                k <= saved@.len(),
                same_but_visible(self.fields@, old(self).fields@),
                names == field_names(old(self).fields@),
                start == visibles(old(self).fields@),
                visibles(self.fields@) == saved_visible(names, start, saved@, k as nat),
                self.window == old(self).window,
                self.same_head(*old(self)),
                self.koch_prog == old(self).koch_prog,
                self.active_item == old(self).active_item,
            decreases saved@.len() - k,
        {
            let mut j: usize = 0;
            let mut found: bool = false;
            assert(field_names(self.fields@) =~= names);
            while j < self.fields.len() && !found
                invariant
                    j <= self.fields@.len(),
                    k < saved@.len(),
                    field_names(self.fields@) == names,
                    !found ==> forall|i: int| 0 <= i < j ==> names[i] != saved@[k as int].0@,
                    found ==> j < self.fields@.len() && names[j as int] == saved@[k as int].0@
                        && forall|i: int| 0 <= i < j ==> names[i] != saved@[k as int].0@,
                decreases self.fields@.len() - j + (if found { 0int } else { 1int }),
            {
                if self.fields[j].name == saved[k].0 {
                    found = true;
                } else {
                    j = j + 1;
                }
            }
            if found {
                proof {
                    lemma_index_of_is(names, saved@[k as int].0@, j as int);
                }
                set_visible(&mut self.fields, j, saved[k].1);
            } else {
                proof {
                    lemma_index_of_is(names, saved@[k as int].0@, -1);
                }
            }
            k = k + 1;
        }
        proof {
            assert forall|i: int| 0 <= i < self.fields@.len() implies (#[trigger] self.fields@[
                i
            ]).projects(self.schema, i) by {
                assert(old(self).fields@[i].projects(self.schema, i));
            }
        }
    }
}

/// A store whose model does not take the declared item size does not
/// open, and one that opens has fields that add up to the item size.
pub proof fn lemma_open_checks_size(schema: Schema, item_size: u64)
    ensures
        opens(schema, item_size) ==> (schema matches Schema::Model(m) && fields_size(
            m.fields@,
            m.fields@.len(),
        ) == item_size),
        schema is Model && schema.spec_size() != item_size ==> !opens(schema, item_size),
        !(schema is Model) ==> !opens(schema, item_size),
{
}

} // verus!
