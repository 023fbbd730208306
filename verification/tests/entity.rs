use shah::db::entity::{EntityHead, ENTITY_META};
use shah::models::{Binary, Schema as Descriptor, SchemaModel as DescriptorModel};
use shah::models::{ShahMagic, ShahMagicDb};
use shah_visual::database::{database_kind, is_fatal, DatabaseKind};
use shah_visual::entity::{EntityDb, EntityKochProg, ENTITY_HEAD_SIZE};
use shah_visual::error::{DbError, ShahVisualError};
use shah_visual::field::{FieldShow, Scalar, Shown};
use shah_visual::head::ShahMagicDb as Kind;
use shah_visual::number::NumberKind;
use shah_visual::schema::Schema;
use shah_visual::show_schema::Draw;
use shah_visual::window::{ReadPlan, SortBy};

fn user_descriptor() -> Descriptor {
    Descriptor::Model(DescriptorModel {
        name: "User".to_string(),
        size: 25,
        fields: vec![
            ("id".to_string(), Descriptor::U64),
            (
                "name".to_string(),
                Descriptor::Array { is_str: true, length: 16, kind: Box::new(Descriptor::U8) },
            ),
            ("active".to_string(), Descriptor::Bool),
        ],
    })
}

fn head_bytes(descriptor: &Descriptor, item_size: u64, name: &str, revision: u16) -> Vec<u8> {
    let mut head = EntityHead::default();
    head.db_head.init(ShahMagic::new(ShahMagicDb::Entity), revision, name, 1);
    head.item_size = item_size;
    let encoded = descriptor.encode();
    head.schema[..encoded.len()].copy_from_slice(&encoded);
    let mut bytes = head.as_binary().to_vec();
    assert_eq!(bytes.len(), ENTITY_HEAD_SIZE);
    // the progress counters: total 9, prog 4
    bytes.extend_from_slice(&9u64.to_le_bytes());
    bytes.extend_from_slice(&4u64.to_le_bytes());
    assert_eq!(bytes.len() as u64, ENTITY_META);
    bytes
}

fn parts(path: &[&str]) -> Vec<String> {
    path.iter().map(|p| p.to_string()).collect()
}

fn user_record(id: u64, name: &str, active: u8) -> Vec<u8> {
    let mut record = id.to_le_bytes().to_vec();
    let mut text = [0u8; 16];
    text[..name.len()].copy_from_slice(name.as_bytes());
    record.extend_from_slice(&text);
    record.push(active);
    record
}

fn open_users() -> EntityDb {
    let head = head_bytes(&user_descriptor(), 25, "user", 3);
    EntityDb::init(&head, &parts(&["srv", "data", "user", "index.bin"])).unwrap()
}

#[test]
fn meta_region_matches_shah() {
    assert_eq!(shah_visual::entity::ENTITY_META, ENTITY_META);
    assert_eq!(ENTITY_HEAD_SIZE as u64, EntityHead::N);
}

#[test]
fn scenario_user_model_decodes_one_record() {
    let mut db = open_users();
    assert_eq!(db.item_size, 25);
    assert_eq!(db.fields.len(), 3);
    assert_eq!(db.fields[0].name, "id: u64");
    assert_eq!(db.fields[1].name, "name: str");
    assert_eq!(db.fields[2].name, "active: bool");
    assert_eq!(db.fields[0].range, 0..8);
    assert_eq!(db.fields[1].range, 8..24);
    assert_eq!(db.fields[2].range, 24..25);

    let mut record = vec![1u8, 0, 0, 0, 0, 0, 0, 0];
    record.extend_from_slice(b"abc");
    record.extend_from_slice(&[0u8; 13]);
    record.push(0x01);
    assert_eq!(record.len(), 25);

    db.update_total(ENTITY_META + 25);
    assert_eq!(db.window.total, 1);
    let plan = db.plan_items();
    assert_eq!(plan, ReadPlan { offset: ENTITY_META, length: 25 });
    db.update_items(&record).unwrap();
    assert_eq!(db.window.len(), 1);
    assert_eq!(db.table_cell(0, 0), Shown::Text("1".to_string()));
    assert_eq!(db.table_cell(0, 1), Shown::Text("abc".to_string()));
    assert_eq!(db.table_cell(0, 2), Shown::Text("true".to_string()));
}

#[test]
fn open_reads_names_revision_and_progress() {
    let db = open_users();
    assert_eq!(db.name, "user");
    assert_eq!(db.scope, "srv");
    // the directory is named like the store: no prefix
    assert_eq!(db.prefix, "");
    assert_eq!(db.revision, 3);
    assert_eq!(db.title(), "user.3");
    assert_eq!(db.koch_prog, EntityKochProg { total: 9, prog: 4 });
    assert_eq!(db.schema.name, "User");
    assert_eq!(db.schema.size, 25);
    assert_eq!(db.active_row(), None);
    assert_eq!(db.window.skip.main, 0);
    assert_eq!(db.window.show.main, 10);
    assert!(db.fields.iter().all(|f| f.visible));
}

#[test]
fn open_keeps_a_prefix_that_differs_from_the_name() {
    let head = head_bytes(&user_descriptor(), 25, "user", 12);
    let db = EntityDb::init(&head, &parts(&["srv", "data", "accounts", "index.bin"])).unwrap();
    assert_eq!(db.prefix, "accounts");
    assert_eq!(db.title(), "accounts/user.12");
}

#[test]
fn open_fails_when_item_size_differs_from_the_model() {
    let head = head_bytes(&user_descriptor(), 26, "user", 3);
    let r = EntityDb::init(&head, &parts(&["data", "user"]));
    assert_eq!(r.err(), Some(ShahVisualError::Shah(DbError::InvalidDbSchema)));
}

#[test]
fn open_fails_when_the_schema_is_not_a_model() {
    let tuple = Descriptor::Tuple(vec![Descriptor::U8, Descriptor::U16]);
    let head = head_bytes(&tuple, 3, "user", 3);
    let r = EntityDb::init(&head, &parts(&["data", "user"]));
    assert_eq!(r.err(), Some(ShahVisualError::Shah(DbError::InvalidDbSchema)));
}

#[test]
fn open_fails_when_the_descriptor_does_not_decode() {
    let mut head = head_bytes(&user_descriptor(), 25, "user", 3);
    // 9 is no tag of a schema with parts
    head[72] = 9;
    let r = EntityDb::init(&head, &parts(&["data", "user"]));
    assert_eq!(r.err(), Some(ShahVisualError::Shah(DbError::InvalidDbSchema)));
}

#[test]
fn open_fails_on_a_short_head() {
    let head = head_bytes(&user_descriptor(), 25, "user", 3);
    let r = EntityDb::init(&head[..4183], &parts(&["data", "user"]));
    assert_eq!(r.err(), Some(ShahVisualError::Io));
}

#[test]
fn from_schema_takes_a_decoded_model() {
    let head = head_bytes(&user_descriptor(), 25, "user", 3);
    let schema = Schema::decode(&head[72..ENTITY_HEAD_SIZE]).unwrap();
    let db = EntityDb::from_schema(schema, &head, &parts(&["data", "user"])).unwrap();
    assert_eq!(db.fields.len(), 3);
    let r = EntityDb::from_schema(Schema::U8, &head, &parts(&["data", "user"]));
    assert_eq!(r.err(), Some(ShahVisualError::Shah(DbError::InvalidDbSchema)));
}

#[test]
fn fields_say_how_they_are_shown_and_ordered() {
    let db = open_users();
    assert_eq!(db.fields[0].show, FieldShow::Number(NumberKind::U64));
    assert_eq!(db.fields[1].show, FieldShow::Str);
    assert_eq!(db.fields[2].show, FieldShow::Bool);
    assert_eq!(db.fields[0].number_sort, Some(Scalar::Number(NumberKind::U64)));
    assert_eq!(db.fields[1].number_sort, None);
    assert_eq!(db.fields[2].number_sort, Some(Scalar::Bool));
    assert!(db.fields.iter().all(|f| f.show_array));
    assert_eq!(db.fields.iter().map(|f| f.idx).collect::<Vec<_>>(), vec![0, 1, 2]);
}

#[test]
fn window_reads_sorts_and_resets() {
    let mut db = open_users();
    let ids = [30u64, 10, 20, 10];
    let names = ["d", "a", "c", "b"];
    let mut file = Vec::new();
    for (id, name) in ids.iter().zip(names.iter()) {
        file.extend_from_slice(&user_record(*id, name, 1));
    }
    db.update_total(ENTITY_META + file.len() as u64);
    assert_eq!(db.window.total, 4);
    let plan = db.plan_items();
    assert_eq!(plan, ReadPlan { offset: ENTITY_META, length: 100 });
    // show was clamped from ten to the four that there are
    assert_eq!(db.window.show.main, 4);
    db.update_items(&file).unwrap();

    let shown = |db: &EntityDb| -> Vec<Shown> { (0..4).map(|i| db.table_cell(i, 1)).collect() };
    let text = |s: &str| Shown::Text(s.to_string());
    assert_eq!(shown(&db), vec![text("d"), text("a"), text("c"), text("b")]);

    db.sort_by(0);
    assert_eq!(db.window.sort_by, Some(SortBy { start: 0, scalar: Scalar::Number(NumberKind::U64) }));
    // the two records with id 10 keep their order in the file: a, then b
    assert_eq!(shown(&db), vec![text("a"), text("b"), text("c"), text("d")]);
    assert_eq!(db.window.order, vec![1, 3, 2, 0]);

    // a field that cannot be ordered by changes nothing
    db.sort_by(1);
    assert_eq!(db.window.order, vec![1, 3, 2, 0]);

    db.clear_sort();
    assert_eq!(db.window.sort_by, None);
    assert_eq!(shown(&db), vec![text("d"), text("a"), text("c"), text("b")]);
}

#[test]
fn a_short_read_is_an_error_and_keeps_no_row() {
    let mut db = open_users();
    db.update_total(ENTITY_META + 50);
    let plan = db.plan_items();
    assert_eq!(plan.length, 50);
    let r = db.update_items(&[0u8; 49]);
    assert_eq!(r, Err(ShahVisualError::Io));
    assert_eq!(db.window.len(), 0);
    let r = db.update_items(&[0u8; 50]);
    assert_eq!(r, Ok(()));
    assert_eq!(db.window.len(), 2);
}

#[test]
fn poll_asks_for_a_read_only_after_a_change() {
    let mut db = open_users();
    db.update_total(ENTITY_META + 25 * 8);
    assert_eq!(db.poll(), None);
    db.window.set_window(2, 3);
    assert_eq!(db.poll(), Some(ReadPlan { offset: ENTITY_META + 50, length: 75 }));
    assert_eq!(db.poll(), None);
    db.window.set_window(2, 3);
    assert_eq!(db.poll(), None);
    db.window.set_window(7, 3);
    // only one record follows the seventh
    assert_eq!(db.poll(), Some(ReadPlan { offset: ENTITY_META + 175, length: 25 }));
}

#[test]
fn a_click_picks_the_row_and_a_second_click_drops_it() {
    let mut db = open_users();
    db.update_total(ENTITY_META + 50);
    db.plan_items();
    db.update_items(&[0u8; 50]).unwrap();
    db.click_row(1);
    assert_eq!(db.active_row(), Some(1));
    db.click_row(0);
    assert_eq!(db.active_row(), Some(0));
    db.click_row(0);
    assert_eq!(db.active_row(), None);
    db.click_row(5);
    assert_eq!(db.active_item, Some(5));
    // the window holds no row at place 5
    assert_eq!(db.active_row(), None);
}

#[test]
fn column_summary_counts_and_averages() {
    let mut db = open_users();
    let mut file = Vec::new();
    for id in [30u64, 10, 20, 11] {
        file.extend_from_slice(&user_record(id, "x", 1));
    }
    db.update_total(ENTITY_META + file.len() as u64);
    db.plan_items();
    db.update_items(&file).unwrap();
    let stats = db.field_stats(0).unwrap();
    assert_eq!((stats.count, stats.min, stats.max, stats.sum), (4, 10, 30, 71));
    assert_eq!(stats.mean(), 17);
    assert_eq!(stats.text(), "count: 4, min: 10, max: 30, avg: 17");
    assert_eq!(db.field_stats(1), None);
    db.fields[0].visible = false;
    assert_eq!(db.field_stats(0), None);
}

#[test]
fn kinds_of_store_are_told_apart() {
    let head = head_bytes(&user_descriptor(), 25, "user", 3);
    assert_eq!(database_kind(&head), Ok(Kind::Entity));
    assert!(!is_fatal(&head));
    assert_eq!(database_kind(&head[..63]), Err(ShahVisualError::Io));

    let mut bad_sign = head.clone();
    bad_sign[1] = b'X';
    assert_eq!(database_kind(&bad_sign), Err(ShahVisualError::Shah(DbError::InvalidDbHead)));

    let mut custom = head.clone();
    custom[5] = 9;
    assert_eq!(database_kind(&custom), Err(ShahVisualError::Shah(DbError::InvalidDbHead)));

    for (kind, shown) in [
        (ShahMagicDb::Unknown, false),
        (ShahMagicDb::Pond, false),
        (ShahMagicDb::Snake, false),
        (ShahMagicDb::Trie, false),
        (ShahMagicDb::Entity, true),
        (ShahMagicDb::TrieConst, true),
    ] {
        let mut other = head.clone();
        let magic = ShahMagic::new(kind);
        other[..8].copy_from_slice(magic.as_binary());
        assert_eq!(database_kind(&other).is_ok(), shown);
    }
}

#[test]
fn a_store_is_opened_by_its_kind() {
    let head = head_bytes(&user_descriptor(), 25, "user", 3);
    let kind = DatabaseKind::new(&head, &parts(&["data", "user", "index.bin"])).unwrap();
    assert_eq!(kind.title(), "user.3");
    assert!(matches!(kind, DatabaseKind::Entity(_)));

    let mut custom = head.clone();
    custom[5] = 9;
    let r = DatabaseKind::new(&custom, &parts(&["data", "user"]));
    assert_eq!(r.err(), Some(ShahVisualError::Shah(DbError::InvalidDbHead)));
}

#[test]
fn visibility_is_kept_by_title() {
    let mut db = open_users();
    assert_eq!(
        db.visibility(),
        vec![
            ("id: u64".to_string(), true),
            ("name: str".to_string(), true),
            ("active: bool".to_string(), true),
        ]
    );
    db.apply_visibility(&vec![
        ("name: str".to_string(), false),
        ("gone: u8".to_string(), false),
        ("active: bool".to_string(), false),
        ("active: bool".to_string(), true),
    ]);
    let visible: Vec<bool> = db.fields.iter().map(|f| f.visible).collect();
    assert_eq!(visible, vec![true, false, true]);
    assert_eq!(db.fields[1].name, "name: str");
    assert_eq!(db.fields[1].range, 8..24);
    assert_eq!(db.fields.iter().map(|f| f.idx).collect::<Vec<_>>(), vec![0, 1, 2]);
    assert_eq!(db.visibility()[1], ("name: str".to_string(), false));
}

#[test]
fn detail_shows_what_the_table_leaves_out() {
    let descriptor = Descriptor::Model(DescriptorModel {
        name: "Links".to_string(),
        size: 33,
        fields: vec![
            ("n".to_string(), Descriptor::U8),
            (
                "genes".to_string(),
                Descriptor::Array { is_str: false, length: 2, kind: Box::new(Descriptor::Gene) },
            ),
        ],
    });
    let head = head_bytes(&descriptor, 33, "links", 1);
    let mut db = EntityDb::init(&head, &parts(&["data", "links"])).unwrap();
    assert_eq!(db.fields[1].name, "genes: [Gene; 2]");
    assert!(!db.fields[1].show_array);
    let mut record = vec![5u8];
    record.extend_from_slice(&[0u8; 16]);
    record.extend_from_slice(&[1u8; 16]);
    db.update_total(ENTITY_META + 33);
    db.plan_items();
    db.update_items(&record).unwrap();
    assert_eq!(db.table_cell(0, 0), Shown::Text("5".to_string()));
    assert_eq!(db.table_cell(0, 1), Shown::Nothing);
    assert_eq!(
        db.detail_cell(0, 1),
        Shown::Rows(vec![
            ("0:".to_string(), "---".to_string()),
            ("1:".to_string(), "Gene(72340172838076673, 1, [1, 1, 1], 16843009)".to_string()),
        ])
    );
}

#[test]
fn detail_draws_the_whole_record() {
    let mut db = open_users();
    let mut file = user_record(7, "zoe", 0);
    file.extend_from_slice(&user_record(8, "", 1));
    db.update_total(ENTITY_META + 50);
    db.plan_items();
    db.update_items(&file).unwrap();
    let label = |s: &str| Draw::Label(s.to_string());
    assert_eq!(
        db.detail(1),
        vec![
            Draw::Open { title: "<User />".to_string(), idx: 0, depth: 0, open: true },
            label("id: 8"),
            Draw::Str { label: Some("name".to_string()), text: String::new() },
            label("active: true"),
            Draw::Close,
        ]
    );
    db.sort_by(2);
    // ordered by `active`, the record of zoe comes first and is drawn at place 0
    assert_eq!(db.detail(0)[1], label("id: 7"));
}

#[test]
fn measuring_the_file_keeps_the_rows() {
    let mut db = open_users();
    db.update_total(ENTITY_META + 50);
    db.plan_items();
    db.update_items(&[0u8; 50]).unwrap();
    db.update_total(ENTITY_META + 75);
    assert_eq!(db.window.total, 3);
    assert_eq!(db.window.len(), 2);
    assert_eq!(db.update_koch_prog(&[0u8; 15]), Err(ShahVisualError::Io));
    let mut prog = 5u64.to_le_bytes().to_vec();
    prog.extend_from_slice(&2u64.to_le_bytes());
    assert_eq!(db.update_koch_prog(&prog), Ok(()));
    assert_eq!(db.koch_prog, EntityKochProg { total: 5, prog: 2 });
}

#[test]
fn sorted_field_is_the_first_that_matches() {
    let mut db = open_users();
    assert_eq!(db.sorted_field(), None);
    db.sort_by(2);
    assert_eq!(db.sorted_field(), Some(2));
    db.sort_by(0);
    assert_eq!(db.sorted_field(), Some(0));
    db.sort_by(1);
    assert_eq!(db.sorted_field(), Some(0));
    db.clear_sort();
    assert_eq!(db.sorted_field(), None);

    // two fields that start at the same place: a tuple of nothing before a byte
    let descriptor = Descriptor::Model(DescriptorModel {
        name: "Twice".to_string(),
        size: 2,
        fields: vec![
            ("a".to_string(), Descriptor::U8),
            ("b".to_string(), Descriptor::Array { is_str: false, length: 0, kind: Box::new(Descriptor::U8) }),
            ("c".to_string(), Descriptor::U8),
        ],
    });
    let head = head_bytes(&descriptor, 2, "twice", 1);
    let mut db = EntityDb::init(&head, &parts(&["data", "twice"])).unwrap();
    assert_eq!(db.fields[1].range, 1..1);
    assert_eq!(db.fields[2].range, 1..2);
    db.sort_by(2);
    assert_eq!(db.sorted_field(), Some(2));
}

#[test]
fn a_refresh_leaves_names_and_title_alone() {
    let mut db = open_users();
    let title = db.title();
    db.update_total(ENTITY_META + 75);
    db.window.set_window(1, 1);
    assert!(db.poll().is_some());
    assert_eq!((db.window.skip.main, db.window.show.main), (1, 1));
    db.update_items(&[0u8; 25]).unwrap();
    assert!(db.poll().is_none());
    db.sort_by(0);
    db.click_row(0);
    assert_eq!(db.title(), title);
    assert_eq!(db.scope, "srv");
    assert_eq!(db.revision, 3);
}
