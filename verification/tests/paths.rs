use shah::models::{Binary, DbHead as OutsideHead, ShahMagic, ShahMagicDb};
use shah_visual::config::Config;
use shah_visual::head::{read_u16, read_u64, DbHead, ShahMagicDb as Kind, DB_HEAD_SIZE};
use shah_visual::paths::{over_budget, walk_budget, DbPaths};
use shah_visual::utils::db_name;

fn parts(path: &str) -> Vec<String> {
    std::path::Path::new(path)
        .components()
        .filter_map(|c| match c {
            std::path::Component::Normal(p) => Some(p.to_str().unwrap().to_string()),
            _ => None,
        })
        .collect()
}

fn names(path: &str) -> (String, String, String) {
    db_name(&parts(path))
}

fn three(a: &str, b: &str, c: &str) -> (String, String, String) {
    (a.to_string(), b.to_string(), c.to_string())
}

#[test]
fn db_name_reads_scope_name_and_title() {
    assert_eq!(names("/home/proj/data/user/index.bin"), three("proj", "user", "index.bin/"));
    assert_eq!(names("/home/proj/data/note/pond/index.bin"), three("proj", "note", "pond/index.bin"));
    assert_eq!(names("/proj/data/a/b/c/d.bin"), three("proj", "a", "b/c"));
    assert_eq!(names("/proj/data/a"), three("proj", "a", ""));
    assert_eq!(names("/proj/data"), three("proj", "", ""));
    assert_eq!(names("data/a/b"), three("", "a", "b/"));
    assert_eq!(names("data"), three("", "", ""));
    assert_eq!(names(""), three("", "", ""));
}

#[test]
fn db_name_goes_by_the_last_data_directory() {
    assert_eq!(names("/x/data/y/data/z/f.bin"), three("y", "z", "f.bin/"));
    assert_eq!(names("/x/data/data/z"), three("data", "z", ""));
}

#[test]
fn db_name_without_a_data_directory_has_no_scope() {
    assert_eq!(names("/a/b/c"), three("", "a", "b/c"));
    assert_eq!(names("a/b"), three("", "a", "b/"));
    assert_eq!(names("a"), three("", "a", ""));
    assert_eq!(names("/a/./b/../c/d"), three("", "a", "b/c"));
}

#[test]
fn files_are_grouped_by_scope_and_store() {
    let mut paths = DbPaths::new();
    for path in [
        "/srv/one/data/user/index.bin",
        "/srv/two/data/user/index.bin",
        "/srv/one/data/note/pond/index.bin",
        "/srv/one/data/user/dead.bin",
        "/srv/one/data/note/pond/items.bin",
    ] {
        paths.add_file_path(&parts(path), path.to_string());
    }
    let scopes: Vec<&str> = paths.scopes.iter().map(|s| s.name.as_str()).collect();
    assert_eq!(scopes, vec!["one", "two"]);
    let one: Vec<&str> = paths.scopes[0].dbs.iter().map(|d| d.name.as_str()).collect();
    assert_eq!(one, vec!["user", "note"]);
    assert_eq!(
        paths.scopes[0].dbs[0].files,
        vec![
            ("index.bin/".to_string(), "/srv/one/data/user/index.bin".to_string()),
            ("dead.bin/".to_string(), "/srv/one/data/user/dead.bin".to_string()),
        ]
    );
    assert_eq!(
        paths.scopes[0].dbs[1].files,
        vec![
            ("pond/index.bin".to_string(), "/srv/one/data/note/pond/index.bin".to_string()),
            ("pond/items.bin".to_string(), "/srv/one/data/note/pond/items.bin".to_string()),
        ]
    );
    assert_eq!(paths.scopes[1].dbs.len(), 1);
    assert_eq!(paths.scopes[1].dbs[0].files.len(), 1);
}

#[test]
fn the_same_file_can_stand_twice() {
    let mut paths = DbPaths::new();
    paths.add_file_path(&parts("/p/data/a/f"), "/p/data/a/f".to_string());
    paths.add_file_path(&parts("/p/data/a/f"), "/p/data/a/f".to_string());
    assert_eq!(paths.scopes.len(), 1);
    assert_eq!(paths.scopes[0].dbs.len(), 1);
    assert_eq!(paths.scopes[0].dbs[0].files.len(), 2);
}

#[test]
fn a_walk_stops_below_the_fifth_level() {
    assert_eq!(walk_budget(0, 0), Some(1000));
    assert_eq!(walk_budget(5, 5), Some(995));
    assert_eq!(walk_budget(6, 6), None);
    assert_eq!(walk_budget(0, 999), Some(1));
    assert_eq!(walk_budget(0, 1000), None);
    assert_eq!(walk_budget(usize::MAX, 0), None);
    assert!(!over_budget(1000, 1000));
    assert!(over_budget(1001, 1000));
}

#[test]
fn the_picker_starts_in_the_first_directory() {
    let mut config = Config::default();
    assert_eq!(config.initial_directory(), None);
    config.quick_access.push(("work".to_string(), "/srv/work".to_string()));
    config.quick_access.push(("home".to_string(), "/home".to_string()));
    assert_eq!(config.initial_directory(), Some(&"/srv/work".to_string()));
}

#[test]
fn head_size_matches_shah() {
    assert_eq!(DB_HEAD_SIZE, OutsideHead::S);
}

#[test]
fn head_is_read_as_shah_writes_it() {
    for (kind, want) in [
        (ShahMagicDb::Unknown, Kind::Unknown),
        (ShahMagicDb::Entity, Kind::Entity),
        (ShahMagicDb::Pond, Kind::Pond),
        (ShahMagicDb::Snake, Kind::Snake),
        (ShahMagicDb::TrieConst, Kind::TrieConst),
        (ShahMagicDb::Trie, Kind::Trie),
    ] {
        let outside = OutsideHead::new(ShahMagic::new(kind), 0x0102, "a-name", 0x0304);
        let head = DbHead::parse(outside.as_binary()).unwrap();
        assert!(head.magic.is_valid());
        assert!(!head.magic.is_custom());
        assert_eq!(head.magic.db(), want);
        assert_eq!(head.magic.db, outside.magic.raw_db());
        assert_eq!(head.magic.prefix, outside.magic.prefix());
        assert_eq!(head.revision, 0x0102);
        assert_eq!(head.db_version, 0x0304);
        assert_eq!(head.shah_version, outside.shah_version);
        assert_eq!(head.name, "a-name");
    }
}

#[test]
fn head_of_a_custom_store_is_told() {
    let outside = OutsideHead::new(ShahMagic::custom(9, 70u16), 1, "mine", 1);
    let head = DbHead::parse(outside.as_binary()).unwrap();
    assert!(head.magic.is_valid());
    assert!(head.magic.is_custom());
    assert_eq!(head.magic.db(), Kind::Unknown);
    assert_eq!(head.magic.db, 70);
    let mut bytes = outside.as_binary().to_vec();
    bytes[0] = 8;
    let head = DbHead::parse(&bytes).unwrap();
    assert!(!head.magic.is_valid());
}

#[test]
fn head_needs_all_its_bytes() {
    let outside = OutsideHead::new(ShahMagic::new(ShahMagicDb::Entity), 1, "n", 1);
    assert_eq!(DbHead::parse(&outside.as_binary()[..63]), None);
    assert_eq!(DbHead::parse(&[]), None);
    let mut longer = outside.as_binary().to_vec();
    longer.extend_from_slice(&[1, 2, 3]);
    assert_eq!(DbHead::parse(&longer), DbHead::parse(outside.as_binary()));
}

#[test]
fn a_name_of_48_bytes_is_read_in_full() {
    let name = "x".repeat(48);
    let outside = OutsideHead::new(ShahMagic::new(ShahMagicDb::Entity), 1, &name, 1);
    let head = DbHead::parse(outside.as_binary()).unwrap();
    assert_eq!(head.name, name);
}

#[test]
fn numbers_are_read_at_their_place() {
    let bytes = [0u8, 1, 2, 3, 4, 5, 6, 7, 8, 9];
    assert_eq!(read_u16(&bytes, 0), 0x0100);
    assert_eq!(read_u16(&bytes, 8), 0x0908);
    assert_eq!(read_u64(&bytes, 0), 0x0706050403020100);
    assert_eq!(read_u64(&bytes, 2), 0x0908070605040302);
}
