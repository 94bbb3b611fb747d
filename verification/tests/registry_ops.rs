use package_registry::registry::{get_by_name, first_named_position, metadata_of, Module, Registry};

fn module(name: &str, id: &str, ver: &str, score: u32) -> Module<u32> {
    Module {
        name: name.to_string(),
        id: id.to_string(),
        ver: ver.to_string(),
        url: format!("https://github.com/owner/{}", id),
        path: format!("./{}.zip", id),
        scores: score,
    }
}

fn ids(db: &Registry<u32>) -> Vec<String> {
    (0..db.len()).map(|i| db.at(i).id.clone()).collect()
}

#[test]
fn empty_registry_finds_nothing() {
    let db: Registry<u32> = Registry::new();
    assert_eq!(db.len(), 0);
    assert!(db.get(&"1".to_string()).is_none());
    assert!(!db.contains(&"1".to_string()));
}

#[test]
fn stored_module_is_found_under_its_id() {
    let mut db = Registry::new();
    db.insert(module("postcss", "postcss", "8.4.0", 7));
    let m = db.get(&"postcss".to_string()).unwrap();
    assert_eq!(m.name, "postcss");
    assert_eq!(m.ver, "8.4.0");
    assert_eq!(m.scores, 7);
    assert!(db.get(&"2".to_string()).is_none());
    assert!(db.get(&"3".to_string()).is_none());
}

#[test]
fn storing_under_a_taken_id_replaces_in_place() {
    let mut db = Registry::new();
    db.insert(module("a", "1", "1.0.0", 1));
    db.insert(module("b", "2", "1.0.0", 2));
    db.insert(module("c", "1", "2.0.0", 3));
    assert_eq!(db.len(), 2);
    assert_eq!(ids(&db), vec!["1".to_string(), "2".to_string()]);
    let m = db.get(&"1".to_string()).unwrap();
    assert_eq!(m.name, "c");
    assert_eq!(m.ver, "2.0.0");
    assert_eq!(db.get(&"2".to_string()).unwrap().scores, 2);
}

#[test]
fn removed_module_is_gone_and_others_stay() {
    let mut db = Registry::new();
    db.insert(module("a", "1", "1.0.0", 1));
    db.insert(module("b", "2", "1.0.0", 2));
    db.insert(module("c", "3", "1.0.0", 3));
    let removed = db.remove(&"2".to_string()).unwrap();
    assert_eq!(removed.name, "b");
    assert!(db.get(&"2".to_string()).is_none());
    assert_eq!(ids(&db), vec!["1".to_string(), "3".to_string()]);
    assert!(db.remove(&"2".to_string()).is_none());
    assert_eq!(db.len(), 2);
}

#[test]
fn drain_all_empties_in_order() {
    let mut db = Registry::new();
    db.insert(module("a", "1", "1.0.0", 1));
    db.insert(module("b", "2", "1.0.0", 2));
    let all = db.drain_all();
    assert_eq!(all.len(), 2);
    assert_eq!(all[0].id, "1");
    assert_eq!(all[1].id, "2");
    assert_eq!(db.len(), 0);
}

#[test]
fn remove_named_partitions_in_order() {
    let mut db = Registry::new();
    db.insert(module("x", "1", "1.0.0", 1));
    db.insert(module("y", "2", "1.0.0", 2));
    db.insert(module("x", "3", "2.0.0", 3));
    db.insert(module("z", "4", "1.0.0", 4));
    let removed = db.remove_named(&"x".to_string());
    assert_eq!(removed.len(), 2);
    assert_eq!(removed[0].id, "1");
    assert_eq!(removed[1].id, "3");
    assert_eq!(ids(&db), vec!["2".to_string(), "4".to_string()]);
    assert!(db.remove_named(&"x".to_string()).is_empty());
}

#[test]
fn get_by_name_returns_the_first_with_the_name() {
    let mut db = Registry::new();
    db.insert(module("y", "1", "1.0.0", 1));
    db.insert(module("x", "2", "1.0.0", 2));
    db.insert(module("x", "3", "2.0.0", 3));
    assert_eq!(get_by_name(&db, &"x".to_string()).unwrap().id, "2");
    assert_eq!(first_named_position(&db, &"x".to_string()), Some(1));
    assert!(get_by_name(&db, &"w".to_string()).is_none());
    assert_eq!(first_named_position(&db, &"w".to_string()), None);
}

#[test]
fn metadata_copies_name_version_and_id() {
    let m = module("left-pad", "lp", "1.3.0", 0);
    let md = metadata_of(&m);
    assert_eq!(md.Name, "left-pad");
    assert_eq!(md.Version, "1.3.0");
    assert_eq!(md.ID, "lp");
}
