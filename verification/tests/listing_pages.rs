use package_registry::listing::{packages_list, packages_list_bad_offset, PAGE_SIZE};
use package_registry::registry::{Module, Registry};
use package_registry::response::HttpStatus;
use package_registry::schema::PackageQuery;

fn module(name: &str, id: &str) -> Module<()> {
    Module {
        name: name.to_string(),
        id: id.to_string(),
        ver: "1.0.0".to_string(),
        url: String::new(),
        path: format!("./{}.zip", id),
        scores: (),
    }
}

fn query(name: &str) -> PackageQuery {
    PackageQuery { Version: None, Name: name.to_string() }
}

fn registry_of(entries: &[(&str, &str)]) -> Registry<()> {
    let mut db = Registry::new();
    for (name, id) in entries {
        db.insert(module(name, id));
    }
    db
}

#[test]
fn named_queries_list_first_match_sorted_by_id() {
    let db = registry_of(&[("b", "id-9"), ("a", "id-3"), ("a", "id-1")]);
    let r = packages_list(&db, 0, &vec![query("b"), query("a")]).ok().unwrap();
    let got: Vec<(String, String)> = r.body.iter().map(|m| (m.Name.clone(), m.ID.clone())).collect();
    assert_eq!(got, vec![("a".to_string(), "id-3".to_string()), ("b".to_string(), "id-9".to_string())]);
    assert_eq!(r.offset, "");
}

#[test]
fn wildcard_lists_every_package_sorted() {
    let db = registry_of(&[("x", "c"), ("y", "a"), ("z", "b")]);
    let r = packages_list(&db, 0, &vec![query("x"), query("*"), query("y")]).ok().unwrap();
    let got: Vec<String> = r.body.iter().map(|m| m.ID.clone()).collect();
    assert_eq!(got, vec!["a".to_string(), "b".to_string(), "c".to_string()]);
    assert_eq!(r.body[0].Name, "y");
    assert_eq!(r.body[0].Version, "1.0.0");
}

#[test]
fn repeated_queries_list_repeated_packages() {
    let db = registry_of(&[("x", "1")]);
    let r = packages_list(&db, 0, &vec![query("x"), query("nope"), query("x")]).ok().unwrap();
    assert_eq!(r.body.len(), 2);
    assert_eq!(r.body[0].ID, "1");
    assert_eq!(r.body[1].ID, "1");
}

#[test]
fn ids_sort_by_code_point() {
    let db = registry_of(&[("n", "b"), ("n2", "B"), ("n3", "ab"), ("n4", "a")]);
    let r = packages_list(&db, 0, &vec![query("*")]).ok().unwrap();
    let got: Vec<String> = r.body.iter().map(|m| m.ID.clone()).collect();
    let mut expected = got.clone();
    expected.sort();
    assert_eq!(got, expected);
    assert_eq!(got, vec!["B".to_string(), "a".to_string(), "ab".to_string(), "b".to_string()]);
}

fn registry_of_25() -> Registry<()> {
    let mut db = Registry::new();
    for i in 0..25 {
        db.insert(module("p", &format!("id{:02}", 24 - i)));
    }
    db
}

#[test]
fn first_page_holds_twenty_and_points_to_the_next() {
    let db = registry_of_25();
    let r = packages_list(&db, 0, &vec![query("*")]).ok().unwrap();
    assert_eq!(PAGE_SIZE, 20);
    assert_eq!(r.body.len(), 20);
    assert_eq!(r.body[0].ID, "id00");
    assert_eq!(r.body[19].ID, "id19");
    assert_eq!(r.offset, "20");
}

#[test]
fn last_page_holds_the_rest_with_empty_offset() {
    let db = registry_of_25();
    let r = packages_list(&db, 20, &vec![query("*")]).ok().unwrap();
    assert_eq!(r.body.len(), 5);
    assert_eq!(r.body[0].ID, "id20");
    assert_eq!(r.body[4].ID, "id24");
    assert_eq!(r.offset, "");
}

#[test]
fn middle_offset_page() {
    let db = registry_of_25();
    let r = packages_list(&db, 3, &vec![query("*")]).ok().unwrap();
    assert_eq!(r.body.len(), 20);
    assert_eq!(r.body[0].ID, "id03");
    assert_eq!(r.offset, "23");
}

#[test]
fn exactly_twenty_gives_empty_offset() {
    let mut db = Registry::new();
    for i in 0..20 {
        db.insert(module("p", &format!("k{:02}", i)));
    }
    let r = packages_list(&db, 0, &vec![query("*")]).ok().unwrap();
    assert_eq!(r.body.len(), 20);
    assert_eq!(r.offset, "");
}

#[test]
fn offset_past_the_end_is_refused() {
    let db = registry_of(&[("x", "1"), ("y", "2")]);
    let e = packages_list(&db, 2, &vec![query("*")]).err().unwrap();
    assert_eq!(e.status, HttpStatus::BadRequest);
    assert_eq!(e.message, "Offset out of range");
}

#[test]
fn no_match_is_refused() {
    let db = registry_of(&[("x", "1")]);
    let e = packages_list(&db, 0, &vec![query("nope")]).err().unwrap();
    assert_eq!(e.status, HttpStatus::BadRequest);
    assert_eq!(e.message, "No package matched by query");
    let empty: Registry<()> = Registry::new();
    let e = packages_list(&empty, 5, &vec![query("*")]).err().unwrap();
    assert_eq!(e.message, "No package matched by query");
    let e = packages_list(&db, 0, &vec![]).err().unwrap();
    assert_eq!(e.message, "No package matched by query");
}

#[test]
fn offset_that_is_not_a_number_is_refused() {
    let db = registry_of(&[("x", "1")]);
    let e = packages_list_bad_offset(&db, Some("abc".to_string()), &vec![query("x")]).err().unwrap();
    assert_eq!(e.status.code(), 400);
    assert_eq!(
        e.message,
        "Offset must be a non-negative integer, or no packages are matched by query"
    );
}

#[test]
fn missing_offset_starts_at_zero() {
    let db = registry_of(&[("x", "2"), ("x2", "1")]);
    let r = packages_list_bad_offset(&db, None, &vec![query("*")]).ok().unwrap();
    assert_eq!(r.body.len(), 2);
    assert_eq!(r.body[0].ID, "1");
}

#[test]
fn following_offsets_lists_every_package_once_in_order() {
    let mut db = Registry::new();
    for i in 0..45 {
        db.insert(module("p", &format!("m{:02}", (i * 7) % 45)));
    }
    let mut seen: Vec<String> = Vec::new();
    let mut offset = 0usize;
    loop {
        let r = packages_list(&db, offset, &vec![query("*")]).ok().unwrap();
        seen.extend(r.body.iter().map(|m| m.ID.clone()));
        if r.offset.is_empty() {
            break;
        }
        offset = r.offset.parse().unwrap();
    }
    let expected: Vec<String> = (0..45).map(|i| format!("m{:02}", i)).collect();
    assert_eq!(seen, expected);
}
