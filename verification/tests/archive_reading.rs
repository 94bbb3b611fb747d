use std::io::Write;

use package_registry::archive::{get_package, match_readme};
use package_registry::codec::{decode_content, encode_content};
use package_registry::pattern::Pattern;

fn zip_of(entries: &[(&str, &str)]) -> Vec<u8> {
    let mut w = zip::ZipWriter::new(std::io::Cursor::new(Vec::new()));
    for (name, body) in entries {
        w.start_file(*name, zip::write::SimpleFileOptions::default()).unwrap();
        w.write_all(body.as_bytes()).unwrap();
    }
    w.finish().unwrap().into_inner()
}

#[test]
fn manifest_name_and_version() {
    let z = zip_of(&[
        ("postcss-main/README.md", "# postcss"),
        ("postcss-main/package.json", r#"{"name": "postcss", "version": "8.4.31"}"#),
    ]);
    assert_eq!(get_package(&z, "name"), Some("postcss".to_string()));
    assert_eq!(get_package(&z, "version"), Some("8.4.31".to_string()));
    assert_eq!(get_package(&z, "license"), None);
}

#[test]
fn manifest_numbers_follow_the_signed_rule() {
    let z = zip_of(&[("p/package.json", r#"{"a": -12, "b": 12, "c": 1.5, "d": true}"#)]);
    assert_eq!(get_package(&z, "a"), Some("-12".to_string()));
    assert_eq!(get_package(&z, "b"), None);
    assert_eq!(get_package(&z, "c"), None);
    assert_eq!(get_package(&z, "d"), None);
}

#[test]
fn dotted_attributes_reach_nested_members() {
    let z = zip_of(&[(
        "p/package.json",
        r#"{"name": "x", "repository": {"type": "git", "url": "https://github.com/a/b"}, "a.b": "flat"}"#,
    )]);
    assert_eq!(get_package(&z, "repository.url"), Some("https://github.com/a/b".to_string()));
    assert_eq!(get_package(&z, "repository..url"), None);
    assert_eq!(get_package(&z, "repository.type."), Some("git".to_string()));
    assert_eq!(get_package(&z, "a.b"), None);
    assert_eq!(get_package(&z, ".name"), None);
    assert_eq!(get_package(&z, ""), None);
    let s = zip_of(&[("p/package.json", r#""just text""#)]);
    assert_eq!(get_package(&s, ""), Some("just text".to_string()));
}

#[test]
fn manifest_is_read_as_a_figment_value() {
    let z = zip_of(&[("p/package.json", r#"{"name": {"___figment_value_value": "inner"}, "version": "1.0.0"}"#)]);
    assert_eq!(get_package(&z, "name"), Some("inner".to_string()));
    assert_eq!(get_package(&z, "version"), Some("1.0.0".to_string()));
}

#[test]
fn first_matching_manifest_wins_and_root_manifest_is_ignored() {
    let z = zip_of(&[
        ("package.json", r#"{"name": "root"}"#),
        ("a/package.json", r#"{"name": "first"}"#),
        ("b/package.json", r#"{"name": "second"}"#),
    ]);
    assert_eq!(get_package(&z, "name"), Some("first".to_string()));
    let only_root = zip_of(&[("package.json", r#"{"name": "root"}"#)]);
    assert_eq!(get_package(&only_root, "name"), None);
}

#[test]
fn unreadable_archive_or_manifest() {
    assert_eq!(get_package(b"not a zip", "name"), None);
    let z = zip_of(&[("p/package.json", "{ not json")]);
    assert_eq!(get_package(&z, "name"), None);
}

#[test]
fn readme_match_is_case_insensitive_on_the_entry_name() {
    let z = zip_of(&[("pkg/readme.MD", "A tool for transforming CSS")]);
    let re = Pattern::new("transform").unwrap();
    assert!(match_readme(&re, &z).is_some());
    let re = Pattern::new("javascript").unwrap();
    assert!(match_readme(&re, &z).is_none());
    let no_readme = zip_of(&[("pkg/index.js", "transform")]);
    let re = Pattern::new("transform").unwrap();
    assert!(match_readme(&re, &no_readme).is_none());
}

#[test]
fn content_decoding() {
    assert_eq!(decode_content("aGVsbG8="), Some(b"hello".to_vec()));
    assert_eq!(decode_content("aGVsbG8"), Some(b"hello".to_vec()));
    assert_eq!(decode_content("aGk=="), Some(b"hi".to_vec()));
    assert_eq!(decode_content(""), Some(Vec::new()));
    assert_eq!(decode_content("a"), None);
    assert_eq!(decode_content("a=b"), None);
    assert_eq!(decode_content("!!!!"), None);
}

#[test]
fn content_encoding_round_trips() {
    assert_eq!(encode_content(b"hello"), "aGVsbG8=");
    assert_eq!(encode_content(b""), "");
    let z = zip_of(&[("p/package.json", "{}")]);
    for data in [b"hello".to_vec(), vec![0u8, 255, 7], z] {
        let text = encode_content(&data);
        assert_eq!(decode_content(&text), Some(data));
    }
}
