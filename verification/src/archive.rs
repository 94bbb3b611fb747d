//! Reading a package archive: the zip entries (`zip` crate), the manifest
//! `package.json` (read with rocket's figment) and the readme.
use vstd::prelude::*;
use std::io::Read;
use crate::pattern::{
    Pattern, compile, first_match, first_match_index, is_match, regex_compiles, regex_finds, text_option,
};
use crate::text::{signed_decimal, signed_decimal_string};

verus! {

/// The names of the entries of the zip archive `archive`, in the order of
/// its central directory (`zip::ZipArchive::file_names`); `None` when the
/// crate cannot read the archive.
pub uninterp spec fn zip_names(archive: Seq<u8>) -> Option<Seq<Seq<char>>>;

/// The text of the entry `name` of the zip archive `archive`; `None` when
/// the archive or the entry cannot be read as UTF-8 text.
pub uninterp spec fn zip_text(archive: Seq<u8>, name: Seq<char>) -> Option<Seq<char>>;

/// Lists the entries of a zip archive with `zip::ZipArchive::new` and
/// `file_names`. The contract claims that the result is `zip_names` of the
/// bytes.
#[verifier::external_body]
fn archive_names(archive: &[u8]) -> (r: Option<Vec<String>>)
    ensures
        match r {
            Some(v) => zip_names(archive@) == Some(v@.map_values(|s: String| s@)),
            None => zip_names(archive@) is None,
        },
{
    let reader = zip::ZipArchive::new(std::io::Cursor::new(archive)).ok()?;
    Some(reader.file_names().map(|n| n.to_string()).collect())
}

/// Reads the entry `name` of a zip archive as text with
/// `zip::ZipArchive::by_name`. The contract claims that the result is
/// `zip_text` of the bytes and the name.
#[verifier::external_body]
fn archive_text(archive: &[u8], name: &str) -> (r: Option<String>)
    ensures
        match r {
            Some(s) => zip_text(archive@, name@) == Some(s@),
            None => zip_text(archive@, name@) is None,
        },
{
    let mut reader = zip::ZipArchive::new(std::io::Cursor::new(archive)).ok()?;
    let mut entry = reader.by_name(name).ok()?;
    let mut content = String::new();
    entry.read_to_string(&mut content).ok()?;
    Some(content)
}

/// The pattern that names the manifest of a package archive.
pub open spec fn manifest_pattern() -> Seq<char> {
    ".+/package\\.json"@
}

/// The pattern that names the readme of a package archive.
pub open spec fn readme_pattern() -> Seq<char> {
    "(?i).+/readme.md"@
}

/// The text of the first entry of `archive` whose name `pattern` matches;
/// `None` also when the pattern does not compile.
pub open spec fn first_entry_text(archive: Seq<u8>, pattern: Seq<char>) -> Option<Seq<char>> {
    if !regex_compiles(pattern) {
        None
    } else {
        match zip_names(archive) {
        Some(names) => match first_match_index(pattern, names) {
            Some(i) => zip_text(archive, names[i]),
            None => None,
        },
        None => None,
        }
    }
}

/// What rocket's figment finds in the JSON document `text` under the
/// attribute `attr`: the document read as a `figment::value::Value` with
/// `rocket::serde::json::from_str`, then `Value::find(attr)`, and of the value
/// found its `to_i128` and its `into_string`; `None` when the text is not
/// read or nothing is found.
pub uninterp spec fn figment_find(text: Seq<char>, attr: Seq<char>) -> Option<(Option<i128>, Option<Seq<char>>)>;

/// Looks up `attr` in the JSON document `text`: reads it with
/// `rocket::serde::json::from_str` into a `figment::value::Value`, then
/// `Value::find`, `Value::to_i128` and `Value::into_string` on what is found.
/// The contract claims that the result is `figment_find` of the text and the
/// attribute.
#[verifier::external_body]
fn figment_lookup(text: &str, attr: &str) -> (r: Option<(Option<i128>, Option<String>)>)
    ensures
        match r {
            Some((n, s)) => figment_find(text@, attr@) == Some((n, text_option(s))),
            None => figment_find(text@, attr@) is None,
        },
{
    let data: rocket::figment::value::Value = rocket::serde::json::from_str(text).ok()?;
    let found = data.find(attr)?;
    Some((found.to_i128(), found.into_string()))
}

/// The text form of a manifest attribute: a signed integer in decimal,
/// otherwise a string as it is; other values have none.
pub open spec fn attribute_text(found: (Option<i128>, Option<Seq<char>>)) -> Option<Seq<char>> {
    match found.0 {
        Some(n) => Some(signed_decimal(n as int)),
        None => found.1,
    }
}

/// The attribute `attr` of the manifest of the package archive `archive`.
pub open spec fn manifest_attribute(archive: Seq<u8>, attr: Seq<char>) -> Option<Seq<char>> {
    match first_entry_text(archive, manifest_pattern()) {
        Some(text) => match figment_find(text, attr) {
            Some(found) => attribute_text(found),
            None => None,
        },
        None => None,
    }
}

/// The text of the first entry of `archive` whose name the regular
/// expression `pattern` matches; `None` also when the pattern does not
/// compile.
fn entry_text(archive: &[u8], pattern: &str) -> (r: Option<String>)
    ensures
        match r {
            Some(s) => first_entry_text(archive@, pattern@) == Some(s@),
            None => first_entry_text(archive@, pattern@) is None,
        },
{
    let p = match compile(pattern) {
        Some(p) => p,
        None => return None,
    };
    let names = match archive_names(archive) {
        Some(v) => v,
        None => return None,
    };
    match first_match(&p, &names) {
        Some(i) => {
            assert(names@.map_values(|s: String| s@)[i as int] == names@[i as int]@);
            archive_text(archive, names[i].as_str())
        },
        None => None,
    }
}

/// The attribute `attr` (such as `name` or `version`; a dotted name reaches
/// into nested objects) of the `package.json` manifest of a package archive:
/// a signed integer attribute in decimal, a string attribute as it is.
pub fn get_package(archive: &[u8], attr: &str) -> (r: Option<String>)
    ensures
        match r {
            Some(s) => manifest_attribute(archive@, attr@) == Some(s@),
            None => manifest_attribute(archive@, attr@) is None,
        },
{
    let text = match entry_text(archive, ".+/package\\.json") {
        Some(t) => t,
        None => return None,
    };
    match figment_lookup(text.as_str(), attr) {
        Some((Some(n), _)) => Some(signed_decimal_string(n)),
        Some((None, s)) => s,
        None => None,
    }
}

/// Whether the readme of a package archive contains a match of `re`.
pub open spec fn readme_matches(re: Seq<char>, archive: Seq<u8>) -> bool {
    match first_entry_text(archive, readme_pattern()) {
        Some(text) => regex_finds(re, text),
        None => false,
    }
}

/// Whether the readme of the package archive `archive` (its first entry
/// named like `*/README.md`, in any case) contains a match of `re`.
pub fn match_readme(re: &Pattern, archive: &[u8]) -> (r: Option<()>)
    ensures
        r is Some <==> readme_matches(re@, archive@),
{
    match entry_text(archive, "(?i).+/readme.md") {
        Some(text) => if is_match(re, text.as_str()) {
            Some(())
        } else {
            None
        },
        None => None,
    }
}

} // verus!
