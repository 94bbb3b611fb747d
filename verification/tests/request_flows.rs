use std::io::Write;

use package_registry::api::Answer;
use package_registry::codec::{decode_content, encode_content};
use package_registry::flows::{package_create, package_update, CreateStage, FlowAction, FlowEvent, UpdateStage};
use package_registry::registry::{Module, Registry};
use package_registry::schema::{Package, PackageData, PackageMetadata};

fn zip_of(entries: &[(&str, &str)]) -> Vec<u8> {
    let mut w = zip::ZipWriter::new(std::io::Cursor::new(Vec::new()));
    for (name, body) in entries {
        w.start_file(*name, zip::write::SimpleFileOptions::default()).unwrap();
        w.write_all(body.as_bytes()).unwrap();
    }
    w.finish().unwrap().into_inner()
}

fn describe(a: &FlowAction) -> String {
    match a {
        FlowAction::WriteFile { path, bytes } => format!("write {} ({} bytes)", path, bytes.len()),
        FlowAction::ReadArchive { path } => format!("read archive {}", path),
        FlowAction::Rate { id, url } => format!("rate {} {}", id, url),
        FlowAction::Fetch { url } => format!("fetch {}", url),
        FlowAction::Download { url, path } => format!("download {} -> {}", url, path),
        FlowAction::ReadContent { path } => format!("read content {}", path),
        FlowAction::Finish { answer: Answer::Message(r), remove_temp } => {
            format!("finish {} {} temp:{}", r.status.code(), r.message, remove_temp)
        },
        FlowAction::Finish { answer: Answer::Package(s, p), remove_temp } => {
            format!("finish {} package {} {} {} temp:{}", s.code(), p.metadata.Name, p.metadata.Version, p.metadata.ID, remove_temp)
        },
    }
}

fn content_data(bytes: &[u8]) -> PackageData {
    PackageData { Content: Some(encode_content(bytes)), URL: None, JSProgram: None }
}

fn url_data(url: &str) -> PackageData {
    PackageData { Content: None, URL: Some(url.to_string()), JSProgram: None }
}

fn existing(db: &mut Registry<u8>, id: &str) {
    db.insert(Module {
        name: id.to_string(),
        id: id.to_string(),
        ver: "1.0.0".to_string(),
        url: String::new(),
        path: format!("./{}.zip", id),
        scores: 0,
    });
}

#[test]
fn create_from_content_stores_and_answers() {
    let archive = zip_of(&[("pkg/package.json", r#"{"name":"left-pad","version":"1.3.0"}"#)]);
    let data = content_data(&archive);
    let mut db: Registry<u8> = Registry::new();
    let (s, a) = package_create(&mut db, &data, CreateStage::Start, FlowEvent::Begin);
    assert_eq!(describe(&a), format!("write ./temp_ece461.zip ({} bytes)", archive.len()));
    let (s, a) = package_create(&mut db, &data, s, FlowEvent::Written(true));
    assert_eq!(describe(&a), "read archive ./temp_ece461.zip");
    let (s, a) = package_create(&mut db, &data, s, FlowEvent::Archive(Some(archive.clone())));
    assert_eq!(describe(&a), "rate left-pad https://www.npmjs.com/package/left-pad");
    let (s, a) = package_create(&mut db, &data, s, FlowEvent::Rated(Some((9, true))));
    assert_eq!(describe(&a), format!("write ./left-pad.zip ({} bytes)", archive.len()));
    assert_eq!(db.len(), 0);
    let (s, a) = package_create(&mut db, &data, s, FlowEvent::Written(true));
    assert_eq!(describe(&a), "read content ./left-pad.zip");
    assert_eq!(db.len(), 1);
    let m = db.get(&"left-pad".to_string()).unwrap();
    assert_eq!(m.name, "left-pad");
    assert_eq!(m.ver, "1.3.0");
    assert_eq!(m.url, "https://www.npmjs.com/package/left-pad");
    assert_eq!(m.scores, 9);
    let (s, a) = package_create(&mut db, &data, s, FlowEvent::Content(archive.clone()));
    assert_eq!(describe(&a), "finish 201 package left-pad 1.3.0 left-pad temp:true");
    if let FlowAction::Finish { answer: Answer::Package(_, p), .. } = &a {
        assert_eq!(decode_content(p.data.Content.as_deref().unwrap()), Some(archive.clone()));
        assert_eq!(p.data.URL, None);
        assert_eq!(p.data.JSProgram.as_deref(), Some(""));
    }
    assert!(matches!(s, CreateStage::Done));
}

#[test]
fn create_from_content_refusals() {
    let archive = zip_of(&[("pkg/package.json", r#"{"name":"left-pad"}"#)]);
    let data = content_data(&archive);
    let rating = |event: FlowEvent<u8>, db: &mut Registry<u8>| {
        let s = CreateStage::ContentRating {
            bytes: archive.clone(),
            name: Some("left-pad".to_string()),
            version: None,
            id: "left-pad".to_string(),
            url: "https://www.npmjs.com/package/left-pad".to_string(),
        };
        describe(&package_create(db, &data, s, event).1)
    };
    let mut db: Registry<u8> = Registry::new();
    assert_eq!(rating(FlowEvent::Rated(None), &mut db), "finish 400 Cannot create entry in database temp:true");
    assert_eq!(
        rating(FlowEvent::Rated(Some((1, false))), &mut db),
        "finish 424 Package is not uploaded due to the disqualified rating. temp:true"
    );
    existing(&mut db, "left-pad");
    assert_eq!(rating(FlowEvent::Rated(Some((1, true))), &mut db), "finish 409 Package exists already. temp:true");
    assert_eq!(db.len(), 1);
}

#[test]
fn create_with_missing_manifest_attributes_uses_defaults() {
    let mut db: Registry<u8> = Registry::new();
    let data = content_data(b"x");
    let module = Module { name: String::new(), id: "p".to_string(), ver: String::new(), url: String::new(), path: "./p.zip".to_string(), scores: 1 };
    let s = CreateStage::ContentStoring { module, name: None, version: None };
    let (_, a) = package_create(&mut db, &data, s, FlowEvent::Written(true));
    assert_eq!(describe(&a), "read content ./p.zip");
    let m = db.get(&"p".to_string()).unwrap();
    assert_eq!(m.name, "ERROR");
    assert_eq!(m.ver, "0");
}

#[test]
fn create_refuses_bad_payloads() {
    let mut db: Registry<u8> = Registry::new();
    let data = PackageData { Content: Some("a".to_string()), URL: None, JSProgram: None };
    let (_, a) = package_create(&mut db, &data, CreateStage::Start, FlowEvent::Begin);
    assert_eq!(describe(&a), "finish 400 Failed to convert Content temp:false");
    let data = PackageData { Content: None, URL: None, JSProgram: None };
    let (_, a) = package_create(&mut db, &data, CreateStage::Start, FlowEvent::Begin);
    assert_eq!(describe(&a), "finish 400 Either Content or URL should be set. temp:false");
    let data = url_data("https://example.com/x");
    let (_, a) = package_create(&mut db, &data, CreateStage::Start, FlowEvent::Begin);
    assert_eq!(describe(&a), "finish 400 Invalid URL temp:false");
    let data = content_data(b"x");
    let (_, a) = package_create(&mut db, &data, CreateStage::TempWriting { bytes: vec![1] }, FlowEvent::Written(false));
    assert_eq!(describe(&a), "finish 400 Failed to convert Content temp:false");
}

#[test]
fn create_from_github_url_downloads_main_then_master() {
    let data = url_data("https://github.com/postcss/postcss");
    let mut db: Registry<u8> = Registry::new();
    let (s, a) = package_create(&mut db, &data, CreateStage::Start, FlowEvent::Begin);
    assert_eq!(describe(&a), "rate postcss https://github.com/postcss/postcss");
    let (s, a) = package_create(&mut db, &data, s, FlowEvent::Rated(Some((5, true))));
    assert_eq!(describe(&a), "download https://github.com/postcss/postcss/archive/refs/heads/main.zip -> ./postcss.zip");
    let (s, a) = package_create(&mut db, &data, s, FlowEvent::Downloaded(false));
    assert_eq!(describe(&a), "download https://github.com/postcss/postcss/archive/refs/heads/master.zip -> ./postcss.zip");
    let (s, a) = package_create(&mut db, &data, s, FlowEvent::Downloaded(true));
    assert_eq!(describe(&a), "read archive ./postcss.zip");
    let archive = zip_of(&[("postcss-main/package.json", r#"{"name":"postcss","version":"8.4.31"}"#)]);
    let (s, a) = package_create(&mut db, &data, s, FlowEvent::Archive(Some(archive.clone())));
    assert_eq!(describe(&a), "read content ./postcss.zip");
    assert_eq!(db.get(&"postcss".to_string()).unwrap().ver, "8.4.31");
    let (_, a) = package_create(&mut db, &data, s, FlowEvent::Content(archive));
    assert_eq!(describe(&a), "finish 201 package postcss 8.4.31 postcss temp:false");
}

#[test]
fn create_from_github_url_fails_when_no_branch_downloads() {
    let data = url_data("https://github.com/postcss/postcss");
    let mut db: Registry<u8> = Registry::new();
    let module = Module { name: String::new(), id: "postcss".to_string(), ver: String::new(), url: String::new(), path: "./postcss.zip".to_string(), scores: 1 };
    let (_, a) = package_create(&mut db, &data, CreateStage::MasterDownloading { module }, FlowEvent::Downloaded(false));
    assert_eq!(describe(&a), "finish 400 Bad Request temp:false");
    assert_eq!(db.len(), 0);
}

#[test]
fn create_from_npm_url_reads_the_registry_record() {
    let data = url_data("https://www.npmjs.com/package/minimist");
    let mut db: Registry<u8> = Registry::new();
    let (s, a) = package_create(&mut db, &data, CreateStage::Start, FlowEvent::Begin);
    assert_eq!(describe(&a), "fetch https://registry.npmjs.org/minimist");
    let record = r#"{"repository":{"url":"git+https://github.com/minimistjs/minimist.git"}}"#;
    let (s, a) = package_create(&mut db, &data, s, FlowEvent::Fetched(Some(record.to_string())));
    assert_eq!(describe(&a), "rate minimist https://www.npmjs.com/package/minimist");
    let (_, a) = package_create(&mut db, &data, s, FlowEvent::Rated(Some((0, false))));
    assert_eq!(describe(&a), "finish 424 Package is not uploaded due to the disqualified rating. temp:false");
    let s = CreateStage::RegistryFetching { url: "https://www.npmjs.com/package/minimist".to_string() };
    let (_, a) = package_create(&mut db, &data, s, FlowEvent::Fetched(None));
    assert_eq!(describe(&a), "finish 400 Invalid URL temp:false");
}

#[test]
fn create_never_overwrites_a_stored_package() {
    let data = url_data("https://github.com/postcss/postcss");
    let mut db: Registry<u8> = Registry::new();
    let (s, _) = package_create(&mut db, &data, CreateStage::Start, FlowEvent::Begin);
    let (s, _) = package_create(&mut db, &data, s, FlowEvent::Rated(Some((5, true))));
    let (s, _) = package_create(&mut db, &data, s, FlowEvent::Downloaded(true));
    existing(&mut db, "postcss");
    let (_, a) = package_create(&mut db, &data, s, FlowEvent::Archive(None));
    assert_eq!(describe(&a), "finish 409 Package exists already. temp:false");
    assert_eq!(db.len(), 1);
    assert_eq!(db.get(&"postcss".to_string()).unwrap().ver, "1.0.0");
}

#[test]
fn create_answers_events_out_of_order_with_bad_request() {
    let data = url_data("https://github.com/postcss/postcss");
    let mut db: Registry<u8> = Registry::new();
    let (s, a) = package_create(&mut db, &data, CreateStage::Start, FlowEvent::Written(true));
    assert_eq!(describe(&a), "finish 400 Bad Request temp:false");
    assert!(matches!(s, CreateStage::Done));
}

fn stored_package(db: &Registry<u8>, id: &str) -> Package {
    let m = db.get(&id.to_string()).unwrap();
    Package {
        metadata: PackageMetadata { Name: m.name.clone(), Version: m.ver.clone(), ID: m.id.clone() },
        data: PackageData { Content: None, URL: None, JSProgram: None },
    }
}

#[test]
fn update_with_content_writes_the_archive() {
    let mut db: Registry<u8> = Registry::new();
    existing(&mut db, "react");
    let mut p = stored_package(&db, "react");
    p.data.Content = Some(encode_content(b"new"));
    let id = "react".to_string();
    let (s, a) = package_update(&mut db, &id, &p, UpdateStage::Start, FlowEvent::Begin);
    assert_eq!(describe(&a), "write ./react.zip (3 bytes)");
    let (_, a) = package_update(&mut db, &id, &p, s, FlowEvent::Written(true));
    assert_eq!(describe(&a), "finish 200 Version is updated. temp:false");
    let (_, a) = package_update(&mut db, &id, &p, UpdateStage::Storing, FlowEvent::Written(false));
    assert_eq!(describe(&a), "finish 404 Package does not exist. temp:false");
}

#[test]
fn update_refusals() {
    let mut db: Registry<u8> = Registry::new();
    existing(&mut db, "react");
    let p = stored_package(&db, "react");
    let (_, a) = package_update(&mut db, &"vue".to_string(), &p, UpdateStage::Start, FlowEvent::Begin);
    assert_eq!(describe(&a), "finish 404 Package does not exist. temp:false");
    let mut wrong = stored_package(&db, "react");
    wrong.metadata.Version = "9.9.9".to_string();
    let (_, a) = package_update(&mut db, &"react".to_string(), &wrong, UpdateStage::Start, FlowEvent::Begin);
    assert_eq!(describe(&a), "finish 404 Package does not exist. temp:false");
    let (_, a) = package_update(&mut db, &"react".to_string(), &p, UpdateStage::Start, FlowEvent::Begin);
    assert_eq!(describe(&a), "finish 400 At least one of Content or URL should be set temp:false");
    let mut bad = stored_package(&db, "react");
    bad.data.URL = Some("ftp://github.com/a/b".to_string());
    let (_, a) = package_update(&mut db, &"react".to_string(), &bad, UpdateStage::Start, FlowEvent::Begin);
    assert_eq!(describe(&a), "finish 400 Bad URL temp:false");
}

#[test]
fn update_from_url_replaces_the_package() {
    let mut db: Registry<u8> = Registry::new();
    existing(&mut db, "react");
    existing(&mut db, "vue");
    let mut p = stored_package(&db, "react");
    p.data.URL = Some("https://github.com/facebook/react".to_string());
    let id = "react".to_string();
    let (s, a) = package_update(&mut db, &id, &p, UpdateStage::Start, FlowEvent::Begin);
    assert_eq!(describe(&a), "rate react https://github.com/facebook/react");
    let (s, a) = package_update(&mut db, &id, &p, s, FlowEvent::Rated(Some((4, true))));
    assert_eq!(describe(&a), "download https://github.com/facebook/react/archive/refs/heads/main.zip -> ./react.zip");
    let (_, a) = package_update(&mut db, &id, &p, s, FlowEvent::Downloaded(true));
    assert_eq!(describe(&a), "finish 200 Version is updated. temp:false");
    assert_eq!(db.len(), 2);
    let m = db.get(&id).unwrap();
    assert_eq!(m.scores, 4);
    assert_eq!(m.url, "https://github.com/facebook/react");
    assert_eq!(m.name, "");
    assert_eq!(db.get(&"vue".to_string()).unwrap().ver, "1.0.0");
}

#[test]
fn update_from_url_rating_failure() {
    let mut db: Registry<u8> = Registry::new();
    existing(&mut db, "react");
    let p = stored_package(&db, "react");
    let s = UpdateStage::Rating {
        url: "https://github.com/facebook/react".to_string(),
        owner: "facebook".to_string(),
        repo: "react".to_string(),
        path: "./react.zip".to_string(),
    };
    let (_, a) = package_update(&mut db, &"react".to_string(), &p, s, FlowEvent::Rated(None));
    assert_eq!(describe(&a), "finish 400 Cannot create entry in database temp:false");
}

#[test]
fn update_with_disqualifying_rating_keeps_the_stored_package() {
    let mut db: Registry<u8> = Registry::new();
    existing(&mut db, "react");
    let p = stored_package(&db, "react");
    let s = UpdateStage::Rating {
        url: "https://github.com/facebook/react".to_string(),
        owner: "facebook".to_string(),
        repo: "react".to_string(),
        path: "./react.zip".to_string(),
    };
    let before = db.get(&"react".to_string()).unwrap().scores;
    let (_, a) = package_update(&mut db, &"react".to_string(), &p, s, FlowEvent::Rated(Some((4, false))));
    assert_eq!(
        describe(&a),
        "finish 424 Package is not uploaded due to the disqualified rating. temp:false"
    );
    assert_eq!(db.len(), 1);
    assert_eq!(db.get(&"react".to_string()).unwrap().scores, before);
}
