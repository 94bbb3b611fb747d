use package_registry::pattern::{first_match, Pattern};
use package_registry::repository::{classify_repository_url, owner_and_repo, registry_repository_url, RepoSource};

fn source(url: &str) -> String {
    match classify_repository_url(&url.to_string()) {
        RepoSource::Invalid => "invalid".to_string(),
        RepoSource::GitHub(u) => format!("github {}", u),
        RepoSource::Npm(u) => format!("npm {}", u),
    }
}

#[test]
fn github_urls_hold_the_repository() {
    assert_eq!(source("https://github.com/postcss/postcss"), "github https://github.com/postcss/postcss");
}

#[test]
fn npm_pages_point_to_the_registry() {
    assert_eq!(
        source("https://www.npmjs.com/package/postcss"),
        "npm https://registry.npmjs.org/postcss"
    );
}

#[test]
fn other_urls_are_refused() {
    assert_eq!(source("http://github.com/postcss/postcss"), "invalid");
    assert_eq!(source("https://osu.ppy.sh"), "invalid");
    assert_eq!(source("not/a/url"), "invalid");
    assert_eq!(source("https://127.0.0.1/x"), "invalid");
}

#[test]
fn owner_and_repository_name() {
    let got = owner_and_repo(&"https://github.com/postcss/postcss".to_string());
    assert_eq!(got, Some(("postcss".to_string(), "postcss".to_string())));
    let got = owner_and_repo(&"git+https://github.com/substack/minimist.git".to_string());
    assert_eq!(got, Some(("substack".to_string(), "minimist".to_string())));
    assert_eq!(owner_and_repo(&"https://gitlab.com/a/b".to_string()), None);
}

#[test]
fn registry_record_names_the_repository() {
    let record = r#"{"name":"minimist","repository":{"type":"git","url":"git://github.com/minimistjs/minimist.git"}}"#;
    assert_eq!(
        registry_repository_url(&record.to_string()),
        Some("git://github.com/minimistjs/minimist.git".to_string())
    );
    assert_eq!(registry_repository_url(&r#"{"repository":"x"}"#.to_string()), None);
    assert_eq!(registry_repository_url(&r#"{"repository":{"url":3}}"#.to_string()), None);
    assert_eq!(registry_repository_url(&"<html>".to_string()), None);
}

#[test]
fn regular_expressions() {
    assert!(Pattern::new("(").is_none());
    let p = Pattern::new("ab+c").unwrap();
    let texts = vec!["ac".to_string(), "xxabbbcxx".to_string()];
    assert_eq!(first_match(&p, &texts), Some(1));
    assert_eq!(first_match(&p, &vec!["ac".to_string()]), None);
    let names = vec!["a.txt".to_string(), "pkg/package.json".to_string(), "b/package.json".to_string()];
    let p = Pattern::new(".+/package\\.json").unwrap();
    assert_eq!(first_match(&p, &names), Some(1));
}
