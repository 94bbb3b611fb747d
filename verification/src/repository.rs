//! Finding the GitHub repository (owner and name) behind a package URL: a
//! GitHub URL names it directly, an npm package page through the
//! `repository.url` field of the package's registry record.
use vstd::prelude::*;
use crate::pattern::{captures, compile, regex_compiles, regex_groups, text_option};
use crate::text::{owned, replace_all, replaced};

verus! {

/// The scheme and the domain of the URL `text` as `url::Url::parse` (through
/// `reqwest::Url`) reads them; `None` when it does not parse.
pub uninterp spec fn url_components(text: Seq<char>) -> Option<(Seq<char>, Option<Seq<char>>)>;

/// Parses a URL with `reqwest::Url::parse` and copies out its scheme and
/// domain. The contract claims that the result is `url_components` of the
/// text.
#[verifier::external_body]
fn parse_url(text: &str) -> (r: Option<(String, Option<String>)>)
    ensures
        match r {
            Some((scheme, domain)) => url_components(text@) == Some((scheme@, text_option(domain))),
            None => url_components(text@) is None,
        },
{
    let url = reqwest::Url::parse(text).ok()?;
    Some((url.scheme().to_string(), url.domain().map(|d| d.to_string())))
}

/// The string that `serde_json` finds in the document `text` by following
/// the object members named by `path` (`serde_json::from_str`, then
/// `Value::get` for each member, then `Value::as_str`); `None` when the text
/// is not JSON, a member is missing or the value is not a string.
pub uninterp spec fn json_text(text: Seq<char>, path: Seq<Seq<char>>) -> Option<Seq<char>>;

/// Parses `text` with `serde_json::from_str`, follows `path` with
/// `serde_json::Value::get` and reads the value with `Value::as_str`. The
/// contract claims that the result is `json_text` of the text and the path.
#[verifier::external_body]
fn json_lookup(text: &str, path: &[&str]) -> (r: Option<String>)
    ensures
        match r {
            Some(s) => json_text(text@, path@.map_values(|k: &str| k@)) == Some(s@),
            None => json_text(text@, path@.map_values(|k: &str| k@)) is None,
        },
{
    let root: serde_json::Value = serde_json::from_str(text).ok()?;
    let mut current = &root;
    for key in path {
        current = current.get(*key)?;
    }
    current.as_str().map(|s| s.to_string())
}

/// Where the repository of a package URL is to be found.
pub enum RepoSource {
    /// The URL is not an `https` URL of GitHub or of the npm web site.
    Invalid,
    /// The URL is a GitHub URL; it holds the repository itself.
    GitHub(String),
    /// The URL is an npm package page; the registry record at the given URL
    /// names the repository.
    Npm(String),
}

/// What a `RepoSource` denotes.
pub enum RepoSourceView {
    Invalid,
    GitHub(Seq<char>),
    Npm(Seq<char>),
}

impl View for RepoSource {
    type V = RepoSourceView;

    open spec fn view(&self) -> RepoSourceView {
        match self {
            RepoSource::Invalid => RepoSourceView::Invalid,
            RepoSource::GitHub(s) => RepoSourceView::GitHub(s@),
            RepoSource::Npm(s) => RepoSourceView::Npm(s@),
        }
    }
}

/// The prefix of npm package pages.
pub open spec fn npm_page_prefix() -> Seq<char> {
    "https://www.npmjs.com/package/"@
}

/// The prefix of npm registry records.
pub open spec fn npm_registry_prefix() -> Seq<char> {
    "https://registry.npmjs.org/"@
}

/// Where the repository of the package URL `url` is to be found.
pub open spec fn repository_source(url: Seq<char>) -> RepoSourceView {
    match url_components(url) {
        None => RepoSourceView::Invalid,
        Some((scheme, domain)) => if scheme != "https"@ {
            RepoSourceView::Invalid
        } else {
            match domain {
                None => RepoSourceView::Invalid,
                Some(d) => if d == "www.npmjs.com"@ {
                    RepoSourceView::Npm(replaced(url, npm_page_prefix(), npm_registry_prefix()))
                } else if d != "github.com"@ {
                    RepoSourceView::Invalid
                } else {
                    RepoSourceView::GitHub(url)
                },
            }
        },
    }
}

/// Where the repository of the package URL `url` is to be found: an `https`
/// URL on `github.com` holds it, one on `www.npmjs.com` points to the
/// registry record (the page prefix replaced by the registry prefix), any
/// other URL is refused.
pub fn classify_repository_url(url: &String) -> (r: RepoSource)
    ensures
        r@ == repository_source(url@),
{
    let (scheme, domain) = match parse_url(url.as_str()) {
        Some(parts) => parts,
        None => return RepoSource::Invalid,
    };
    if scheme != owned("https") {
        return RepoSource::Invalid;
    }
    match domain {
        None => RepoSource::Invalid,
        Some(d) => {
            if d == owned("www.npmjs.com") {
                RepoSource::Npm(
                    replace_all(
                        url.as_str(),
                        "https://www.npmjs.com/package/",
                        "https://registry.npmjs.org/",
                    ),
                )
            } else if d != owned("github.com") {
                RepoSource::Invalid
            } else {
                RepoSource::GitHub(url.clone())
            }
        },
    }
}

/// The repository URL that an npm registry record names in its
/// `repository.url` field, when that field is a string.
pub open spec fn registry_repository(record: Seq<char>) -> Option<Seq<char>> {
    json_text(record, seq!["repository"@, "url"@])
}

/// The repository URL that the npm registry record `record` names.
pub fn registry_repository_url(record: &String) -> (r: Option<String>)
    ensures
        match r {
            Some(s) => registry_repository(record@) == Some(s@),
            None => registry_repository(record@) is None,
        },
{
    let path: Vec<&str> = vec!["repository", "url"];
    assert(path@.map_values(|k: &str| k@) == seq!["repository"@, "url"@]);
    json_lookup(record.as_str(), path.as_slice())
}

/// The pattern that picks the owner and the name out of a GitHub URL.
pub open spec fn github_pattern() -> Seq<char> {
    ".*github.com/([^/]+)/([^/^\\.]+)(\\.git)?"@
}

/// The owner and the repository name that `github_pattern` captures in
/// `git_url` (its first and second groups).
pub open spec fn owner_repo(git_url: Seq<char>) -> Option<(Seq<char>, Seq<char>)> {
    if !regex_compiles(github_pattern()) {
        None
    } else {
        match regex_groups(github_pattern(), git_url) {
            Some(groups) => if groups.len() > 2 && groups[1] is Some && groups[2] is Some {
                Some((groups[1]->0, groups[2]->0))
            } else {
                None
            },
            None => None,
        }
    }
}

/// The owner and the repository name of a GitHub repository URL.
pub fn owner_and_repo(git_url: &String) -> (r: Option<(String, String)>)
    ensures
        match r {
            Some((owner, repo)) => owner_repo(git_url@) == Some((owner@, repo@)),
            None => owner_repo(git_url@) is None,
        },
{
    let p = match compile(".*github.com/([^/]+)/([^/^\\.]+)(\\.git)?") {
        Some(p) => p,
        None => return None,
    };
    let groups = match captures(&p, git_url.as_str()) {
        Some(g) => g,
        None => return None,
    };
    if groups.len() <= 2 {
        return None;
    }
    let ghost views = groups@.map_values(|g: Option<String>| text_option(g));
    assert(views[1] == text_option(groups@[1]));
    assert(views[2] == text_option(groups@[2]));
    match (&groups[1], &groups[2]) {
        (Some(owner), Some(repo)) => Some((owner.clone(), repo.clone())),
        _ => None,
    }
}

} // verus!
