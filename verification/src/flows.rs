//! The requests that create and update packages. They alternate outside work
//! (files, downloads, rating a repository) with decisions; the decisions are
//! step functions from the current stage and the outcome of the last piece of
//! work to the next stage and the next piece of work.
use vstd::prelude::*;
use crate::api::{Answer, is_package_of, package_of};
use crate::archive::{get_package, manifest_attribute};
use crate::codec::{base64_padded_encoding, decode_content, decoded_content};
use crate::registry::{Module, Registry, holds_id, ids_unique, metadata_matches, metadata_of};
use crate::repository::{
    RepoSource, RepoSourceView, classify_repository_url, npm_page_prefix, owner_and_repo, owner_repo,
    registry_repository, registry_repository_url, repository_source,
};
use crate::response::{HttpStatus, Reply, is_reply, reply};
use crate::schema::{PackageData, PackageMetadata};
use crate::text::owned;

verus! {

/// The file that holds uploaded content while it is checked.
pub open spec fn temp_archive() -> Seq<char> {
    "./temp_ece461.zip"@
}

/// The file that holds the archive of the package `id`.
pub open spec fn archive_path(id: Seq<char>) -> Seq<char> {
    "./"@ + id + ".zip"@
}

/// The URL of the zip archive of branch `branch` of a GitHub repository.
pub open spec fn branch_archive_url(owner: Seq<char>, repo: Seq<char>, branch: Seq<char>) -> Seq<
    char,
> {
    "https://github.com/"@ + owner + "/"@ + repo + "/archive/refs/heads/"@ + branch + ".zip"@
}

/// `o`, or `d` when it is absent.
pub open spec fn or_default(o: Option<Seq<char>>, d: Seq<char>) -> Seq<char> {
    match o {
        Some(s) => s,
        None => d,
    }
}

/// The attribute `attr` of the manifest of an archive that could be read.
pub open spec fn archive_attribute(archive: Option<Seq<u8>>, attr: Seq<char>) -> Option<Seq<char>> {
    match archive {
        Some(a) => manifest_attribute(a, attr),
        None => None,
    }
}

/// A piece of outside work for the service to do, or the final reply.
pub enum FlowAction {
    /// Write `bytes` to the file `path`; answer with `Written`.
    WriteFile { path: String, bytes: Vec<u8> },
    /// Read the file `path`; answer with `Archive` (`None` when unreadable).
    ReadArchive { path: String },
    /// Rate the package at `url`; answer with `Rated`.
    Rate { id: String, url: String },
    /// Fetch the text at `url`; answer with `Fetched`.
    Fetch { url: String },
    /// Download `url` into the file `path`; answer with `Downloaded`.
    Download { url: String, path: String },
    /// Read the file `path`, which must be readable; answer with `Content`.
    ReadContent { path: String },
    /// Reply with `answer`; remove the temporary upload file when
    /// `remove_temp` holds.
    Finish { answer: Answer, remove_temp: bool },
}

/// The outcome of the last piece of outside work.
pub enum FlowEvent<S> {
    /// The request arrived.
    Begin,
    /// Whether the file was written.
    Written(bool),
    /// The bytes of the file, if it could be read.
    Archive(Option<Vec<u8>>),
    /// The ratings of the package and whether they qualify it for upload;
    /// `None` when it could not be rated.
    Rated(Option<(S, bool)>),
    /// The fetched text, if any.
    Fetched(Option<String>),
    /// Whether the download succeeded.
    Downloaded(bool),
    /// The bytes of the file.
    Content(Vec<u8>),
}

/// Whether `a` is the final reply with status `s`, text `m`, and whether the
/// temporary upload file is to be removed.
pub open spec fn finishes(a: FlowAction, s: HttpStatus, m: Seq<char>, remove_temp: bool) -> bool {
    a matches FlowAction::Finish { answer: Answer::Message(r), remove_temp: t } && is_reply(r, s, m)
        && t == remove_temp
}

/// Whether `m` is a newly rated module with empty name and version.
pub open spec fn is_rated_module<S>(
    m: Module<S>,
    id: Seq<char>,
    url: Seq<char>,
    path: Seq<char>,
    scores: S,
) -> bool {
    &&& m.name@ == Seq::<char>::empty()
    &&& m.ver@ == Seq::<char>::empty()
    &&& m.id@ == id
    &&& m.url@ == url
    &&& m.path@ == path
    &&& m.scores == scores
}

/// Whether `after` is `before` with `m`, given its name and version from the
/// manifest attributes `name` and `version` (`ERROR` and `0` when missing),
/// added at the end.
pub open spec fn added_named<S>(
    before: Seq<Module<S>>,
    after: Seq<Module<S>>,
    m: Module<S>,
    name: Option<Seq<char>>,
    version: Option<Seq<char>>,
) -> bool {
    &&& after.len() == before.len() + 1
    &&& after.drop_last() == before
    &&& after.last().name@ == or_default(name, "ERROR"@)
    &&& after.last().ver@ == or_default(version, "0"@)
    &&& after.last().id == m.id
    &&& after.last().url == m.url
    &&& after.last().path == m.path
    &&& after.last().scores == m.scores
}

/// Copies bytes.
fn copy_bytes(v: &[u8]) -> (r: Vec<u8>)
    ensures
        r@ == v@,
{
    let mut r: Vec<u8> = Vec::new();
    let mut i: usize = 0;
    while i < v.len()
        invariant
            i <= v@.len(),
            r@ == v@.subrange(0, i as int),
        decreases v@.len() - i,
    {
        r.push(v[i]);
        i = i + 1;
    }
    r
}

/// The final reply with status `status` and text `message`.
fn finish(status: HttpStatus, message: &str, remove_temp: bool) -> (a: FlowAction)
    ensures
        finishes(a, status, message@, remove_temp),
{
    FlowAction::Finish { answer: Answer::Message(reply(status, message)), remove_temp }
}

/// The file that holds the archive of the package `id`.
fn archive_path_of(id: &String) -> (r: String)
    ensures
        r@ == archive_path(id@),
{
    let mut s = owned("./");
    s.append(id.as_str());
    s.append(".zip");
    s
}

/// The URL of the zip archive of branch `branch` of a GitHub repository.
fn branch_url(owner: &String, repo: &String, branch: &str) -> (r: String)
    ensures
        r@ == branch_archive_url(owner@, repo@, branch@),
{
    let mut s = owned("https://github.com/");
    s.append(owner.as_str());
    s.append("/");
    s.append(repo.as_str());
    s.append("/archive/refs/heads/");
    s.append(branch);
    s.append(".zip");
    s
}

/// The npm page of the package named `name` (the bare prefix when there is no
/// name).
fn npm_page(name: &Option<String>) -> (r: String)
    ensures
        r@ == npm_page_prefix() + or_default(
            match name {
                Some(n) => Some(n@),
                None => None,
            },
            Seq::empty(),
        ),
{
    let mut s = owned("https://www.npmjs.com/package/");
    match name {
        Some(n) => {
            s.append(n.as_str());
        },
        None => {
            assert(s@ + Seq::<char>::empty() == s@);
        },
    }
    s
}

/// A copy of an optional string.
fn copy_option(o: &Option<String>) -> (r: Option<String>)
    ensures
        match o {
            Some(s) => r matches Some(t) && t@ == s@,
            None => r is None,
        },
{
    match o {
        Some(s) => Some(s.clone()),
        None => None,
    }
}

/// `o`, or `d` when it is absent.
fn unwrap_or_text(o: Option<String>, d: &str) -> (r: String)
    ensures
        r@ == or_default(
            match o {
                Some(s) => Some(s@),
                None => None,
            },
            d@,
        ),
{
    match o {
        Some(s) => s,
        None => owned(d),
    }
}

/// The manifest attribute `attr` of an archive that could be read.
fn attribute_of(archive: &Option<Vec<u8>>, attr: &str) -> (r: Option<String>)
    ensures
        match r {
            Some(s) => archive_attribute(
                match archive {
                    Some(a) => Some(a@),
                    None => None,
                },
                attr@,
            ) == Some(s@),
            None => archive_attribute(
                match archive {
                    Some(a) => Some(a@),
                    None => None,
                },
                attr@,
            ) is None,
        },
{
    match archive {
        Some(a) => get_package(a.as_slice(), attr),
        None => None,
    }
}

/// The text form of an optional string.
pub open spec fn text_of(o: Option<String>) -> Option<Seq<char>> {
    match o {
        Some(s) => Some(s@),
        None => None,
    }
}

/// The bytes of an optional archive.
pub open spec fn archive_of(o: Option<Vec<u8>>) -> Option<Seq<u8>> {
    match o {
        Some(v) => Some(v@),
        None => None,
    }
}

} // verus!

verus! {

/// The progress of a request that creates a package.
pub enum CreateStage<S> {
    /// Nothing done yet.
    Start,
    /// The decoded upload is being written to the temporary file.
    TempWriting { bytes: Vec<u8> },
    /// The temporary file is being read back for its manifest.
    TempReading { bytes: Vec<u8> },
    /// The package named in the uploaded manifest is being rated.
    ContentRating {
        bytes: Vec<u8>,
        name: Option<String>,
        version: Option<String>,
        id: String,
        url: String,
    },
    /// The upload is being written to the package's own file.
    ContentStoring { module: Module<S>, name: Option<String>, version: Option<String> },
    /// The npm registry record of the given package URL is being fetched.
    RegistryFetching { url: String },
    /// The repository at `url` is being rated.
    UrlRating { url: String, owner: String, repo: String },
    /// The `main` branch archive is being downloaded.
    MainDownloading { module: Module<S>, owner: String, repo: String },
    /// The `master` branch archive is being downloaded.
    MasterDownloading { module: Module<S> },
    /// The downloaded archive is being read for its manifest.
    ArchiveReading { module: Module<S> },
    /// The stored package's archive is being read for the reply.
    Responding { metadata: PackageMetadata, path: String, remove_temp: bool },
    /// The request is answered.
    Done,
}

/// Whether `p` is the reply package of the stored package `metadata` whose
/// archive holds `content`: its content is the padded standard Base64 text
/// of those bytes.
pub open spec fn answers_package(p: crate::schema::Package, metadata: PackageMetadata, content: Seq<u8>) -> bool {
    &&& p.metadata.Name@ == metadata.Name@
    &&& p.metadata.Version@ == metadata.Version@
    &&& p.metadata.ID@ == metadata.ID@
    &&& p.data.Content matches Some(c) && c@ == base64_padded_encoding(content) && decoded_content(
        c@,
    ) == Some(content)
    &&& p.data.URL is None
    &&& p.data.JSProgram matches Some(j) && j@ == Seq::<char>::empty()
}

/// The answer to an event that does not fit the stage.
pub open spec fn out_of_order<S>(
    before: Seq<Module<S>>,
    after: Seq<Module<S>>,
    next: CreateStage<S>,
    action: FlowAction,
) -> bool {
    &&& after == before
    &&& next is Done
    &&& finishes(action, HttpStatus::BadRequest, "Bad Request"@, false)
}

/// Rating the repository `owner/repo` found behind the package URL `url`, or
/// refusing the URL when no repository was found.
pub open spec fn rate_repository<S>(
    url: Seq<char>,
    found: Option<(Seq<char>, Seq<char>)>,
    next: CreateStage<S>,
    action: FlowAction,
) -> bool {
    match found {
        None => next is Done && finishes(action, HttpStatus::BadRequest, "Invalid URL"@, false),
        Some((o, r)) => {
            &&& next matches CreateStage::UrlRating { url: u, owner, repo } && u@ == url && owner@
                == o && repo@ == r
            &&& action matches FlowAction::Rate { id, url: ru } && id@ == r && ru@ == url
        },
    }
}

/// The first step of a create request with payload `data`.
pub open spec fn create_begins<S>(data: PackageData, next: CreateStage<S>, action: FlowAction) -> bool {
    match data.Content {
        Some(c) => match decoded_content(c@) {
            None => next is Done && finishes(
                action,
                HttpStatus::BadRequest,
                "Failed to convert Content"@,
                false,
            ),
            Some(b) => {
                &&& next matches CreateStage::TempWriting { bytes } && bytes@ == b
                &&& action matches FlowAction::WriteFile { path, bytes: w } && path@ == temp_archive()
                    && w@ == b
            },
        },
        None => match data.URL {
            Some(u) => match repository_source(u@) {
                RepoSourceView::Invalid => next is Done && finishes(
                    action,
                    HttpStatus::BadRequest,
                    "Invalid URL"@,
                    false,
                ),
                RepoSourceView::GitHub(g) => rate_repository(u@, owner_repo(g), next, action),
                RepoSourceView::Npm(record) => {
                    &&& next matches CreateStage::RegistryFetching { url } && url@ == u@
                    &&& action matches FlowAction::Fetch { url } && url@ == record
                },
            },
            None => next is Done && finishes(
                action,
                HttpStatus::BadRequest,
                "Either Content or URL should be set."@,
                false,
            ),
        },
    }
}

/// What one step of a create request does: from the registry `before`, the
/// request payload `data`, the stage and the event, to the registry `after`,
/// the next stage and the next action.
pub open spec fn create_step_spec<S>(
    before: Seq<Module<S>>,
    after: Seq<Module<S>>,
    data: PackageData,
    stage: CreateStage<S>,
    event: FlowEvent<S>,
    next: CreateStage<S>,
    action: FlowAction,
) -> bool {
    match (stage, event) {
        (CreateStage::Start, FlowEvent::Begin) => after == before && create_begins(data, next, action),
        (CreateStage::TempWriting { bytes }, FlowEvent::Written(ok)) => {
            &&& after == before
            &&& if ok {
                &&& next matches CreateStage::TempReading { bytes: b } && b@ == bytes@
                &&& action matches FlowAction::ReadArchive { path } && path@ == temp_archive()
            } else {
                next is Done && finishes(
                    action,
                    HttpStatus::BadRequest,
                    "Failed to convert Content"@,
                    false,
                )
            }
        },
        (CreateStage::TempReading { bytes }, FlowEvent::Archive(a)) => {
            let name = archive_attribute(archive_of(a), "name"@);
            let version = archive_attribute(archive_of(a), "version"@);
            let id = or_default(name, Seq::empty());
            &&& after == before
            &&& next matches CreateStage::ContentRating { bytes: b, name: n, version: v, id: i, url }
                && b@ == bytes@ && text_of(n) == name && text_of(v) == version && i@ == id && url@
                == npm_page_prefix() + id
            &&& action matches FlowAction::Rate { id: ri, url: ru } && ri@ == id && ru@
                == npm_page_prefix() + id
        },
        (CreateStage::ContentRating { bytes, name, version, id, url }, FlowEvent::Rated(r)) => {
            &&& after == before
            &&& match r {
                None => next is Done && finishes(
                    action,
                    HttpStatus::BadRequest,
                    "Cannot create entry in database"@,
                    true,
                ),
                Some((scores, qualifies)) => if !qualifies {
                    next is Done && finishes(
                        action,
                        HttpStatus::FailedDependency,
                        "Package is not uploaded due to the disqualified rating."@,
                        true,
                    )
                } else if holds_id(before, id@) {
                    next is Done && finishes(
                        action,
                        HttpStatus::Conflict,
                        "Package exists already."@,
                        true,
                    )
                } else {
                    &&& next matches CreateStage::ContentStoring { module, name: n, version: v }
                        && is_rated_module(module, id@, url@, archive_path(id@), scores) && text_of(
                        n,
                    ) == text_of(name) && text_of(v) == text_of(version)
                    &&& action matches FlowAction::WriteFile { path, bytes: w } && path@
                        == archive_path(id@) && w@ == bytes@
                },
            }
        },
        (CreateStage::ContentStoring { module, name, version }, FlowEvent::Written(ok)) => if !ok {
            after == before && next is Done && finishes(
                action,
                HttpStatus::BadRequest,
                "Failed to convert Content"@,
                true,
            )
        } else if holds_id(before, module.id@) {
            after == before && next is Done && finishes(
                action,
                HttpStatus::Conflict,
                "Package exists already."@,
                true,
            )
        } else {
            &&& added_named(before, after, module, text_of(name), text_of(version))
            &&& next matches CreateStage::Responding { metadata, path, remove_temp } && metadata_matches(
                metadata,
                after.last(),
            ) && path@ == module.path@ && remove_temp
            &&& action matches FlowAction::ReadContent { path } && path@ == module.path@
        },
        (CreateStage::Responding { metadata, path, remove_temp }, FlowEvent::Content(bytes)) => {
            &&& after == before
            &&& next is Done
            &&& action matches FlowAction::Finish { answer: Answer::Package(status, p), remove_temp: t }
                && status == HttpStatus::Created && t == remove_temp && answers_package(p, metadata, bytes@)
        },
        (CreateStage::RegistryFetching { url }, FlowEvent::Fetched(t)) => {
            &&& after == before
            &&& match t {
                None => next is Done && finishes(action, HttpStatus::BadRequest, "Invalid URL"@, false),
                Some(text) => match registry_repository(text@) {
                    None => next is Done && finishes(
                        action,
                        HttpStatus::BadRequest,
                        "Invalid URL"@,
                        false,
                    ),
                    Some(g) => rate_repository(url@, owner_repo(g), next, action),
                },
            }
        },
        (CreateStage::UrlRating { url, owner, repo }, FlowEvent::Rated(r)) => {
            &&& after == before
            &&& match r {
                None => next is Done && finishes(
                    action,
                    HttpStatus::BadRequest,
                    "Cannot create entry in database"@,
                    false,
                ),
                Some((scores, qualifies)) => if !qualifies {
                    next is Done && finishes(
                        action,
                        HttpStatus::FailedDependency,
                        "Package is not uploaded due to the disqualified rating."@,
                        false,
                    )
                } else if holds_id(before, repo@) {
                    next is Done && finishes(
                        action,
                        HttpStatus::Conflict,
                        "Package exists already."@,
                        false,
                    )
                } else {
                    &&& next matches CreateStage::MainDownloading { module, owner: o, repo: r2 }
                        && is_rated_module(module, repo@, url@, archive_path(repo@), scores) && o@
                        == owner@ && r2@ == repo@
                    &&& action matches FlowAction::Download { url: d, path } && d@
                        == branch_archive_url(owner@, repo@, "main"@) && path@ == archive_path(repo@)
                },
            }
        },
        (CreateStage::MainDownloading { module, owner, repo }, FlowEvent::Downloaded(ok)) => {
            &&& after == before
            &&& if ok {
                &&& next == CreateStage::ArchiveReading { module }
                &&& action matches FlowAction::ReadArchive { path } && path@ == module.path@
            } else {
                &&& next == CreateStage::MasterDownloading { module }
                &&& action matches FlowAction::Download { url, path } && url@ == branch_archive_url(
                    owner@,
                    repo@,
                    "master"@,
                ) && path@ == module.path@
            }
        },
        (CreateStage::MasterDownloading { module }, FlowEvent::Downloaded(ok)) => {
            &&& after == before
            &&& if ok {
                &&& next == CreateStage::ArchiveReading { module }
                &&& action matches FlowAction::ReadArchive { path } && path@ == module.path@
            } else {
                next is Done && finishes(action, HttpStatus::BadRequest, "Bad Request"@, false)
            }
        },
        (CreateStage::ArchiveReading { module }, FlowEvent::Archive(a)) => if holds_id(
            before,
            module.id@,
        ) {
            after == before && next is Done && finishes(
                action,
                HttpStatus::Conflict,
                "Package exists already."@,
                false,
            )
        } else {
            &&& added_named(
                before,
                after,
                module,
                archive_attribute(archive_of(a), "name"@),
                archive_attribute(archive_of(a), "version"@),
            )
            &&& next matches CreateStage::Responding { metadata, path, remove_temp } && metadata_matches(
                metadata,
                after.last(),
            ) && path@ == module.path@ && !remove_temp
            &&& action matches FlowAction::ReadContent { path } && path@ == module.path@
        },
        _ => out_of_order(before, after, next, action),
    }
}

} // verus!

verus! {

/// Rates the repository found behind the package URL `url`, or refuses the
/// URL when none was found.
fn rate_found<S>(url: String, found: Option<(String, String)>) -> (r: (CreateStage<S>, FlowAction))
    ensures
        rate_repository(
            url@,
            match found {
                Some((o, p)) => Some((o@, p@)),
                None => None,
            },
            r.0,
            r.1,
        ),
{
    match found {
        None => (CreateStage::Done, finish(HttpStatus::BadRequest, "Invalid URL", false)),
        Some((owner, repo)) => {
            let action = FlowAction::Rate { id: repo.clone(), url: url.clone() };
            (CreateStage::UrlRating { url, owner, repo }, action)
        },
    }
}

/// The first step of a create request.
fn create_begin<S>(data: &PackageData) -> (r: (CreateStage<S>, FlowAction))
    ensures
        create_begins(*data, r.0, r.1),
{
    match &data.Content {
        Some(c) => match decode_content(c.as_str()) {
            None => (
                CreateStage::Done,
                finish(HttpStatus::BadRequest, "Failed to convert Content", false),
            ),
            Some(bytes) => {
                let action = FlowAction::WriteFile {
                    path: owned("./temp_ece461.zip"),
                    bytes: copy_bytes(bytes.as_slice()),
                };
                (CreateStage::TempWriting { bytes }, action)
            },
        },
        None => match &data.URL {
            Some(u) => match classify_repository_url(u) {
                RepoSource::Invalid => (
                    CreateStage::Done,
                    finish(HttpStatus::BadRequest, "Invalid URL", false),
                ),
                RepoSource::GitHub(g) => rate_found(u.clone(), owner_and_repo(&g)),
                RepoSource::Npm(record) => (
                    CreateStage::RegistryFetching { url: u.clone() },
                    FlowAction::Fetch { url: record },
                ),
            },
            None => (
                CreateStage::Done,
                finish(HttpStatus::BadRequest, "Either Content or URL should be set.", false),
            ),
        },
    }
}

/// Stores `module`, named after the manifest attributes `name` and
/// `version`, unless its identifier is taken, and goes on to read its
/// archive for the reply.
fn store_named<S>(
    db: &mut Registry<S>,
    module: Module<S>,
    name: Option<String>,
    version: Option<String>,
    remove_temp: bool,
) -> (r: (CreateStage<S>, FlowAction))
    ensures
        if holds_id(old(db).entries(), module.id@) {
            final(db).entries() == old(db).entries() && r.0 is Done && finishes(
                r.1,
                HttpStatus::Conflict,
                "Package exists already."@,
                remove_temp,
            )
        } else {
            &&& added_named(
                old(db).entries(),
                final(db).entries(),
                module,
                text_of(name),
                text_of(version),
            )
            &&& r.0 matches CreateStage::Responding { metadata, path, remove_temp: t }
                && metadata_matches(metadata, final(db).entries().last()) && path@ == module.path@
                && t == remove_temp
            &&& r.1 matches FlowAction::ReadContent { path } && path@ == module.path@
        },
        ids_unique(final(db).entries()),
{
    proof {
        use_type_invariant(&*db);
        db.lemma_inv_unique();
    }
    if db.contains(&module.id) {
        return (
            CreateStage::Done,
            finish(HttpStatus::Conflict, "Package exists already.", remove_temp),
        );
    }
    let mut module = module;
    module.name = unwrap_or_text(name, "ERROR");
    module.ver = unwrap_or_text(version, "0");
    let metadata = metadata_of(&module);
    let path = module.path.clone();
    let read_path = module.path.clone();
    db.insert(module);
    assert(final(db).entries().drop_last() == old(db).entries());
    (
        CreateStage::Responding { metadata, path, remove_temp },
        FlowAction::ReadContent { path: read_path },
    )
}

/// One step of a request that creates a package from the payload `data`:
/// given the current stage and the outcome of the last piece of outside
/// work, it returns the next stage and the next piece of work, and stores the
/// package in `db` once its archive is in place.
pub fn package_create<S>(
    db: &mut Registry<S>,
    data: &PackageData,
    stage: CreateStage<S>,
    event: FlowEvent<S>,
) -> (r: (CreateStage<S>, FlowAction))
    ensures
        create_step_spec(old(db).entries(), final(db).entries(), *data, stage, event, r.0, r.1),
        ids_unique(old(db).entries()),
        ids_unique(final(db).entries()),
{
    proof {
        use_type_invariant(&*db);
        db.lemma_inv_unique();
    }
    match (stage, event) {
        (CreateStage::Start, FlowEvent::Begin) => create_begin(data),
        (CreateStage::TempWriting { bytes }, FlowEvent::Written(ok)) => {
            if ok {
                (
                    CreateStage::TempReading { bytes },
                    FlowAction::ReadArchive { path: owned("./temp_ece461.zip") },
                )
            } else {
                (CreateStage::Done, finish(HttpStatus::BadRequest, "Failed to convert Content", false))
            }
        },
        (CreateStage::TempReading { bytes }, FlowEvent::Archive(a)) => {
            let name = attribute_of(&a, "name");
            let version = attribute_of(&a, "version");
            let id = match &name {
                Some(n) => n.clone(),
                None => String::new(),
            };
            let url = npm_page(&name);
            let action = FlowAction::Rate { id: id.clone(), url: url.clone() };
            (CreateStage::ContentRating { bytes, name, version, id, url }, action)
        },
        (CreateStage::ContentRating { bytes, name, version, id, url }, FlowEvent::Rated(r)) => {
            match r {
                None => (
                    CreateStage::Done,
                    finish(HttpStatus::BadRequest, "Cannot create entry in database", true),
                ),
                Some((scores, qualifies)) => {
                    if !qualifies {
                        (
                            CreateStage::Done,
                            finish(
                                HttpStatus::FailedDependency,
                                "Package is not uploaded due to the disqualified rating.",
                                true,
                            ),
                        )
                    } else if db.contains(&id) {
                        (
                            CreateStage::Done,
                            finish(HttpStatus::Conflict, "Package exists already.", true),
                        )
                    } else {
                        let path = archive_path_of(&id);
                        let action = FlowAction::WriteFile { path: path.clone(), bytes };
                        let module = Module {
                            name: String::new(),
                            id,
                            ver: String::new(),
                            url,
                            path,
                            scores,
                        };
                        (CreateStage::ContentStoring { module, name, version }, action)
                    }
                },
            }
        },
        (CreateStage::ContentStoring { module, name, version }, FlowEvent::Written(ok)) => {
            if !ok {
                (CreateStage::Done, finish(HttpStatus::BadRequest, "Failed to convert Content", true))
            } else {
                store_named(db, module, name, version, true)
            }
        },
        (CreateStage::Responding { metadata, path, remove_temp }, FlowEvent::Content(bytes)) => {
            let package = crate::schema::Package {
                metadata,
                data: PackageData {
                    Content: Some(crate::codec::encode_content(bytes.as_slice())),
                    URL: None,
                    JSProgram: Some(String::new()),
                },
            };
            (
                CreateStage::Done,
                FlowAction::Finish {
                    answer: Answer::Package(HttpStatus::Created, package),
                    remove_temp,
                },
            )
        },
        (CreateStage::RegistryFetching { url }, FlowEvent::Fetched(t)) => match t {
            None => (CreateStage::Done, finish(HttpStatus::BadRequest, "Invalid URL", false)),
            Some(text) => match registry_repository_url(&text) {
                None => (CreateStage::Done, finish(HttpStatus::BadRequest, "Invalid URL", false)),
                Some(g) => rate_found(url, owner_and_repo(&g)),
            },
        },
        (CreateStage::UrlRating { url, owner, repo }, FlowEvent::Rated(r)) => match r {
            None => (
                CreateStage::Done,
                finish(HttpStatus::BadRequest, "Cannot create entry in database", false),
            ),
            Some((scores, qualifies)) => {
                if !qualifies {
                    (
                        CreateStage::Done,
                        finish(
                            HttpStatus::FailedDependency,
                            "Package is not uploaded due to the disqualified rating.",
                            false,
                        ),
                    )
                } else if db.contains(&repo) {
                    (
                        CreateStage::Done,
                        finish(HttpStatus::Conflict, "Package exists already.", false),
                    )
                } else {
                    let path = archive_path_of(&repo);
                    let download = branch_url(&owner, &repo, "main");
                    let action = FlowAction::Download { url: download, path: path.clone() };
                    let module = Module {
                        name: String::new(),
                        id: repo.clone(),
                        ver: String::new(),
                        url,
                        path,
                        scores,
                    };
                    (CreateStage::MainDownloading { module, owner, repo }, action)
                }
            },
        },
        (CreateStage::MainDownloading { module, owner, repo }, FlowEvent::Downloaded(ok)) => {
            if ok {
                let path = module.path.clone();
                (CreateStage::ArchiveReading { module }, FlowAction::ReadArchive { path })
            } else {
                let path = module.path.clone();
                let download = branch_url(&owner, &repo, "master");
                (
                    CreateStage::MasterDownloading { module },
                    FlowAction::Download { url: download, path },
                )
            }
        },
        (CreateStage::MasterDownloading { module }, FlowEvent::Downloaded(ok)) => {
            if ok {
                let path = module.path.clone();
                (CreateStage::ArchiveReading { module }, FlowAction::ReadArchive { path })
            } else {
                (CreateStage::Done, finish(HttpStatus::BadRequest, "Bad Request", false))
            }
        },
        (CreateStage::ArchiveReading { module }, FlowEvent::Archive(a)) => {
            let name = attribute_of(&a, "name");
            let version = attribute_of(&a, "version");
            store_named(db, module, name, version, false)
        },
        _ => (CreateStage::Done, finish(HttpStatus::BadRequest, "Bad Request", false)),
    }
}

} // verus!

verus! {

/// The progress of a request that updates the package stored under an
/// identifier.
pub enum UpdateStage<S> {
    /// Nothing done yet.
    Start,
    /// The uploaded content is being written over the package's archive.
    Storing,
    /// The npm registry record of the given package URL is being fetched.
    RegistryFetching { url: String, path: String },
    /// The repository at `url` is being rated.
    Rating { url: String, owner: String, repo: String, path: String },
    /// The `main` branch archive is being downloaded.
    MainDownloading { module: Module<S>, owner: String, repo: String },
    /// The `master` branch archive is being downloaded.
    MasterDownloading { module: Module<S> },
    /// The request is answered.
    Done,
}

/// Rating the repository `owner/repo` found behind the package URL `url` for
/// the package `id` whose archive is `path`, or refusing the URL.
pub open spec fn update_rates<S>(
    id: Seq<char>,
    url: Seq<char>,
    found: Option<(Seq<char>, Seq<char>)>,
    path: Seq<char>,
    next: UpdateStage<S>,
    action: FlowAction,
) -> bool {
    match found {
        None => next is Done && finishes(action, HttpStatus::BadRequest, "Bad URL"@, false),
        Some((o, r)) => {
            &&& next matches UpdateStage::Rating { url: u, owner, repo, path: p } && u@ == url
                && owner@ == o && repo@ == r && p@ == path
            &&& action matches FlowAction::Rate { id: i, url: ru } && i@ == id && ru@ == url
        },
    }
}

/// Whether the metadata of the request names the stored module `m`.
pub open spec fn names_module<S>(md: PackageMetadata, m: Module<S>) -> bool {
    md.Name@ == m.name@ && md.Version@ == m.ver@ && md.ID@ == m.id@
}

/// The first step of a request that updates the package stored under `id`
/// with `package`.
pub open spec fn update_begins<S>(
    before: Seq<Module<S>>,
    id: Seq<char>,
    package: crate::schema::Package,
    next: UpdateStage<S>,
    action: FlowAction,
) -> bool {
    match crate::registry::lookup(before, id) {
        None => next is Done && finishes(
            action,
            HttpStatus::NotFound,
            "Package does not exist."@,
            false,
        ),
        Some(m) => if !names_module(package.metadata, m) {
            next is Done && finishes(action, HttpStatus::NotFound, "Package does not exist."@, false)
        } else {
            match package.data.Content {
                Some(c) => match decoded_content(c@) {
                    None => next is Done && finishes(
                        action,
                        HttpStatus::NotFound,
                        "Package does not exist."@,
                        false,
                    ),
                    Some(b) => {
                        &&& next is Storing
                        &&& action matches FlowAction::WriteFile { path, bytes } && path@ == m.path@
                            && bytes@ == b
                    },
                },
                None => match package.data.URL {
                    Some(u) => match repository_source(u@) {
                        RepoSourceView::Invalid => next is Done && finishes(
                            action,
                            HttpStatus::BadRequest,
                            "Bad URL"@,
                            false,
                        ),
                        RepoSourceView::GitHub(g) => update_rates(
                            id,
                            u@,
                            owner_repo(g),
                            m.path@,
                            next,
                            action,
                        ),
                        RepoSourceView::Npm(record) => {
                            &&& next matches UpdateStage::RegistryFetching { url, path } && url@
                                == u@ && path@ == m.path@
                            &&& action matches FlowAction::Fetch { url } && url@ == record
                        },
                    },
                    None => next is Done && finishes(
                        action,
                        HttpStatus::BadRequest,
                        "At least one of Content or URL should be set"@,
                        false,
                    ),
                },
            }
        },
    }
}

/// What one step of an update request does: from the registry `before`, the
/// identifier and package of the request, the stage and the event, to the
/// registry `after`, the next stage and the next action.
pub open spec fn update_step_spec<S>(
    before: Seq<Module<S>>,
    after: Seq<Module<S>>,
    id: Seq<char>,
    package: crate::schema::Package,
    stage: UpdateStage<S>,
    event: FlowEvent<S>,
    next: UpdateStage<S>,
    action: FlowAction,
) -> bool {
    match (stage, event) {
        (UpdateStage::Start, FlowEvent::Begin) => after == before && update_begins(
            before,
            id,
            package,
            next,
            action,
        ),
        (UpdateStage::Storing, FlowEvent::Written(ok)) => {
            &&& after == before
            &&& next is Done
            &&& ok ==> finishes(action, HttpStatus::Success, "Version is updated."@, false)
            &&& !ok ==> finishes(action, HttpStatus::NotFound, "Package does not exist."@, false)
        },
        (UpdateStage::RegistryFetching { url, path }, FlowEvent::Fetched(t)) => {
            &&& after == before
            &&& match t {
                None => next is Done && finishes(action, HttpStatus::BadRequest, "Bad URL"@, false),
                Some(text) => match registry_repository(text@) {
                    None => next is Done && finishes(
                        action,
                        HttpStatus::BadRequest,
                        "Bad URL"@,
                        false,
                    ),
                    Some(g) => update_rates(id, url@, owner_repo(g), path@, next, action),
                },
            }
        },
        (UpdateStage::Rating { url, owner, repo, path }, FlowEvent::Rated(r)) => {
            &&& after == before
            &&& match r {
                None => next is Done && finishes(
                    action,
                    HttpStatus::BadRequest,
                    "Cannot create entry in database"@,
                    false,
                ),
                Some((scores, qualifies)) => if !qualifies {
                    next is Done && finishes(
                        action,
                        HttpStatus::FailedDependency,
                        "Package is not uploaded due to the disqualified rating."@,
                        false,
                    )
                } else {
                    &&& next matches UpdateStage::MainDownloading { module, owner: o, repo: r2 }
                        && is_rated_module(module, id, url@, path@, scores) && o@ == owner@ && r2@
                        == repo@
                    &&& action matches FlowAction::Download { url: d, path: p } && d@
                        == branch_archive_url(owner@, repo@, "main"@) && p@ == path@
                },
            }
        },
        (UpdateStage::MainDownloading { module, owner, repo }, FlowEvent::Downloaded(ok)) => if ok {
            &&& after == crate::registry::stored(before, module)
            &&& next is Done
            &&& finishes(action, HttpStatus::Success, "Version is updated."@, false)
        } else {
            &&& after == before
            &&& next == UpdateStage::MasterDownloading { module }
            &&& action matches FlowAction::Download { url, path } && url@ == branch_archive_url(
                owner@,
                repo@,
                "master"@,
            ) && path@ == module.path@
        },
        (UpdateStage::MasterDownloading { module }, FlowEvent::Downloaded(ok)) => {
            &&& next is Done
            &&& if ok {
                &&& after == crate::registry::stored(before, module)
                &&& finishes(action, HttpStatus::Success, "Version is updated."@, false)
            } else {
                &&& after == before
                &&& finishes(action, HttpStatus::BadRequest, "Bad Request"@, false)
            }
        },
        _ => {
            &&& after == before
            &&& next is Done
            &&& finishes(action, HttpStatus::BadRequest, "Bad Request"@, false)
        },
    }
}

/// Rates the repository found behind the package URL `url` for the package
/// `id`, or refuses the URL when none was found.
fn update_rate_found<S>(id: &String, url: String, found: Option<(String, String)>, path: String) -> (r: (
    UpdateStage<S>,
    FlowAction,
))
    ensures
        update_rates(
            id@,
            url@,
            match found {
                Some((o, p)) => Some((o@, p@)),
                None => None,
            },
            path@,
            r.0,
            r.1,
        ),
{
    match found {
        None => (UpdateStage::Done, finish(HttpStatus::BadRequest, "Bad URL", false)),
        Some((owner, repo)) => {
            let action = FlowAction::Rate { id: id.clone(), url: url.clone() };
            (UpdateStage::Rating { url, owner, repo, path }, action)
        },
    }
}

/// The first step of an update request.
fn update_begin<S>(db: &Registry<S>, id: &String, package: &crate::schema::Package) -> (r: (
    UpdateStage<S>,
    FlowAction,
))
    ensures
        update_begins(db.entries(), id@, *package, r.0, r.1),
{
    let m = match db.get(id) {
        Some(m) => m,
        None => {
            return (
                UpdateStage::Done,
                finish(HttpStatus::NotFound, "Package does not exist.", false),
            );
        },
    };
    if !(package.metadata.Name == m.name && package.metadata.Version == m.ver
        && package.metadata.ID == m.id) {
        return (UpdateStage::Done, finish(HttpStatus::NotFound, "Package does not exist.", false));
    }
    match &package.data.Content {
        Some(c) => match decode_content(c.as_str()) {
            None => (
                UpdateStage::Done,
                finish(HttpStatus::NotFound, "Package does not exist.", false),
            ),
            Some(bytes) => (
                UpdateStage::Storing,
                FlowAction::WriteFile { path: m.path.clone(), bytes },
            ),
        },
        None => match &package.data.URL {
            Some(u) => match classify_repository_url(u) {
                RepoSource::Invalid => (
                    UpdateStage::Done,
                    finish(HttpStatus::BadRequest, "Bad URL", false),
                ),
                RepoSource::GitHub(g) => update_rate_found(
                    id,
                    u.clone(),
                    owner_and_repo(&g),
                    m.path.clone(),
                ),
                RepoSource::Npm(record) => (
                    UpdateStage::RegistryFetching { url: u.clone(), path: m.path.clone() },
                    FlowAction::Fetch { url: record },
                ),
            },
            None => (
                UpdateStage::Done,
                finish(
                    HttpStatus::BadRequest,
                    "At least one of Content or URL should be set",
                    false,
                ),
            ),
        },
    }
}

/// One step of a request that updates the package stored under `id` with
/// `package`: given the current stage and the outcome of the last piece of
/// outside work, it returns the next stage and the next piece of work, and
/// replaces the stored package once a new archive is downloaded.
pub fn package_update<S>(
    db: &mut Registry<S>,
    id: &String,
    package: &crate::schema::Package,
    stage: UpdateStage<S>,
    event: FlowEvent<S>,
) -> (r: (UpdateStage<S>, FlowAction))
    ensures
        update_step_spec(
            old(db).entries(),
            final(db).entries(),
            id@,
            *package,
            stage,
            event,
            r.0,
            r.1,
        ),
        ids_unique(old(db).entries()),
        ids_unique(final(db).entries()),
{
    proof {
        use_type_invariant(&*db);
        db.lemma_inv_unique();
    }
    match (stage, event) {
        (UpdateStage::Start, FlowEvent::Begin) => update_begin(db, id, package),
        (UpdateStage::Storing, FlowEvent::Written(ok)) => {
            if ok {
                (UpdateStage::Done, finish(HttpStatus::Success, "Version is updated.", false))
            } else {
                (UpdateStage::Done, finish(HttpStatus::NotFound, "Package does not exist.", false))
            }
        },
        (UpdateStage::RegistryFetching { url, path }, FlowEvent::Fetched(t)) => match t {
            None => (UpdateStage::Done, finish(HttpStatus::BadRequest, "Bad URL", false)),
            Some(text) => match registry_repository_url(&text) {
                None => (UpdateStage::Done, finish(HttpStatus::BadRequest, "Bad URL", false)),
                Some(g) => update_rate_found(id, url, owner_and_repo(&g), path),
            },
        },
        (UpdateStage::Rating { url, owner, repo, path }, FlowEvent::Rated(r)) => match r {
            None => (
                UpdateStage::Done,
                finish(HttpStatus::BadRequest, "Cannot create entry in database", false),
            ),
            Some((scores, qualifies)) => {
                if !qualifies {
                    return (
                        UpdateStage::Done,
                        finish(
                            HttpStatus::FailedDependency,
                            "Package is not uploaded due to the disqualified rating.",
                            false,
                        ),
                    );
                }
                let download = branch_url(&owner, &repo, "main");
                let action = FlowAction::Download { url: download, path: path.clone() };
                let module = Module {
                    name: String::new(),
                    id: id.clone(),
                    ver: String::new(),
                    url,
                    path,
                    scores,
                };
                (UpdateStage::MainDownloading { module, owner, repo }, action)
            },
        },
        (UpdateStage::MainDownloading { module, owner, repo }, FlowEvent::Downloaded(ok)) => {
            if ok {
                db.insert(module);
                (UpdateStage::Done, finish(HttpStatus::Success, "Version is updated.", false))
            } else {
                let path = module.path.clone();
                let download = branch_url(&owner, &repo, "master");
                (
                    UpdateStage::MasterDownloading { module },
                    FlowAction::Download { url: download, path },
                )
            }
        },
        (UpdateStage::MasterDownloading { module }, FlowEvent::Downloaded(ok)) => {
            if ok {
                db.insert(module);
                (UpdateStage::Done, finish(HttpStatus::Success, "Version is updated.", false))
            } else {
                (UpdateStage::Done, finish(HttpStatus::BadRequest, "Bad Request", false))
            }
        },
        _ => (UpdateStage::Done, finish(HttpStatus::BadRequest, "Bad Request", false)),
    }
}

} // verus!
