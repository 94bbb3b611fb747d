//! Properties that hold across the operations of the service.
use vstd::prelude::*;
use crate::flows::{CreateStage, FlowAction, FlowEvent, UpdateStage, create_step_spec, update_step_spec};
use crate::listing::{PAGE_SIZE, has_wildcard, listed, next_offset, page, page_end, pages_from, query_matches};
use crate::registry::{
    Module, first_named, holds_id, ids_unique, law_remove_leaves_none, law_store_then_lookup, lookup, named, not_named,
    stored, without_id,
};
use crate::api::regex_selected;
use crate::archive::{manifest_attribute, readme_matches};
use crate::pattern::{regex_compiles, regex_finds, regex_groups};
use crate::repository::owner_repo;
use crate::schema::{Package, PackageData, PackageQuery};
use crate::sort::{law_sort_by_key, sorted_by_key};
use crate::text::{decimal, digits_value, lemma_decimal_value};

verus! {

/// One step of a create request either leaves the registry as it was, or
/// adds exactly one package, under an identifier that no stored package had,
/// which is then found under that identifier, and goes on to reply with that
/// package. Identifiers stay unique.
pub proof fn law_create_adds_only_new<S>(
    before: Seq<Module<S>>,
    after: Seq<Module<S>>,
    data: PackageData,
    stage: CreateStage<S>,
    event: FlowEvent<S>,
    next: CreateStage<S>,
    action: FlowAction,
)
    requires
        ids_unique(before),
        create_step_spec(before, after, data, stage, event, next, action),
    ensures
        ids_unique(after),
        after == before || {
            &&& after.len() == before.len() + 1
            &&& after.drop_last() == before
            &&& !holds_id(before, after.last().id@)
            &&& lookup(after, after.last().id@) == Some(after.last())
            &&& next is Responding
        },
{
    if after != before {
        let m = after.last();
        assert(after == before.push(m));
        assert forall|a: int, b: int|
            0 <= a < after.len() && 0 <= b < after.len() && a != b implies #[trigger] after[a].id@
            != #[trigger] after[b].id@ by {
            if a < before.len() && b < before.len() {
                assert(before[a].id@ != before[b].id@);
            } else if a == before.len() {
                assert(after[b] == before[b]);
            } else {
                assert(after[a] == before[a]);
            }
        }
        crate::registry::lemma_lookup_at(after, after.len() - 1);
    }
}

/// One step of an update request either leaves the registry as it was, or
/// stores a package under the identifier of the request, in place of the
/// package stored there. Identifiers stay unique.
pub proof fn law_update_replaces_only_its_package<S>(
    before: Seq<Module<S>>,
    after: Seq<Module<S>>,
    id: Seq<char>,
    package: Package,
    stage: UpdateStage<S>,
    event: FlowEvent<S>,
    next: UpdateStage<S>,
    action: FlowAction,
)
    requires
        ids_unique(before),
        update_step_spec(before, after, id, package, stage, event, next, action),
        update_stage_valid(stage, id),
    ensures
        ids_unique(after),
        after == before || exists|m: Module<S>|
            m.id@ == id && after == stored(before, m) && lookup(after, id) == Some(m),
{
    match stage {
        UpdateStage::MainDownloading { module, .. } => {
            law_store_then_lookup(before, module);
        },
        UpdateStage::MasterDownloading { module } => {
            law_store_then_lookup(before, module);
        },
        _ => {},
    }
}

/// Whether a stage of an update request for the identifier `id` holds only
/// a package with that identifier.
pub open spec fn update_stage_valid<S>(stage: UpdateStage<S>, id: Seq<char>) -> bool {
    match stage {
        UpdateStage::MainDownloading { module, .. } => module.id@ == id,
        UpdateStage::MasterDownloading { module } => module.id@ == id,
        _ => true,
    }
}

/// Every stage that an update request reaches holds only a package with the
/// request's identifier.
pub proof fn law_update_stage_valid<S>(
    before: Seq<Module<S>>,
    after: Seq<Module<S>>,
    id: Seq<char>,
    package: Package,
    stage: UpdateStage<S>,
    event: FlowEvent<S>,
    next: UpdateStage<S>,
    action: FlowAction,
)
    requires
        update_stage_valid(stage, id),
        update_step_spec(before, after, id, package, stage, event, next, action),
    ensures
        update_stage_valid(next, id),
{
}

/// A listing holds the selected packages sorted by identifier, each as many
/// times as it was selected.
pub proof fn law_listing_sorted<S>(s: Seq<Module<S>>, qs: Seq<PackageQuery>)
    ensures
        sorted_by_key(listed(s, qs), |m: Module<S>| m.id@),
        listed(s, qs).to_multiset() == query_matches(s, qs).to_multiset(),
{
    law_sort_by_key(query_matches(s, qs), |m: Module<S>| m.id@);
}

/// A query for every package lists every stored package exactly once.
pub proof fn law_wildcard_lists_all<S>(s: Seq<Module<S>>, qs: Seq<PackageQuery>)
    requires
        has_wildcard(qs),
    ensures
        listed(s, qs).to_multiset() == s.to_multiset(),
        listed(s, qs).len() == s.len(),
{
    law_sort_by_key(s, |m: Module<S>| m.id@);
}

/// A page holds at most `PAGE_SIZE` packages; the offset of the next page is
/// empty exactly on the last page, and otherwise reads back as the position
/// where the page ends.
pub proof fn law_next_offset(len: int, offset: int)
    requires
        0 <= offset < len,
    ensures
        0 < page_end(len, offset) - offset <= PAGE_SIZE,
        next_offset(len, offset) == Seq::<char>::empty() <==> page_end(len, offset) == len,
        page_end(len, offset) < len ==> digits_value(next_offset(len, offset)) == page_end(
            len,
            offset,
        ),
{
    if offset + PAGE_SIZE < len {
        lemma_decimal_value((offset + PAGE_SIZE) as nat);
    }
}

/// After deleting the packages named `name`, none is left with that name.
pub proof fn law_delete_by_name_leaves_none<S>(s: Seq<Module<S>>, name: Seq<char>)
    requires
        ids_unique(s),
    ensures
        named(not_named(s, name), name).len() == 0,
{
    crate::registry::law_remove_named(s, name, Seq::empty());
    let t = not_named(s, name);
    let u = named(t, name);
    crate::registry::lemma_filter_unique(t, |m: Module<S>| crate::registry::has_name(m, name));
    if u.len() > 0 {
        assert(u.contains(u[0]));
        assert(t.contains(u[0]));
        let i = choose|i: int| 0 <= i < t.len() && t[i] == u[0];
        assert(t[i].name@ != name);
    }
}

/// The pages from `offset` on are the entries from `offset` on.
proof fn lemma_pages_from<T>(l: Seq<T>, offset: int)
    requires
        0 <= offset <= l.len(),
    ensures
        pages_from(l, offset) == l.skip(offset),
    decreases l.len() - offset,
{
    if offset < l.len() && offset + PAGE_SIZE < l.len() {
        lemma_pages_from(l, offset + PAGE_SIZE);
        assert(page(l, offset) + l.skip(offset + PAGE_SIZE) == l.skip(offset));
    } else if offset < l.len() {
        assert(page(l, offset) == l.skip(offset));
    } else {
        assert(l.skip(offset).len() == 0);
    }
}

/// Following the pages of a listing from `offset`, each page starting where
/// the one before ended, gives every entry from `offset` on exactly once and
/// in order; from offset 0 the pages make up the whole listing.
pub proof fn law_pages_cover<T>(l: Seq<T>, offset: int)
    requires
        0 <= offset <= l.len(),
    ensures
        pages_from(l, offset) == l.skip(offset),
        pages_from(l, 0) == l,
{
    lemma_pages_from(l, offset);
    lemma_pages_from(l, 0);
    assert(l.skip(0) == l);
}

/// Deleting an identifier a second time finds nothing and changes nothing.
pub proof fn law_delete_twice<S>(s: Seq<Module<S>>, id: Seq<char>)
    requires
        ids_unique(s),
    ensures
        lookup(without_id(s, id), id) is None,
        without_id(without_id(s, id), id) == without_id(s, id),
{
    law_remove_leaves_none(s, id);
}

/// The manifest attribute `attr` of the archive `archive`, or `d` when the
/// manifest lacks it.
pub open spec fn manifest_or(archive: Seq<u8>, attr: Seq<char>, d: Seq<char>) -> Seq<char> {
    match manifest_attribute(archive, attr) {
        Some(v) => v,
        None => d,
    }
}

/// Whether `action` downloads `url` into the file `path`.
pub open spec fn downloads(action: FlowAction, url: Seq<char>, path: Seq<char>) -> bool {
    match action {
        FlowAction::Download { url: u, path: p } => u@ == url && p@ == path,
        _ => false,
    }
}

/// Whether a create request goes on to reply with the package named `name`,
/// versioned `version` and identified `id`.
pub open spec fn responds_with<S>(next: CreateStage<S>, name: Seq<char>, version: Seq<char>, id: Seq<char>) -> bool {
    match next {
        CreateStage::Responding { metadata, path, remove_temp } => metadata.Name@ == name
            && metadata.Version@ == version && metadata.ID@ == id,
        _ => false,
    }
}

/// The archive of branch `branch` of the GitHub repository `owner/repo`.
pub open spec fn github_branch_zip(owner: Seq<char>, repo: Seq<char>, branch: Seq<char>) -> Seq<char> {
    "https://github.com/"@ + owner + "/"@ + repo + "/archive/refs/heads/"@ + branch + ".zip"@
}

/// Whether a stored module matches the expression by name or by readme.
pub open spec fn matches_by_name_or_readme<S>(m: Module<S>, re: Seq<char>, archive: Option<Seq<u8>>) -> bool {
    regex_finds(re, m.name@) || (archive matches Some(a) && readme_matches(re, a))
}

/// When a create request from a URL stores the package whose archive it has
/// just read, the stored package takes its name and version from that
/// archive's manifest (`ERROR` and `0` when the manifest lacks them),
/// whatever the repository is called; it keeps the identifier it was rated
/// under, and the reply to come carries that name, version and identifier.
pub proof fn law_url_create_names_from_manifest<S>(
    before: Seq<Module<S>>,
    after: Seq<Module<S>>,
    data: PackageData,
    module: Module<S>,
    archive: Vec<u8>,
    next: CreateStage<S>,
    action: FlowAction,
)
    requires
        create_step_spec(
            before,
            after,
            data,
            (CreateStage::ArchiveReading { module }),
            FlowEvent::Archive(Some(archive)),
            next,
            action,
        ),
        after != before,
    ensures
        after.len() == before.len() + 1,
        after.last().name@ == manifest_or(archive@, "name"@, "ERROR"@),
        after.last().ver@ == manifest_or(archive@, "version"@, "0"@),
        after.last().id@ == module.id@,
        responds_with(next, after.last().name@, after.last().ver@, module.id@),
{
}

/// The text `https://github.com/<owner>/<repo>/archive/refs/heads/<branch>.zip`.
proof fn lemma_branch_url(owner: Seq<char>, repo: Seq<char>, branch: Seq<char>)
    ensures
        crate::flows::branch_archive_url(owner, repo, branch) == github_branch_zip(owner, repo, branch),
{
}

/// The main and master branch archives of a repository are different URLs.
proof fn lemma_main_is_not_master(owner: Seq<char>, repo: Seq<char>)
    ensures
        github_branch_zip(owner, repo, "main"@) != github_branch_zip(owner, repo, "master"@),
{
    reveal_strlit("main");
    reveal_strlit("master");
    reveal_strlit(".zip");
    let a = github_branch_zip(owner, repo, "main"@);
    let b = github_branch_zip(owner, repo, "master"@);
    assert(a.len() + 2 == b.len());
}

/// When the main-branch download of an update fails, the registry is left
/// as it was and the next download is the master-branch archive
/// `https://github.com/<owner>/<repo>/archive/refs/heads/master.zip`, into the
/// same file, which is not the URL that just failed.
pub proof fn law_update_falls_back_to_master<S>(
    before: Seq<Module<S>>,
    after: Seq<Module<S>>,
    id: Seq<char>,
    package: Package,
    module: Module<S>,
    owner: String,
    repo: String,
    next: UpdateStage<S>,
    action: FlowAction,
)
    requires
        update_step_spec(
            before,
            after,
            id,
            package,
            (UpdateStage::MainDownloading { module, owner, repo }),
            FlowEvent::Downloaded(false),
            next,
            action,
        ),
    ensures
        after == before,
        next == (UpdateStage::MasterDownloading { module }),
        downloads(action, github_branch_zip(owner@, repo@, "master"@), module.path@),
        !downloads(action, github_branch_zip(owner@, repo@, "main"@), module.path@),
{
    lemma_branch_url(owner@, repo@, "master"@);
    lemma_branch_url(owner@, repo@, "main"@);
    lemma_main_is_not_master(owner@, repo@);
}

/// When the main-branch download of a create request fails, the registry is
/// left as it was and the next download is the master-branch archive of the
/// same repository, into the same file, which is not the URL that just
/// failed.
pub proof fn law_create_falls_back_to_master<S>(
    before: Seq<Module<S>>,
    after: Seq<Module<S>>,
    data: PackageData,
    module: Module<S>,
    owner: String,
    repo: String,
    next: CreateStage<S>,
    action: FlowAction,
)
    requires
        create_step_spec(
            before,
            after,
            data,
            (CreateStage::MainDownloading { module, owner, repo }),
            FlowEvent::Downloaded(false),
            next,
            action,
        ),
    ensures
        after == before,
        next == (CreateStage::MasterDownloading { module }),
        downloads(action, github_branch_zip(owner@, repo@, "master"@), module.path@),
        !downloads(action, github_branch_zip(owner@, repo@, "main"@), module.path@),
{
    lemma_branch_url(owner@, repo@, "master"@);
    lemma_branch_url(owner@, repo@, "main"@);
    lemma_main_is_not_master(owner@, repo@);
}

/// A search by regular expression selects exactly the stored packages whose
/// name the expression matches or whose readme (in their archive, when it
/// could be read) it matches: every package whose name matches is selected,
/// whatever its identifier, and every selected package is a stored package
/// that matches by name or by readme.
pub proof fn law_regex_search_by_name_or_readme<S>(
    s: Seq<Module<S>>,
    re: Seq<char>,
    archives: Seq<Option<Seq<u8>>>,
)
    requires
        archives.len() == s.len(),
    ensures
        forall|i: int|
            0 <= i < s.len() && regex_finds(re, s[i].name@) ==> regex_selected(s, re, archives).contains(
                #[trigger] s[i],
            ),
        forall|i: int|
            0 <= i < s.len() && matches_by_name_or_readme(s[i], re, archives[i]) ==> regex_selected(
                s,
                re,
                archives,
            ).contains(#[trigger] s[i]),
        forall|m: Module<S>|
            #[trigger] regex_selected(s, re, archives).contains(m) ==> (exists|i: int|
                0 <= i < s.len() && s[i] == m && matches_by_name_or_readme(m, re, archives[i])),
    decreases s.len(),
{
    if s.len() > 0 {
        let s0 = s.drop_last();
        let a0 = archives.drop_last();
        law_regex_search_by_name_or_readme(s0, re, a0);
        let rest = regex_selected(s0, re, a0);
        let sel = regex_selected(s, re, archives);
        let n = s.len() - 1;
        assert forall|i: int|
            0 <= i < s.len() && matches_by_name_or_readme(s[i], re, archives[i]) implies sel.contains(
                s[i],
            ) by {
            if i < n {
                assert(s0[i] == s[i]);
                assert(a0[i] == archives[i]);
                assert(rest.contains(s0[i]));
                let k = choose|k: int| 0 <= k < rest.len() && rest[k] == s0[i];
                if sel != rest {
                    assert(sel == rest.push(s.last()));
                    assert(sel[k] == s[i]);
                }
            } else {
                assert(sel == rest.push(s.last()));
                assert(sel[rest.len() as int] == s[i]);
            }
        }
        assert forall|i: int| 0 <= i < s.len() && regex_finds(re, s[i].name@) implies sel.contains(
            s[i],
        ) by {
            assert(matches_by_name_or_readme(s[i], re, archives[i]));
        }
        assert forall|m: Module<S>| #[trigger] sel.contains(m) implies (exists|i: int|
            0 <= i < s.len() && s[i] == m && matches_by_name_or_readme(m, re, archives[i])) by {
            let k = choose|k: int| 0 <= k < sel.len() && sel[k] == m;
            if k < rest.len() {
                assert(rest[k] == m);
                assert(rest.contains(m));
                let i = choose|i: int|
                    0 <= i < s0.len() && s0[i] == m && matches_by_name_or_readme(m, re, a0[i]);
                assert(s[i] == m && archives[i] == a0[i]);
            } else {
                assert(m == s[n]);
            }
        }
    }
}

/// Whether `s[i]` has the name `name` and no module before it has.
pub open spec fn first_with_name<S>(s: Seq<Module<S>>, name: Seq<char>, i: int) -> bool {
    s[i].name@ == name && forall|j: int| 0 <= j < i ==> (#[trigger] s[j]).name@ != name
}

/// The package that a name query selects has exactly the queried name, and
/// it is the first stored package with that name; when the query selects
/// nothing, no stored package has that name.
pub proof fn law_first_named_is_exact<S>(s: Seq<Module<S>>, name: Seq<char>)
    ensures
        (first_named(s, name) matches Some(m) ==> m.name@ == name && (exists|i: int|
            0 <= i < s.len() && s[i] == m && first_with_name(s, name, i))),
        (first_named(s, name) is None ==> (forall|i: int|
            0 <= i < s.len() ==> (#[trigger] s[i]).name@ != name)),
    decreases s.len(),
{
    if s.len() > 0 && s[0].name@ != name {
        let t = s.drop_first();
        law_first_named_is_exact(t, name);
        assert forall|i: int| 0 <= i < s.len() && first_named(s, name) is None implies (
        #[trigger] s[i]).name@ != name by {
            if i > 0 {
                assert(s[i] == t[i - 1]);
            }
        }
        if first_named(s, name) is Some {
            let m = first_named(s, name)->0;
            let i = choose|i: int| 0 <= i < t.len() && t[i] == m && first_with_name(t, name, i);
            assert(s[i + 1] == m);
            assert forall|j: int| 0 <= j < i + 1 implies (#[trigger] s[j]).name@ != name by {
                if j > 0 {
                    assert(s[j] == t[j - 1]);
                }
            }
        }
    } else if s.len() > 0 {
        assert(s[0] == first_named(s, name)->0);
    }
}

/// The first and second capture groups of `pattern` in `text`, when the
/// pattern compiles, matches, and both groups take part in the match.
pub open spec fn first_two_groups(pattern: Seq<char>, text: Seq<char>) -> Option<(Seq<char>, Seq<char>)> {
    if !regex_compiles(pattern) {
        None
    } else {
        match regex_groups(pattern, text) {
            Some(g) => if g.len() > 2 && g[1] is Some && g[2] is Some {
                Some((g[1]->0, g[2]->0))
            } else {
                None
            },
            None => None,
        }
    }
}

/// The owner and repository name behind a GitHub URL are what the regular
/// expression `.*github.com/([^/]+)/([^/^\.]+)(\.git)?` captures in it: the
/// owner runs up to the next `/`, and the repository name runs from there up
/// to the next `/`, `^` or `.` (so `-` and `_` stay in it), without a
/// trailing `.git`.
pub proof fn law_owner_repo_groups(url: Seq<char>)
    ensures
        owner_repo(url) == first_two_groups(".*github.com/([^/]+)/([^/^\\.]+)(\\.git)?"@, url),
{
}

} // verus!
