//! The service's requests that read or change the registry directly:
//! retrieving, rating, deleting and searching packages.
use vstd::prelude::*;
use crate::archive::{match_readme, readme_matches};
use crate::codec::{base64_padded_encoding, decoded_content, encode_content};
use crate::pattern::{Pattern, compile, is_match, regex_compiles, regex_finds};
use crate::registry::{
    Module, Registry, has_name, ids_unique, law_remove_leaves_none, lookup, metadata_matches, metadata_of,
    named, not_named, without_id,
};
use crate::response::{HttpStatus, Reply, is_reply, reply};
use crate::schema::{Package, PackageData, PackageHistoryEntry, PackageMetadata, PackageRegEx, User};
use crate::text::{decimal, decimal_string, owned};

verus! {

broadcast use vstd::seq_lib::group_seq_properties;

/// A reply that carries a package, or a plain reply.
pub enum Answer {
    Package(HttpStatus, Package),
    Message(Reply),
}

/// Whether `p` is the package of module `m` with content `content`: its
/// metadata, the content in padded standard Base64, no URL and an empty
/// install script.
pub open spec fn is_package_of<S>(p: Package, m: Module<S>, content: Seq<u8>) -> bool {
    &&& metadata_matches(p.metadata, m)
    &&& p.data.Content matches Some(c) && c@ == base64_padded_encoding(content) && decoded_content(
        c@,
    ) == Some(content)
    &&& p.data.URL is None
    &&& p.data.JSProgram matches Some(j) && j@ == Seq::<char>::empty()
}

/// The package of module `m`, whose archive holds `content`.
pub fn package_of<S>(m: &Module<S>, content: &[u8]) -> (p: Package)
    ensures
        is_package_of(p, *m, content@),
{
    Package {
        metadata: metadata_of(m),
        data: PackageData {
            Content: Some(encode_content(content)),
            URL: None,
            JSProgram: Some(String::new()),
        },
    }
}

/// The module to retrieve under `id`; not found when none is stored.
pub fn package_retrieve<'a, S>(db: &'a Registry<S>, id: &String) -> (r: Result<&'a Module<S>, Reply>)
    ensures
        match r {
            Ok(m) => lookup(db.entries(), id@) == Some(*m),
            Err(e) => lookup(db.entries(), id@) is None && is_reply(
                e,
                HttpStatus::NotFound,
                "Package does not exist."@,
            ),
        },
{
    match db.get(id) {
        Some(m) => Ok(m),
        None => Err(reply(HttpStatus::NotFound, "Package does not exist.")),
    }
}

/// The ratings of the module stored under `id`; not found when none is
/// stored.
pub fn package_rate<'a, S>(db: &'a Registry<S>, id: &String) -> (r: Result<&'a S, Reply>)
    ensures
        match r {
            Ok(scores) => lookup(db.entries(), id@) matches Some(m) && m.scores == *scores,
            Err(e) => lookup(db.entries(), id@) is None && is_reply(
                e,
                HttpStatus::NotFound,
                "Package does not exist."@,
            ),
        },
{
    match db.get(id) {
        Some(m) => Ok(&m.scores),
        None => Err(reply(HttpStatus::NotFound, "Package does not exist.")),
    }
}

/// Deletes the module stored under `id`; returns the reply and the deleted
/// module, whose archive file is to be removed.
pub fn package_delete<S>(db: &mut Registry<S>, id: &String) -> (r: (Reply, Option<Module<S>>))
    ensures
        final(db).entries() == without_id(old(db).entries(), id@),
        r.1 == lookup(old(db).entries(), id@),
        r.1 is Some ==> is_reply(r.0, HttpStatus::Success, "Package is deleted."@),
        r.1 is None ==> is_reply(r.0, HttpStatus::NotFound, "No such package."@),
        lookup(final(db).entries(), id@) is None,
        ids_unique(old(db).entries()),
        ids_unique(final(db).entries()),
{
    let removed = db.remove(id);
    proof {
        law_remove_leaves_none(old(db).entries(), id@);
    }
    match removed {
        Some(m) => (reply(HttpStatus::Success, "Package is deleted."), Some(m)),
        None => (reply(HttpStatus::NotFound, "No such package."), None),
    }
}

/// Empties the registry; returns the reply and the removed modules, whose
/// archive files are to be removed.
pub fn package_reset<S>(db: &mut Registry<S>) -> (r: (Reply, Vec<Module<S>>))
    ensures
        final(db).entries() == Seq::<Module<S>>::empty(),
        r.1@ == old(db).entries(),
        ids_unique(old(db).entries()),
        is_reply(r.0, HttpStatus::Success, "Registry is reset."@),
{
    let all = db.drain_all();
    (reply(HttpStatus::Success, "Registry is reset."), all)
}

/// Whether `e` is the history entry of the creation of module `m`.
pub open spec fn is_creation_entry<S>(e: PackageHistoryEntry, m: Module<S>) -> bool {
    &&& e.User.name@ == Seq::<char>::empty()
    &&& !e.User.isAdmin
    &&& e.Date@ == Seq::<char>::empty()
    &&& metadata_matches(e.PackageMetadata, m)
    &&& e.Action@ == "CREATE"@
}

/// The history of the packages named `name`: one creation entry for each
/// stored module with that name, in registry order; not found when there is
/// none.
pub fn package_by_name_get<S>(db: &Registry<S>, name: &String) -> (r: Result<
    Vec<PackageHistoryEntry>,
    Reply,
>)
    ensures
        ({
            let ms = named(db.entries(), name@);
            &&& ms.len() == 0 ==> (r matches Err(e) && is_reply(
                e,
                HttpStatus::NotFound,
                "Package does not exist"@,
            ))
            &&& ms.len() > 0 ==> (r matches Ok(v) && v@.len() == ms.len() && forall|i: int|
                0 <= i < ms.len() ==> is_creation_entry(#[trigger] v@[i], ms[i]))
        }),
{
    let ghost s = db.entries();
    let mut out: Vec<PackageHistoryEntry> = Vec::new();
    let mut i: usize = 0;
    assert(s.take(0) == Seq::<Module<S>>::empty());
    while i < db.len()
        invariant
            i <= s.len(),
            s == db.entries(),
            out@.len() == named(s.take(i as int), name@).len(),
            forall|k: int|
                0 <= k < out@.len() ==> is_creation_entry(
                    #[trigger] out@[k],
                    named(s.take(i as int), name@)[k],
                ),
        decreases s.len() - i,
    {
        let m = db.at(i);
        proof {
            assert(s.take(i + 1) == s.take(i as int).push(s[i as int]));
            s.take(i as int).lemma_filter_push(s[i as int], |m: Module<S>| has_name(m, name@));
        }
        if m.name == *name {
            out.push(
                PackageHistoryEntry {
                    User: User { name: String::new(), isAdmin: false },
                    Date: String::new(),
                    PackageMetadata: metadata_of(m),
                    Action: owned("CREATE"),
                },
            );
        }
        i = i + 1;
    }
    assert(s.take(s.len() as int) == s);
    if out.len() == 0 {
        Err(reply(HttpStatus::NotFound, "Package does not exist"))
    } else {
        Ok(out)
    }
}

/// Deletes every module named `name`; returns the reply (with the number of
/// deleted packages) and the deleted modules, whose archive files are to be
/// removed.
pub fn package_by_name_delete<S>(db: &mut Registry<S>, name: &String) -> (r: (Reply, Vec<Module<S>>))
    ensures
        final(db).entries() == not_named(old(db).entries(), name@),
        r.1@ == named(old(db).entries(), name@),
        ids_unique(old(db).entries()),
        ids_unique(final(db).entries()),
        r.1@.len() == 0 ==> is_reply(r.0, HttpStatus::NotFound, "Package does not exist"@),
        r.1@.len() > 0 ==> is_reply(
            r.0,
            HttpStatus::Success,
            decimal(r.1@.len() as nat) + " package(s) deleted"@,
        ),
{
    let removed = db.remove_named(name);
    if removed.len() == 0 {
        (reply(HttpStatus::NotFound, "Package does not exist"), removed)
    } else {
        let mut message = decimal_string(removed.len() as u128);
        message.append(" package(s) deleted");
        (Reply { status: HttpStatus::Success, message }, removed)
    }
}

/// The characters of an optional byte vector.
pub open spec fn bytes_option(o: Option<Vec<u8>>) -> Option<Seq<u8>> {
    match o {
        Some(v) => Some(v@),
        None => None,
    }
}

/// Whether the regular expression `re` finds module `m`: it matches in the
/// name, or in the readme of the package archive when that could be read.
pub open spec fn found_by<S>(re: Seq<char>, m: Module<S>, archive: Option<Seq<u8>>) -> bool {
    regex_finds(re, m.name@) || (archive matches Some(a) && readme_matches(re, a))
}

/// The modules of `s` that `re` finds, in order; `archives[i]` is the
/// archive of `s[i]`.
pub open spec fn regex_selected<S>(
    s: Seq<Module<S>>,
    re: Seq<char>,
    archives: Seq<Option<Seq<u8>>>,
) -> Seq<Module<S>>
    decreases s.len(),
{
    if s.len() == 0 {
        Seq::empty()
    } else {
        let rest = regex_selected(s.drop_last(), re, archives.drop_last());
        if found_by(re, s.last(), archives.last()) {
            rest.push(s.last())
        } else {
            rest
        }
    }
}

/// The packages whose name or readme the regular expression of `query`
/// matches, in registry order. `archives[i]` holds the archive of the `i`-th
/// stored module, or `None` when its file could not be read.
///
/// Errors: the expression does not compile; no package is found.
pub fn package_by_regex_get<S>(
    db: &Registry<S>,
    query: &PackageRegEx,
    archives: &Vec<Option<Vec<u8>>>,
) -> (r: Result<Vec<PackageMetadata>, Reply>)
    requires
        archives@.len() == db.entries().len(),
    ensures
        !regex_compiles(query.RegEx@) ==> (r matches Err(e) && is_reply(
            e,
            HttpStatus::BadRequest,
            "malformed regex"@,
        )),
        regex_compiles(query.RegEx@) ==> ({
            let ms = regex_selected(
                db.entries(),
                query.RegEx@,
                archives@.map_values(|a: Option<Vec<u8>>| bytes_option(a)),
            );
            &&& ms.len() == 0 ==> (r matches Err(e) && is_reply(
                e,
                HttpStatus::NotFound,
                "No package found under this regex."@,
            ))
            &&& ms.len() > 0 ==> (r matches Ok(v) && v@.len() == ms.len() && forall|i: int|
                0 <= i < ms.len() ==> metadata_matches(#[trigger] v@[i], ms[i]))
        }),
{
    let re = match compile(query.RegEx.as_str()) {
        Some(p) => p,
        None => return Err(reply(HttpStatus::BadRequest, "malformed regex")),
    };
    let ghost s = db.entries();
    let ghost arch = archives@.map_values(|a: Option<Vec<u8>>| bytes_option(a));
    let mut out: Vec<PackageMetadata> = Vec::new();
    let mut i: usize = 0;
    assert(s.take(0) == Seq::<Module<S>>::empty());
    while i < db.len()
        invariant
            i <= s.len(),
            s == db.entries(),
            arch.len() == s.len(),
            arch == archives@.map_values(|a: Option<Vec<u8>>| bytes_option(a)),
            re@ == query.RegEx@,
            out@.len() == regex_selected(s.take(i as int), re@, arch.take(i as int)).len(),
            forall|k: int|
                0 <= k < out@.len() ==> metadata_matches(
                    #[trigger] out@[k],
                    regex_selected(s.take(i as int), re@, arch.take(i as int))[k],
                ),
        decreases s.len() - i,
    {
        let m = db.at(i);
        let found = if is_match(&re, m.name.as_str()) {
            true
        } else {
            match &archives[i] {
                Some(a) => match_readme(&re, a.as_slice()).is_some(),
                None => false,
            }
        };
        proof {
            assert(s.take(i + 1).drop_last() == s.take(i as int));
            assert(arch.take(i + 1).drop_last() == arch.take(i as int));
            assert(arch[i as int] == bytes_option(archives@[i as int]));
            assert(found == found_by(re@, s[i as int], arch[i as int]));
        }
        if found {
            out.push(metadata_of(m));
        }
        i = i + 1;
    }
    assert(s.take(s.len() as int) == s);
    assert(arch.take(arch.len() as int) == arch);
    if out.len() == 0 {
        Err(reply(HttpStatus::NotFound, "No package found under this regex."))
    } else {
        Ok(out)
    }
}

} // verus!
