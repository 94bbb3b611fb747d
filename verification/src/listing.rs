//! Listing packages: the queries select packages, which are sorted by
//! identifier and returned a page at a time.
use vstd::prelude::*;
use crate::registry::{Module, Registry, first_named, first_named_position, metadata_matches, metadata_of};
use crate::response::{HttpStatus, Reply, is_reply, reply};
use crate::schema::{PackageMetadata, PackageQuery};
use crate::sort::{sort_by_key, sort_positions, law_sort_by_key, lemma_sort_map};
use crate::text::{chars_of, decimal, decimal_string};

verus! {

broadcast use vstd::seq_lib::group_seq_properties;

/// The number of packages on one page of a listing.
pub const PAGE_SIZE: usize = 20;

/// Whether a queried name asks for every package.
pub open spec fn is_wildcard(name: Seq<char>) -> bool {
    name == seq!['*']
}

/// Whether some query asks for every package.
pub open spec fn has_wildcard(qs: Seq<PackageQuery>) -> bool {
    exists|i: int| 0 <= i < qs.len() && is_wildcard(#[trigger] qs[i].Name@)
}

/// The module of `o`, as a sequence of zero or one module.
pub open spec fn option_seq<S>(o: Option<Module<S>>) -> Seq<Module<S>> {
    match o {
        Some(m) => seq![m],
        None => Seq::empty(),
    }
}

/// For each query in turn, the first module with the queried name, if any.
pub open spec fn named_matches<S>(s: Seq<Module<S>>, qs: Seq<PackageQuery>) -> Seq<Module<S>>
    decreases qs.len(),
{
    if qs.len() == 0 {
        Seq::empty()
    } else {
        named_matches(s, qs.drop_last()) + option_seq(first_named(s, qs.last().Name@))
    }
}

/// The modules that the queries select: all of them when a query asks for
/// every package, else the first module named by each query.
pub open spec fn query_matches<S>(s: Seq<Module<S>>, qs: Seq<PackageQuery>) -> Seq<Module<S>> {
    if has_wildcard(qs) {
        s
    } else {
        named_matches(s, qs)
    }
}

/// The selected modules in order of identifier.
pub open spec fn listed<S>(s: Seq<Module<S>>, qs: Seq<PackageQuery>) -> Seq<Module<S>> {
    sort_by_key(query_matches(s, qs), |m: Module<S>| m.id@)
}

/// The end of the page that starts at `offset` in a listing of `len` modules.
pub open spec fn page_end(len: int, offset: int) -> int {
    if offset + PAGE_SIZE < len {
        offset + PAGE_SIZE
    } else {
        len
    }
}

/// The offset of the next page, in decimal; empty when the page is the last.
pub open spec fn next_offset(len: int, offset: int) -> Seq<char> {
    if offset + PAGE_SIZE >= len {
        Seq::empty()
    } else {
        decimal((offset + PAGE_SIZE) as nat)
    }
}

/// The page of the listing `l` that starts at `offset`.
pub open spec fn page<T>(l: Seq<T>, offset: int) -> Seq<T> {
    l.subrange(offset, page_end(l.len() as int, offset))
}

/// The pages of the listing `l` from `offset` on, each page followed by the
/// one at the next offset, up to the last page.
pub open spec fn pages_from<T>(l: Seq<T>, offset: int) -> Seq<T>
    decreases l.len() - offset,
{
    if offset < 0 || offset >= l.len() {
        Seq::empty()
    } else if offset + PAGE_SIZE >= l.len() {
        page(l, offset)
    } else {
        page(l, offset) + pages_from(l, offset + PAGE_SIZE)
    }
}

/// One page of a listing, and the offset of the next page (empty on the last
/// page).
pub struct PackageListResponse {
    pub body: Vec<PackageMetadata>,
    pub offset: String,
}

/// Whether `name` is the wildcard `*`.
fn wildcard(name: &String) -> (b: bool)
    ensures
        b == is_wildcard(name@),
{
    let cs = chars_of(name.as_str());
    if cs.len() == 1 && cs[0] == '*' {
        assert(cs@ == seq!['*']);
        true
    } else {
        false
    }
}

/// The positions in `db` of the modules that `query` selects, in the order of
/// `query_matches`.
fn select_positions<S>(db: &Registry<S>, query: &Vec<PackageQuery>) -> (p: Vec<usize>)
    ensures
        forall|k: int| 0 <= k < p@.len() ==> #[trigger] p@[k] < db.entries().len(),
        p@.map_values(|j: usize| db.entries()[j as int]) == query_matches(db.entries(), query@),
{
    let ghost s = db.entries();
    let ghost qs = query@;
    let mut p: Vec<usize> = Vec::new();
    let mut i: usize = 0;
    assert(qs.take(0) == Seq::<PackageQuery>::empty());
    while i < query.len()
        invariant
            i <= qs.len(),
            s == db.entries(),
            qs == query@,
            !has_wildcard(qs.take(i as int)),
            forall|k: int| 0 <= k < p@.len() ==> #[trigger] p@[k] < s.len(),
            p@.map_values(|j: usize| s[j as int]) == named_matches(s, qs.take(i as int)),
        decreases qs.len() - i,
    {
        let q = &query[i];
        assert(qs.take(i + 1).drop_last() == qs.take(i as int));
        assert(qs.take(i + 1).last() == qs[i as int]);
        if wildcard(&q.Name) {
            assert(has_wildcard(qs)) by {
                assert(is_wildcard(qs[i as int].Name@));
            }
            let mut all: Vec<usize> = Vec::new();
            let mut j: usize = 0;
            while j < db.len()
                invariant
                    j <= s.len(),
                    s == db.entries(),
                    all@.len() == j,
                    forall|k: int| 0 <= k < j ==> #[trigger] all@[k] == k,
                decreases s.len() - j,
            {
                all.push(j);
                j = j + 1;
            }
            assert(all@.map_values(|j: usize| s[j as int]) == s);
            return all;
        }
        let ghost before = p@;
        match first_named_position(db, &q.Name) {
            Some(k) => {
                p.push(k);
                assert(p@.map_values(|j: usize| s[j as int]) == before.map_values(
                    |j: usize| s[j as int],
                ).push(s[k as int]));
            },
            None => {},
        }
        proof {
            assert(!has_wildcard(qs.take(i + 1))) by {
                if has_wildcard(qs.take(i + 1)) {
                    let w = choose|w: int|
                        0 <= w < qs.take(i + 1).len() && is_wildcard(#[trigger] qs.take(i + 1)[w].Name@);
                    if w < i {
                        assert(qs.take(i as int)[w] == qs.take(i + 1)[w]);
                    }
                }
            }
        }
        i = i + 1;
    }
    assert(qs.take(qs.len() as int) == qs);
    p
}

/// One page of the packages that `query` selects, sorted by identifier and
/// starting at position `offset`.
///
/// Errors: no package selected, or `offset` past the last selected package.
pub fn packages_list<S>(db: &Registry<S>, offset: usize, query: &Vec<PackageQuery>) -> (r: Result<
    PackageListResponse,
    Reply,
>)
    ensures
        ({
            let l = listed(db.entries(), query@);
            &&& l.len() <= usize::MAX
            &&& l.len() == 0 ==> (r matches Err(e) && is_reply(
                e,
                HttpStatus::BadRequest,
                "No package matched by query"@,
            ))
            &&& l.len() > 0 && offset >= l.len() ==> (r matches Err(e) && is_reply(
                e,
                HttpStatus::BadRequest,
                "Offset out of range"@,
            ))
            &&& offset < l.len() ==> (r matches Ok(resp) && resp.offset@ == next_offset(
                l.len() as int,
                offset as int,
            ) && resp.body@.len() == page_end(l.len() as int, offset as int) - offset && forall|
                j: int,
            |
                0 <= j < resp.body@.len() ==> metadata_matches(
                    #[trigger] resp.body@[j],
                    l[offset + j],
                ))
        }),
{
    let ghost s = db.entries();
    let ghost f = |j: usize| s[j as int];
    let ghost ka = |j: usize| s[j as int].id@;
    let ghost kb = |m: Module<S>| m.id@;
    let p = select_positions(db, query);
    let ghost matches = query_matches(s, query@);
    proof {
        law_sort_by_key(matches, kb);
        assert(p@.map_values(f).len() == p@.len());
    }
    if p.len() == 0 {
        return Err(reply(HttpStatus::BadRequest, "No package matched by query"));
    }
    if offset >= p.len() {
        return Err(reply(HttpStatus::BadRequest, "Offset out of range"));
    }
    let mut keys: Vec<Vec<char>> = Vec::new();
    let mut k: usize = 0;
    while k < p.len()
        invariant
            k <= p@.len(),
            s == db.entries(),
            forall|i: int| 0 <= i < p@.len() ==> #[trigger] p@[i] < s.len(),
            keys@.len() == k,
            ka == (|j: usize| s[j as int].id@),
            forall|i: int| 0 <= i < k ==> (#[trigger] keys@[i])@ == ka(p@[i]),
        decreases p@.len() - k,
    {
        keys.push(chars_of(db.at(p[k]).id.as_str()));
        k = k + 1;
    }
    let ghost positions = p@;
    let sorted = sort_positions(p, keys, Ghost(ka));
    proof {
        lemma_sort_map(positions, f, ka, kb);
        law_sort_by_key(positions, ka);
        assert forall|i: int| 0 <= i < sorted@.len() implies #[trigger] sorted@[i] < s.len() by {
            let x = sorted@[i];
            assert(sorted@.to_multiset().contains(x));
            assert(positions.to_multiset().contains(x));
            assert(positions.contains(x));
        }
    }
    let n = sorted.len();
    let end = if n - offset > PAGE_SIZE {
        offset + PAGE_SIZE
    } else {
        n
    };
    let mut body: Vec<PackageMetadata> = Vec::new();
    let mut i: usize = offset;
    while i < end
        invariant
            offset <= i <= end <= n,
            n == sorted@.len(),
            s == db.entries(),
            forall|x: int| 0 <= x < n ==> #[trigger] sorted@[x] < s.len(),
            body@.len() == i - offset,
            forall|j: int|
                0 <= j < body@.len() ==> metadata_matches(
                    #[trigger] body@[j],
                    s[sorted@[offset + j] as int],
                ),
        decreases end - i,
    {
        body.push(metadata_of(db.at(sorted[i])));
        i = i + 1;
    }
    let next = if n - offset <= PAGE_SIZE {
        String::new()
    } else {
        decimal_string((offset + PAGE_SIZE) as u128)
    };
    proof {
        assert forall|j: int| 0 <= j < body@.len() implies metadata_matches(
            #[trigger] body@[j],
            listed(s, query@)[offset + j],
        ) by {
            assert(sorted@.map_values(f)[offset + j] == s[sorted@[offset + j] as int]);
        }
    }
    Ok(PackageListResponse { body, offset: next })
}

/// A listing whose offset was given but is not a non-negative integer is
/// refused; without an offset the listing starts at the first package.
pub fn packages_list_bad_offset<S>(
    db: &Registry<S>,
    offset: Option<String>,
    query: &Vec<PackageQuery>,
) -> (r: Result<PackageListResponse, Reply>)
    ensures
        offset is Some ==> (r matches Err(e) && is_reply(
            e,
            HttpStatus::BadRequest,
            "Offset must be a non-negative integer, or no packages are matched by query"@,
        )),
        offset is None ==> ({
            let l = listed(db.entries(), query@);
            &&& l.len() == 0 ==> (r matches Err(e) && is_reply(
                e,
                HttpStatus::BadRequest,
                "No package matched by query"@,
            ))
            &&& l.len() > 0 ==> (r matches Ok(resp) && resp.offset@ == next_offset(l.len() as int, 0)
                && resp.body@.len() == page_end(l.len() as int, 0) && forall|j: int|
                0 <= j < resp.body@.len() ==> metadata_matches(#[trigger] resp.body@[j], l[j]))
        }),
{
    match offset {
        Some(_) => Err(
            reply(
                HttpStatus::BadRequest,
                "Offset must be a non-negative integer, or no packages are matched by query",
            ),
        ),
        None => packages_list(db, 0, query),
    }
}

} // verus!
