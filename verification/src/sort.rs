//! Stable sorting by a text key, in lexicographic order.
use vstd::prelude::*;
use crate::text::{lex_le, chars_le, lemma_lex_le_total, lemma_lex_le_transitive};

verus! {

broadcast use vstd::seq_lib::group_seq_properties;

/// `s` with `x` placed after every leading element whose key is not greater
/// than the key of `x`.
pub open spec fn insert_by_key<T>(s: Seq<T>, x: T, key: spec_fn(T) -> Seq<char>) -> Seq<T>
    decreases s.len(),
{
    if s.len() == 0 {
        seq![x]
    } else if lex_le(key(s[0]), key(x)) {
        seq![s[0]] + insert_by_key(s.drop_first(), x, key)
    } else {
        seq![x] + s
    }
}

/// `s` sorted by key; elements with equal keys keep their order.
pub open spec fn sort_by_key<T>(s: Seq<T>, key: spec_fn(T) -> Seq<char>) -> Seq<T>
    decreases s.len(),
{
    if s.len() == 0 {
        s
    } else {
        insert_by_key(sort_by_key(s.drop_last(), key), s.last(), key)
    }
}

/// Whether `s` is in order of its keys.
pub open spec fn sorted_by_key<T>(s: Seq<T>, key: spec_fn(T) -> Seq<char>) -> bool {
    forall|i: int, j: int| 0 <= i < j < s.len() ==> lex_le(key(#[trigger] s[i]), key(#[trigger] s[j]))
}

/// Placing `x` at position `j` of `s`, where `j` is the first position whose
/// key is greater than the key of `x`.
proof fn lemma_insert_at<T>(s: Seq<T>, x: T, key: spec_fn(T) -> Seq<char>, j: int)
    requires
        0 <= j <= s.len(),
        forall|i: int| 0 <= i < j ==> lex_le(key(#[trigger] s[i]), key(x)),
        j < s.len() ==> !lex_le(key(s[j]), key(x)),
    ensures
        insert_by_key(s, x, key) == s.insert(j, x),
    decreases j,
{
    if j == 0 {
        if s.len() > 0 {
            assert(seq![x] + s == s.insert(0, x));
        } else {
            assert(seq![x] == s.insert(0, x));
        }
    } else {
        let t = s.drop_first();
        assert forall|i: int| 0 <= i < j - 1 implies lex_le(key(#[trigger] t[i]), key(x)) by {
            assert(t[i] == s[i + 1]);
        }
        lemma_insert_at(t, x, key, j - 1);
        assert(lex_le(key(s[0]), key(x)));
        assert(seq![s[0]] + t.insert(j - 1, x) == s.insert(j, x));
    }
}

/// Inserting into a sorted sequence keeps it sorted and adds exactly `x`.
proof fn lemma_insert_sorted<T>(s: Seq<T>, x: T, key: spec_fn(T) -> Seq<char>)
    requires
        sorted_by_key(s, key),
    ensures
        sorted_by_key(insert_by_key(s, x, key), key),
        insert_by_key(s, x, key).to_multiset() == s.to_multiset().insert(x),
    decreases s.len(),
{
    broadcast use vstd::multiset::group_multiset_axioms;

    let r = insert_by_key(s, x, key);
    if s.len() == 0 {
        assert(r == seq![x]);
        assert(r == Seq::<T>::empty().push(x));
    } else if lex_le(key(s[0]), key(x)) {
        let t = s.drop_first();
        assert(sorted_by_key(t, key)) by {
            assert forall|a: int, b: int| 0 <= a < b < t.len() implies lex_le(
                key(#[trigger] t[a]),
                key(#[trigger] t[b]),
            ) by {
                assert(lex_le(key(s[a + 1]), key(s[b + 1])));
            }
        }
        lemma_insert_sorted(t, x, key);
        let u = insert_by_key(t, x, key);
        assert(r == seq![s[0]] + u);
        assert forall|a: int, b: int| 0 <= a < b < r.len() implies lex_le(
            key(#[trigger] r[a]),
            key(#[trigger] r[b]),
        ) by {
            if a > 0 {
                assert(lex_le(key(u[a - 1]), key(u[b - 1])));
            } else {
                assert(u.to_multiset().contains(u[b - 1]));
                assert(u.contains(u[b - 1]));
                if u[b - 1] == x {
                } else {
                    assert(t.to_multiset().contains(u[b - 1]));
                    let k = choose|k: int| 0 <= k < t.len() && t[k] == u[b - 1];
                    assert(lex_le(key(s[0]), key(s[k + 1])));
                }
            }
        }
        assert(s == seq![s[0]] + t);
        vstd::seq_lib::lemma_multiset_commutative(seq![s[0]], u);
        vstd::seq_lib::lemma_multiset_commutative(seq![s[0]], t);
    } else {
        assert(r == seq![x] + s);
        assert forall|a: int, b: int| 0 <= a < b < r.len() implies lex_le(
            key(#[trigger] r[a]),
            key(#[trigger] r[b]),
        ) by {
            if a > 0 {
                assert(lex_le(key(s[a - 1]), key(s[b - 1])));
            } else {
                lemma_lex_le_total(key(s[0]), key(x));
                if b > 1 {
                    assert(lex_le(key(s[0]), key(s[b - 1])));
                    lemma_lex_le_transitive(key(x), key(s[0]), key(s[b - 1]));
                }
            }
        }
        vstd::seq_lib::lemma_multiset_commutative(seq![x], s);
    }
}

/// Sorting by key yields a sequence in order of its keys, holding the same
/// elements as many times each as the input.
pub proof fn law_sort_by_key<T>(s: Seq<T>, key: spec_fn(T) -> Seq<char>)
    ensures
        sorted_by_key(sort_by_key(s, key), key),
        sort_by_key(s, key).to_multiset() == s.to_multiset(),
        sort_by_key(s, key).len() == s.len(),
    decreases s.len(),
{
    broadcast use vstd::multiset::group_multiset_axioms;

    if s.len() > 0 {
        law_sort_by_key(s.drop_last(), key);
        lemma_insert_sorted(sort_by_key(s.drop_last(), key), s.last(), key);
        assert(s == s.drop_last().push(s.last()));
        vstd::seq_lib::to_multiset_build(s.drop_last(), s.last());
    }
    let r = sort_by_key(s, key);
    r.to_multiset_ensures();
    s.to_multiset_ensures();
}

/// Sorting commutes with mapping when the key is read through the map.
pub proof fn lemma_sort_map<A, B>(
    s: Seq<A>,
    f: spec_fn(A) -> B,
    ka: spec_fn(A) -> Seq<char>,
    kb: spec_fn(B) -> Seq<char>,
)
    requires
        forall|x: A| #[trigger] ka(x) == kb(f(x)),
    ensures
        sort_by_key(s, ka).map_values(f) == sort_by_key(s.map_values(f), kb),
    decreases s.len(),
{
    if s.len() > 0 {
        lemma_sort_map(s.drop_last(), f, ka, kb);
        assert(s.map_values(f).drop_last() == s.drop_last().map_values(f));
        lemma_insert_map(sort_by_key(s.drop_last(), ka), s.last(), f, ka, kb);
    }
}

proof fn lemma_insert_map<A, B>(
    s: Seq<A>,
    x: A,
    f: spec_fn(A) -> B,
    ka: spec_fn(A) -> Seq<char>,
    kb: spec_fn(B) -> Seq<char>,
)
    requires
        forall|x: A| #[trigger] ka(x) == kb(f(x)),
    ensures
        insert_by_key(s, x, ka).map_values(f) == insert_by_key(s.map_values(f), f(x), kb),
    decreases s.len(),
{
    assert(ka(x) == kb(f(x)));
    if s.len() > 0 {
        assert(ka(s[0]) == kb(f(s[0])));
        assert(s.map_values(f).drop_first() == s.drop_first().map_values(f));
        lemma_insert_map(s.drop_first(), x, f, ka, kb);
        if lex_le(ka(s[0]), ka(x)) {
            assert((seq![s[0]] + insert_by_key(s.drop_first(), x, ka)).map_values(f) == seq![f(s[0])]
                + insert_by_key(s.drop_first(), x, ka).map_values(f));
        } else {
            assert((seq![x] + s).map_values(f) == seq![f(x)] + s.map_values(f));
        }
    } else {
        assert(seq![x].map_values(f) == seq![f(x)]);
    }
}

/// Sorts positions by the keys given beside them: `keys[k]` is the key of
/// `items[k]`.
pub(crate) fn sort_positions(
    items: Vec<usize>,
    keys: Vec<Vec<char>>,
    Ghost(key): Ghost<spec_fn(usize) -> Seq<char>>,
) -> (r: Vec<usize>)
    requires
        items@.len() == keys@.len(),
        forall|k: int| 0 <= k < items@.len() ==> (#[trigger] keys@[k])@ == key(items@[k]),
    ensures
        r@ == sort_by_key(items@, key),
{
    let ghost input = items@;
    let mut items = items;
    let mut keys = keys;
    let mut out: Vec<usize> = Vec::new();
    let mut out_keys: Vec<Vec<char>> = Vec::new();
    let ghost mut k: int = 0;
    assert(input.take(0) == Seq::<usize>::empty());
    assert(input.skip(0) == input);
    while items.len() > 0
        invariant
            0 <= k <= input.len(),
            items@ == input.skip(k),
            items@.len() == keys@.len(),
            forall|i: int| 0 <= i < items@.len() ==> (#[trigger] keys@[i])@ == key(items@[i]),
            out@ == sort_by_key(input.take(k), key),
            out@.len() == out_keys@.len(),
            forall|i: int| 0 <= i < out@.len() ==> (#[trigger] out_keys@[i])@ == key(out@[i]),
        decreases items@.len(),
    {
        let x = items.remove(0);
        let xk = keys.remove(0);
        let mut j: usize = 0;
        while j < out.len() && chars_le(out_keys[j].as_slice(), xk.as_slice())
            invariant
                j <= out@.len(),
                out@.len() == out_keys@.len(),
                forall|i: int| 0 <= i < out@.len() ==> (#[trigger] out_keys@[i])@ == key(out@[i]),
                xk@ == key(x),
                forall|i: int| 0 <= i < j ==> lex_le(key(#[trigger] out@[i]), key(x)),
            decreases out@.len() - j,
        {
            j = j + 1;
        }
        proof {
            lemma_insert_at(out@, x, key, j as int);
            assert(input.take(k + 1).drop_last() == input.take(k));
            assert(input.take(k + 1).last() == x);
            assert(input.skip(k).drop_first() == input.skip(k + 1));
        }
        let ghost before_keys = out_keys@;
        let ghost before = out@;
        out.insert(j, x);
        out_keys.insert(j, xk);
        proof {
            assert forall|i: int| 0 <= i < out@.len() implies (#[trigger] out_keys@[i])@ == key(
                out@[i],
            ) by {
                if i < j {
                    assert(out_keys@[i] == before_keys[i]);
                } else if i > j {
                    assert(out_keys@[i] == before_keys[i - 1]);
                }
            }
            k = k + 1;
        }
    }
    assert(input.take(k) == input);
    out
}

} // verus!
