//! Small maps keyed by strings, kept as vectors of pairs.
//!
//! A vector whose keys are pairwise distinct stands for the map from each key
//! to its value; one whose keys are also strictly increasing (in the order of
//! `String`'s `Ord`) stands for a `BTreeMap`, iterated in key order.
use vstd::prelude::*;

use crate::text::{chars_of, chars_eq, chars_lt, lemma_chars_lt_irreflexive, lemma_chars_lt_total,
    lemma_chars_lt_transitive, str_eq, str_less};

verus! {

/// No key occurs twice.
pub open spec fn keys_unique<V>(v: Seq<(String, V)>) -> bool {
    forall|i: int, j: int|
        #![trigger v[i], v[j]]
        0 <= i < v.len() && 0 <= j < v.len() && i != j ==> v[i].0@ != v[j].0@
}

/// The keys increase strictly from first to last.
pub open spec fn keys_sorted<V>(v: Seq<(String, V)>) -> bool {
    forall|i: int, j: int|
        #![trigger v[i], v[j]]
        0 <= i < j < v.len() ==> chars_lt(v[i].0@, v[j].0@)
}

/// `v` holds `k` as a key.
pub open spec fn has_key<V>(v: Seq<(String, V)>, k: Seq<char>) -> bool {
    exists|i: int| 0 <= i < v.len() && (#[trigger] v[i]).0@ == k
}

/// The map that `v` stands for.
pub open spec fn assoc_view<V: DeepView>(v: Seq<(String, V)>) -> Map<Seq<char>, V::V> {
    Map::new(
        |k: Seq<char>| has_key(v, k),
        |k: Seq<char>| v[choose|i: int| 0 <= i < v.len() && (#[trigger] v[i]).0@ == k].1.deep_view(),
    )
}

/// Two positions of a vector with distinct keys hold different keys.
pub proof fn lemma_keys_differ<V>(v: Seq<(String, V)>, i: int, j: int)
    requires
        keys_unique(v),
        0 <= i < v.len(),
        0 <= j < v.len(),
        i != j,
    ensures
        v[i].0@ != v[j].0@,
{
}

/// In a vector with increasing keys, an earlier key comes before a later one.
pub proof fn lemma_keys_ordered<V>(v: Seq<(String, V)>, i: int, j: int)
    requires
        keys_sorted(v),
        0 <= i < j < v.len(),
    ensures
        chars_lt(v[i].0@, v[j].0@),
{
}

/// In a vector with distinct keys, the map holds each pair of the vector.
pub proof fn lemma_assoc_at<V: DeepView>(v: Seq<(String, V)>, i: int)
    requires
        keys_unique(v),
        0 <= i < v.len(),
    ensures
        assoc_view(v).contains_key(v[i].0@),
        assoc_view(v)[v[i].0@] == v[i].1.deep_view(),
{
    let k = v[i].0@;
    assert(has_key(v, k));
    let j = choose|j: int| 0 <= j < v.len() && (#[trigger] v[j]).0@ == k;
    assert(j == i);
}

/// Sorted keys are distinct.
pub proof fn lemma_sorted_unique<V>(v: Seq<(String, V)>)
    requires
        keys_sorted(v),
    ensures
        keys_unique(v),
{
    assert forall|i: int, j: int|
        #![trigger v[i], v[j]]
        0 <= i < v.len() && 0 <= j < v.len() && i != j implies v[i].0@ != v[j].0@ by {
        if i < j {
            lemma_chars_lt_irreflexive(v[i].0@);
        } else {
            lemma_chars_lt_irreflexive(v[j].0@);
        }
    }
}

/// Where `key` stands in `v`, if it does.
pub fn assoc_find<V>(v: &Vec<(String, V)>, key: &str) -> (r: Option<usize>)
    ensures
        match r {
            Some(i) => i < v@.len() && v@[i as int].0@ == key@,
            None => !has_key(v@, key@),
        },
{
    let mut i: usize = 0;
    while i < v.len()
        invariant
            i <= v@.len(),
            forall|j: int| 0 <= j < i ==> (#[trigger] v@[j]).0@ != key@,
        decreases v@.len() - i,
    {
        if str_eq(v[i].0.as_str(), key) {
            return Some(i);
        }
        i = i + 1;
    }
    None
}

/// The value of `key` in `v`, if `key` is a key of `v`.
pub fn assoc_get<'a, V: DeepView>(v: &'a Vec<(String, V)>, key: &str) -> (r: Option<&'a V>)
    requires
        keys_unique(v@),
    ensures
        match r {
            Some(x) => assoc_view(v@).contains_key(key@) && assoc_view(v@)[key@] == x.deep_view(),
            None => !assoc_view(v@).contains_key(key@),
        },
{
    match assoc_find(v, key) {
        Some(i) => {
            proof {
                lemma_assoc_at(v@, i as int);
            }
            Some(&v[i].1)
        },
        None => None,
    }
}

/// Sets `key` to `value` in a sorted vector, keeping it sorted
/// (`BTreeMap::insert`).
pub fn sorted_insert<V: DeepView>(v: &mut Vec<(String, V)>, key: String, value: V)
    requires
        keys_sorted(old(v)@),
    ensures
        keys_sorted(final(v)@),
        assoc_view(final(v)@) == assoc_view(old(v)@).insert(key@, value.deep_view()),
{
    let kc = chars_of(key.as_str());
    let n = v.len();
    let mut p: usize = 0;
    while p < n
        invariant
            n == v@.len(),
            p <= n,
            kc@ == key@,
            forall|j: int| 0 <= j < p ==> chars_lt((#[trigger] v@[j]).0@, key@),
        ensures
            p <= n,
            forall|j: int| 0 <= j < p ==> chars_lt((#[trigger] v@[j]).0@, key@),
            p < n ==> !chars_lt(v@[p as int].0@, key@),
        decreases n - p,
    {
        let pc = chars_of(v[p].0.as_str());
        if !str_less(pc.as_slice(), kc.as_slice()) {
            break;
        }
        p = p + 1;
    }
    let ghost old_v = v@;
    proof {
        lemma_sorted_unique(old_v);
    }
    let same = if p < n {
        let pc = chars_of(v[p].0.as_str());
        chars_eq(pc.as_slice(), kc.as_slice())
    } else {
        false
    };
    if same {
        v.set(p, (key, value));
        proof {
            let nv = v@;
            assert(keys_sorted(nv)) by {
                assert forall|i: int, j: int|
                    #![trigger nv[i], nv[j]]
                    0 <= i < j < nv.len() implies chars_lt(nv[i].0@, nv[j].0@) by {
                    assert(old_v[i].0@ == nv[i].0@);
                    assert(old_v[j].0@ == nv[j].0@);
                    lemma_keys_ordered(old_v, i, j);
                }
            }
            lemma_sorted_unique(nv);
            assert(assoc_view(nv) =~= assoc_view(old_v).insert(key@, value.deep_view())) by {
                lemma_assoc_at(nv, p as int);
                assert forall|k: Seq<char>| #[trigger] assoc_view(nv).contains_key(k)
                    == assoc_view(old_v).insert(key@, value.deep_view()).contains_key(k) by {
                    if has_key(nv, k) {
                        let i = choose|i: int| 0 <= i < nv.len() && (#[trigger] nv[i]).0@ == k;
                        assert(old_v[i].0@ == nv[i].0@);
                    }
                    if has_key(old_v, k) {
                        let i = choose|i: int| 0 <= i < old_v.len() && (#[trigger] old_v[i]).0@ == k;
                        assert(old_v[i].0@ == nv[i].0@);
                    }
                }
                assert forall|k: Seq<char>| #[trigger] assoc_view(nv).contains_key(k) && k != key@
                    implies assoc_view(nv)[k] == assoc_view(old_v)[k] by {
                    let i = choose|i: int| 0 <= i < nv.len() && (#[trigger] nv[i]).0@ == k;
                    assert(i != p);
                    assert(nv[i] == old_v[i]);
                    lemma_assoc_at(nv, i);
                    lemma_assoc_at(old_v, i);
                }
            }
        }
    } else {
        v.insert(p, (key, value));
        proof {
            let nv = v@;
            assert(nv[p as int].0@ == key@);
            assert forall|j: int| 0 <= j < p implies nv[j] == old_v[j] by {}
            assert forall|j: int| p < j < nv.len() implies nv[j] == old_v[j - 1] by {}
            if p < n {
                lemma_chars_lt_total(old_v[p as int].0@, key@);
                assert(chars_lt(key@, old_v[p as int].0@));
            }
            assert(keys_sorted(nv)) by {
                assert forall|i: int, j: int|
                    #![trigger nv[i], nv[j]]
                    0 <= i < j < nv.len() implies chars_lt(nv[i].0@, nv[j].0@) by {
                    if j == p {
                        assert(nv[i] == old_v[i]);
                    } else if i == p {
                        assert(nv[j] == old_v[j - 1]);
                        if j - 1 > p {
                            assert(chars_lt(old_v[p as int].0@, old_v[j - 1].0@));
                            lemma_chars_lt_transitive(key@, old_v[p as int].0@, old_v[j - 1].0@);
                        }
                    } else if j < p {
                        assert(nv[i] == old_v[i]);
                        assert(nv[j] == old_v[j]);
                    } else if i < p {
                        assert(nv[i] == old_v[i]);
                        assert(nv[j] == old_v[j - 1]);
                        assert(chars_lt(old_v[i].0@, key@));
                        assert(chars_lt(key@, old_v[p as int].0@));
                        lemma_chars_lt_transitive(old_v[i].0@, key@, old_v[p as int].0@);
                        if j - 1 > p {
                            lemma_chars_lt_transitive(old_v[i].0@, old_v[p as int].0@, old_v[j - 1].0@);
                        }
                    } else {
                        assert(nv[i] == old_v[i - 1]);
                        assert(nv[j] == old_v[j - 1]);
                    }
                }
            }
            lemma_sorted_unique(nv);
            assert(!has_key(old_v, key@)) by {
                if has_key(old_v, key@) {
                    let i = choose|i: int| 0 <= i < old_v.len() && (#[trigger] old_v[i]).0@ == key@;
                    if i < p {
                        lemma_chars_lt_irreflexive(key@);
                    } else if i > p {
                        lemma_chars_lt_transitive(key@, old_v[p as int].0@, old_v[i].0@);
                        lemma_chars_lt_irreflexive(key@);
                    }
                }
            }
            assert(assoc_view(nv) =~= assoc_view(old_v).insert(key@, value.deep_view())) by {
                lemma_assoc_at(nv, p as int);
                assert forall|k: Seq<char>| #[trigger] assoc_view(nv).contains_key(k)
                    == assoc_view(old_v).insert(key@, value.deep_view()).contains_key(k) by {
                    if has_key(nv, k) && k != key@ {
                        let i = choose|i: int| 0 <= i < nv.len() && (#[trigger] nv[i]).0@ == k;
                        if i < p {
                            assert(old_v[i].0@ == k);
                        } else {
                            assert(old_v[i - 1].0@ == k);
                        }
                    }
                    if has_key(old_v, k) {
                        let i = choose|i: int| 0 <= i < old_v.len() && (#[trigger] old_v[i]).0@ == k;
                        if i < p {
                            assert(nv[i].0@ == k);
                        } else {
                            assert(nv[i + 1].0@ == k);
                        }
                    }
                }
                assert forall|k: Seq<char>| #[trigger] assoc_view(nv).contains_key(k) && k != key@
                    implies assoc_view(nv)[k] == assoc_view(old_v)[k] by {
                    let i = choose|i: int| 0 <= i < nv.len() && (#[trigger] nv[i]).0@ == k;
                    lemma_assoc_at(nv, i);
                    if i < p {
                        assert(nv[i] == old_v[i]);
                        lemma_assoc_at(old_v, i);
                    } else {
                        assert(nv[i] == old_v[i - 1]);
                        lemma_assoc_at(old_v, i - 1);
                    }
                }
            }
        }
    }
}

} // verus!
