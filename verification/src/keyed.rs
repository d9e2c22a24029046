//! Map views of sequences whose elements carry a key: the shared proof
//! toolkit for the library's small keyed tables.

use vstd::prelude::*;

verus! {

/// Map from each element's key to its value; a later element wins for a
/// repeated key.
pub open spec fn keyed_map<T, K, V>(s: Seq<T>, key: spec_fn(T) -> K, val: spec_fn(T) -> V) -> Map<K, V>
    decreases s.len(),
{
    if s.len() == 0 {
        Map::empty()
    } else {
        keyed_map(s.drop_last(), key, val).insert(key(s.last()), val(s.last()))
    }
}

/// No two elements share a key.
pub open spec fn unique_keys<T, K>(s: Seq<T>, key: spec_fn(T) -> K) -> bool {
    forall|i: int, j: int| 0 <= i < s.len() && 0 <= j < s.len() && i != j ==> key(s[i]) != key(s[j])
}

pub proof fn lemma_keyed_dom<T, K, V>(s: Seq<T>, key: spec_fn(T) -> K, val: spec_fn(T) -> V, k: K)
    ensures
        keyed_map(s, key, val).contains_key(k) <==> exists|i: int| 0 <= i < s.len() && key(s[i]) == k,
    decreases s.len(),
{
    if s.len() > 0 {
        lemma_keyed_dom(s.drop_last(), key, val, k);
        if keyed_map(s, key, val).contains_key(k) && key(s.last()) != k {
            let i = choose|i: int| 0 <= i < s.drop_last().len() && key(s.drop_last()[i]) == k;
            assert(key(s[i]) == k);
        }
        if exists|i: int| 0 <= i < s.len() && key(s[i]) == k {
            let i = choose|i: int| 0 <= i < s.len() && key(s[i]) == k;
            if i < s.len() - 1 {
                assert(key(s.drop_last()[i]) == k);
            }
        }
    }
}

pub proof fn lemma_keyed_at<T, K, V>(s: Seq<T>, key: spec_fn(T) -> K, val: spec_fn(T) -> V, i: int)
    requires
        unique_keys(s, key),
        0 <= i < s.len(),
    ensures
        keyed_map(s, key, val).contains_key(key(s[i])),
        keyed_map(s, key, val)[key(s[i])] == val(s[i]),
    decreases s.len(),
{
    if i < s.len() - 1 {
        lemma_keyed_at(s.drop_last(), key, val, i);
        assert(s.drop_last()[i] == s[i]);
    }
}

pub proof fn lemma_keyed_update<T, K, V>(s: Seq<T>, key: spec_fn(T) -> K, val: spec_fn(T) -> V, i: int, x: T)
    requires
        unique_keys(s, key),
        0 <= i < s.len(),
        key(s[i]) == key(x),
    ensures
        keyed_map(s.update(i, x), key, val) == keyed_map(s, key, val).insert(key(x), val(x)),
        unique_keys(s.update(i, x), key),
    decreases s.len(),
{
    let t = s.update(i, x);
    if i == s.len() - 1 {
        assert(t.drop_last() == s.drop_last());
        assert(keyed_map(t, key, val) =~= keyed_map(s, key, val).insert(key(x), val(x)));
    } else {
        lemma_keyed_update(s.drop_last(), key, val, i, x);
        assert(t.drop_last() == s.drop_last().update(i, x));
        assert(key(s.last()) != key(x));
        assert(keyed_map(t, key, val) =~= keyed_map(s, key, val).insert(key(x), val(x)));
    }
    assert forall|a: int, b: int| 0 <= a < t.len() && 0 <= b < t.len() && a != b implies key(t[a]) != key(t[b]) by {
        if a != i && b != i {
            assert(key(s[a]) != key(s[b]));
        }
        if a == i {
            assert(key(s[i]) != key(s[b]));
        }
        if b == i {
            assert(key(s[a]) != key(s[i]));
        }
    }
}

pub proof fn lemma_keyed_push<T, K, V>(s: Seq<T>, key: spec_fn(T) -> K, val: spec_fn(T) -> V, x: T)
    requires
        unique_keys(s, key),
        !keyed_map(s, key, val).contains_key(key(x)),
    ensures
        keyed_map(s.push(x), key, val) == keyed_map(s, key, val).insert(key(x), val(x)),
        unique_keys(s.push(x), key),
{
    assert(s.push(x).drop_last() == s);
    assert forall|a: int, b: int|
        0 <= a < s.push(x).len() && 0 <= b < s.push(x).len() && a != b implies key(s.push(x)[a]) != key(
        s.push(x)[b],
    ) by {
        if a == s.len() as int {
            lemma_keyed_dom(s, key, val, key(x));
            assert(s.push(x)[b] == s[b]);
        } else if b == s.len() as int {
            lemma_keyed_dom(s, key, val, key(x));
            assert(s.push(x)[a] == s[a]);
        }
    }
}

pub proof fn lemma_keyed_remove<T, K, V>(s: Seq<T>, key: spec_fn(T) -> K, val: spec_fn(T) -> V, i: int)
    requires
        unique_keys(s, key),
        0 <= i < s.len(),
    ensures
        keyed_map(s.remove(i), key, val) == keyed_map(s, key, val).remove(key(s[i])),
        unique_keys(s.remove(i), key),
    decreases s.len(),
{
    let t = s.remove(i);
    if i == s.len() - 1 {
        assert(t == s.drop_last());
        lemma_keyed_dom(s.drop_last(), key, val, key(s[i]));
        assert(keyed_map(t, key, val) =~= keyed_map(s, key, val).remove(key(s[i])));
    } else {
        lemma_keyed_remove(s.drop_last(), key, val, i);
        assert(t.drop_last() == s.drop_last().remove(i));
        assert(t.last() == s.last());
        assert(key(s.last()) != key(s[i]));
        assert(keyed_map(t, key, val) =~= keyed_map(s, key, val).remove(key(s[i])));
    }
    assert forall|a: int, b: int| 0 <= a < t.len() && 0 <= b < t.len() && a != b implies key(t[a]) != key(t[b]) by {
        let a2 = if a < i { a } else { a + 1 };
        let b2 = if b < i { b } else { b + 1 };
        assert(t[a] == s[a2] && t[b] == s[b2]);
    }
}


/// Sequences that agree element-wise on keys and values have the same map.
pub proof fn lemma_keyed_congruent<T, U, K, V>(
    s: Seq<T>,
    t: Seq<U>,
    ks: spec_fn(T) -> K,
    vs: spec_fn(T) -> V,
    kt: spec_fn(U) -> K,
    vt: spec_fn(U) -> V,
)
    requires
        s.len() == t.len(),
        forall|i: int| 0 <= i < s.len() ==> ks(s[i]) == kt(t[i]) && vs(s[i]) == vt(t[i]),
    ensures
        keyed_map(s, ks, vs) == keyed_map(t, kt, vt),
    decreases s.len(),
{
    if s.len() > 0 {
        lemma_keyed_congruent(s.drop_last(), t.drop_last(), ks, vs, kt, vt);
    }
}

/// Elements after `i` that never carry key `k` do not change what the map
/// says about `k`.
pub proof fn lemma_keyed_prefix_agree<T, K, V>(s: Seq<T>, key: spec_fn(T) -> K, val: spec_fn(T) -> V, i: int, k: K)
    requires
        0 <= i <= s.len(),
        forall|j: int| i <= j < s.len() ==> key(s[j]) != k,
    ensures
        keyed_map(s, key, val).contains_key(k) == keyed_map(s.subrange(0, i), key, val).contains_key(k),
        keyed_map(s, key, val).contains_key(k) ==> keyed_map(s, key, val)[k] == keyed_map(
            s.subrange(0, i),
            key,
            val,
        )[k],
    decreases s.len(),
{
    if i == s.len() {
        assert(s.subrange(0, i) == s);
    } else {
        lemma_keyed_prefix_agree(s.drop_last(), key, val, i, k);
        assert(s.drop_last().subrange(0, i) == s.subrange(0, i));
    }
}


/// With unique keys the map has one entry per element.
pub proof fn lemma_keyed_len<T, K, V>(s: Seq<T>, key: spec_fn(T) -> K, val: spec_fn(T) -> V)
    requires
        unique_keys(s, key),
    ensures
        keyed_map(s, key, val).dom().finite(),
        keyed_map(s, key, val).len() == s.len(),
    decreases s.len(),
{
    if s.len() > 0 {
        let t = s.drop_last();
        assert(unique_keys(t, key)) by {
            assert forall|a: int, b: int| 0 <= a < t.len() && 0 <= b < t.len() && a != b implies key(t[a]) != key(t[b]) by {
                assert(t[a] == s[a] && t[b] == s[b]);
            }
        }
        lemma_keyed_len(t, key, val);
        lemma_keyed_dom(t, key, val, key(s.last()));
        if keyed_map(t, key, val).contains_key(key(s.last())) {
            let i = choose|i: int| 0 <= i < t.len() && key(t[i]) == key(s.last());
            assert(key(s[i]) == key(s[s.len() - 1]));
        }
    }
}

/// Index of the first item of `s` that satisfies `p`.
pub open spec fn first_index<T>(s: Seq<T>, p: spec_fn(T) -> bool) -> Option<int>
    decreases s.len(),
{
    if s.len() == 0 {
        None
    } else if p(s[0]) {
        Some(0)
    } else {
        match first_index(s.drop_first(), p) {
            Some(i) => Some(i + 1),
            None => None,
        }
    }
}

pub proof fn lemma_first_index<T>(s: Seq<T>, p: spec_fn(T) -> bool, e: int)
    requires
        0 <= e <= s.len(),
        forall|k: int| 0 <= k < e ==> !p(#[trigger] s[k]),
        e < s.len() ==> p(s[e]),
    ensures
        first_index(s, p) == (if e < s.len() { Some(e) } else { None::<int> }),
    decreases s.len(),
{
    if s.len() > 0 && !p(s[0]) {
        assert forall|k: int| 0 <= k < e - 1 implies !p(#[trigger] s.drop_first()[k]) by {
            assert(s.drop_first()[k] == s[k + 1]);
        }
        lemma_first_index(s.drop_first(), p, e - 1);
    }
}

pub proof fn lemma_first_index_props<T>(s: Seq<T>, p: spec_fn(T) -> bool)
    ensures
        match first_index(s, p) {
            Some(i) => 0 <= i < s.len() && p(s[i]) && forall|k: int| 0 <= k < i ==> !p(#[trigger] s[k]),
            None => forall|k: int| 0 <= k < s.len() ==> !p(#[trigger] s[k]),
        },
    decreases s.len(),
{
    if s.len() > 0 && !p(s[0]) {
        lemma_first_index_props(s.drop_first(), p);
        match first_index(s.drop_first(), p) {
            Some(i) => {
                assert forall|k: int| 0 <= k < i + 1 implies !p(#[trigger] s[k]) by {
                    if k > 0 {
                        assert(s[k] == s.drop_first()[k - 1]);
                    }
                }
            },
            None => {
                assert forall|k: int| 0 <= k < s.len() implies !p(#[trigger] s[k]) by {
                    if k > 0 {
                        assert(s[k] == s.drop_first()[k - 1]);
                    }
                }
            },
        }
    }
}

} // verus!
