//! Association lists keyed by byte strings: the specification-level model
//! shared by the header map, the file cache, and the content store. A
//! lookup finds the first pair with the given key; an insert replaces the
//! first matching pair or appends a new one, so keys stay unique and
//! insertion order is kept.
use vstd::prelude::*;

verus! {

/// Index of the first pair whose key is `k`, or -1 when no pair matches.
pub open spec fn assoc_index<V>(s: Seq<(Seq<u8>, V)>, k: Seq<u8>) -> int
    decreases s.len(),
{
    if s.len() == 0 {
        -1
    } else if s[0].0 == k {
        0
    } else {
        let r = assoc_index(s.drop_first(), k);
        if r == -1 {
            -1
        } else {
            r + 1
        }
    }
}

/// Value of the first pair whose key is `k`.
pub open spec fn assoc_lookup<V>(s: Seq<(Seq<u8>, V)>, k: Seq<u8>) -> Option<V> {
    if assoc_index(s, k) == -1 {
        None
    } else {
        Some(s[assoc_index(s, k)].1)
    }
}

/// Whether some pair has key `k`.
pub open spec fn assoc_has<V>(s: Seq<(Seq<u8>, V)>, k: Seq<u8>) -> bool {
    assoc_index(s, k) != -1
}

/// Replace the first pair whose key is `k`, or append a new pair.
pub open spec fn assoc_insert<V>(s: Seq<(Seq<u8>, V)>, k: Seq<u8>, v: V) -> Seq<(Seq<u8>, V)> {
    let i = assoc_index(s, k);
    if i == -1 {
        s.push((k, v))
    } else {
        s.update(i, (k, v))
    }
}

/// The index found by `assoc_index` is the first match: it lies in range,
/// its pair carries the key, and no earlier pair does.
pub proof fn lemma_assoc_index<V>(s: Seq<(Seq<u8>, V)>, k: Seq<u8>)
    ensures
        assoc_index(s, k) == -1 ==> forall|j: int| 0 <= j < s.len() ==> (#[trigger] s[j]).0 != k,
        assoc_index(s, k) != -1 ==> 0 <= assoc_index(s, k) < s.len(),
        assoc_index(s, k) != -1 ==> s[assoc_index(s, k)].0 == k,
        assoc_index(s, k) != -1 ==> forall|j: int|
            0 <= j < assoc_index(s, k) ==> (#[trigger] s[j]).0 != k,
    decreases s.len(),
{
    if s.len() != 0 && s[0].0 != k {
        lemma_assoc_index(s.drop_first(), k);
        assert forall|j: int| 1 <= j < s.len() implies (#[trigger] s[j]).0 == s.drop_first()[j
            - 1].0 by {}
    }
}

/// A position that is the first match is the index `assoc_index` finds.
pub proof fn lemma_assoc_index_unique<V>(s: Seq<(Seq<u8>, V)>, k: Seq<u8>, i: int)
    requires
        0 <= i < s.len(),
        s[i].0 == k,
        forall|j: int| 0 <= j < i ==> (#[trigger] s[j]).0 != k,
    ensures
        assoc_index(s, k) == i,
    decreases s.len(),
{
    if i > 0 {
        assert(s[0].0 != k);
        assert(s.drop_first()[i - 1].0 == k);
        assert forall|j: int| 0 <= j < i - 1 implies (#[trigger] s.drop_first()[j]).0 != k by {
            assert(s[j + 1].0 != k);
        }
        lemma_assoc_index_unique(s.drop_first(), k, i - 1);
    }
}

/// What a lookup sees after an insert: the inserted key maps to the new
/// value, every other key is unchanged.
pub proof fn lemma_assoc_insert_lookup<V>(s: Seq<(Seq<u8>, V)>, k: Seq<u8>, v: V, k2: Seq<u8>)
    ensures
        assoc_lookup(assoc_insert(s, k, v), k2) == if k2 == k {
            Some(v)
        } else {
            assoc_lookup(s, k2)
        },
{
    lemma_assoc_index(s, k);
    let s2 = assoc_insert(s, k, v);
    let i = assoc_index(s, k);
    if k2 == k {
        if i == -1 {
            assert(s2[s.len() as int].0 == k);
            assert(forall|j: int| 0 <= j < s.len() ==> (#[trigger] s2[j]).0 == s[j].0);
            lemma_assoc_index_unique(s2, k, s.len() as int);
        } else {
            assert(s2[i].0 == k);
            assert(forall|j: int| 0 <= j < i ==> (#[trigger] s2[j]).0 == s[j].0);
            lemma_assoc_index_unique(s2, k, i);
        }
    } else {
        lemma_assoc_index(s, k2);
        lemma_assoc_index(s2, k2);
        let i2 = assoc_index(s, k2);
        if i2 == -1 {
            if assoc_index(s2, k2) != -1 {
                let m = assoc_index(s2, k2);
                assert(s2[m].0 == k2);
                if i == -1 {
                    assert(m < s.len() ==> s[m].0 == k2);
                } else {
                    assert(m != i ==> s[m].0 == k2);
                }
                assert(false);
            }
        } else {
            assert(s[i2].0 == k2);
            assert(s2[i2].0 == k2);
            assert forall|j: int| 0 <= j < i2 implies (#[trigger] s2[j]).0 != k2 by {
                assert(s[j].0 != k2);
            }
            lemma_assoc_index_unique(s2, k2, i2);
            assert(s2[i2].1 == s[i2].1);
        }
    }
}

/// The deep view of a key/value vector indexes to the key's bytes and the
/// value's deep view.
pub proof fn lemma_kv_view<V: DeepView>(v: Vec<(Vec<u8>, V)>)
    ensures
        v.deep_view().len() == v@.len(),
        forall|j: int|
            0 <= j < v@.len() ==> #[trigger] v.deep_view()[j] == (
                v@[j].0@,
                v@[j].1.deep_view(),
            ),
{
    assert forall|j: int| 0 <= j < v@.len() implies #[trigger] v.deep_view()[j] == (
        v@[j].0@,
        v@[j].1.deep_view(),
    ) by {
        assert(v@[j].0.deep_view() =~= v@[j].0@);
    }
}

/// Find the value stored under a key.
pub fn assoc_get<'a, V: DeepView>(pairs: &'a Vec<(Vec<u8>, V)>, key: &Vec<u8>) -> (r: Option<
    &'a V,
>)
    ensures
        match r {
            Some(x) => assoc_lookup(pairs.deep_view(), key@) == Some(x.deep_view()),
            None => assoc_lookup(pairs.deep_view(), key@) is None,
        },
{
    proof {
        lemma_kv_view(*pairs);
    }
    let ghost pv = pairs.deep_view();
    let mut i: usize = 0;
    while i < pairs.len()
        invariant
            0 <= i <= pairs@.len(),
            pv == pairs.deep_view(),
            pv.len() == pairs@.len(),
            forall|j: int|
                0 <= j < pairs@.len() ==> #[trigger] pv[j] == (pairs@[j].0@, pairs@[j].1.deep_view()),
            forall|j: int| 0 <= j < i ==> (#[trigger] pv[j]).0 != key@,
        decreases pairs@.len() - i,
    {
        if crate::text::bytes_eq(&pairs[i].0, key) {
            proof {
                lemma_assoc_index_unique(pv, key@, i as int);
            }
            return Some(&pairs[i].1);
        }
        i = i + 1;
    }
    proof {
        lemma_assoc_index(pv, key@);
        if assoc_index(pv, key@) != -1 {
            assert(pv[assoc_index(pv, key@)].0 == key@);
            assert(false);
        }
    }
    None
}

/// Store a value under a key, replacing the first entry with that key or
/// appending a new one.
pub fn assoc_set<V: DeepView>(pairs: &mut Vec<(Vec<u8>, V)>, key: Vec<u8>, value: V)
    ensures
        final(pairs).deep_view() == assoc_insert(old(pairs).deep_view(), key@, value.deep_view()),
{
    proof {
        lemma_kv_view(*pairs);
    }
    let ghost orig = pairs.deep_view();
    let ghost k = key@;
    let ghost v = value.deep_view();
    let mut i: usize = 0;
    while i < pairs.len()
        invariant
            0 <= i <= pairs@.len(),
            pairs.deep_view() == orig,
            orig == old(pairs).deep_view(),
            k == key@,
            v == value.deep_view(),
            orig.len() == pairs@.len(),
            forall|j: int| 0 <= j < i ==> (#[trigger] orig[j]).0 != k,
            forall|j: int|
                0 <= j < pairs@.len() ==> #[trigger] orig[j] == (
                    pairs@[j].0@,
                    pairs@[j].1.deep_view(),
                ),
        decreases pairs@.len() - i,
    {
        if crate::text::bytes_eq(&pairs[i].0, &key) {
            proof {
                lemma_assoc_index_unique(orig, k, i as int);
            }
            pairs.remove(i);
            pairs.insert(i, (key, value));
            proof {
                lemma_kv_view(*pairs);
                assert(pairs.deep_view() =~= assoc_insert(orig, k, v));
            }
            return ;
        }
        i = i + 1;
    }
    proof {
        lemma_assoc_index(orig, k);
        if assoc_index(orig, k) != -1 {
            assert(orig[assoc_index(orig, k)].0 == k);
            assert(false);
        }
    }
    pairs.push((key, value));
    proof {
        lemma_kv_view(*pairs);
        assert(pairs.deep_view() =~= assoc_insert(orig, k, v));
    }
}

} // verus!
