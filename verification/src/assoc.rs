//! Association sequences: key-value pairs with unique keys, the executable
//! backing of the state overlay's caches.
//!
//! The caches are vectors of pairs; [`spec_lookup`] is their reading. The
//! lemmas here relate in-place updates and appends to the lookup function.

use vstd::prelude::*;

verus! {

/// The value stored under `k`: the first pair with that key.
pub open spec fn spec_lookup<K, V>(s: Seq<(K, V)>, k: K) -> Option<V>
    decreases s.len(),
{
    if s.len() == 0 {
        None
    } else if s[0].0 == k {
        Some(s[0].1)
    } else {
        spec_lookup(s.subrange(1, s.len() as int), k)
    }
}

/// No two pairs share a key.
pub open spec fn spec_unique_keys<K, V>(s: Seq<(K, V)>) -> bool {
    forall|i: int, j: int| 0 <= i < j < s.len() ==> (#[trigger] s[i]).0 != (#[trigger] s[j]).0
}

/// A key present at index `i` of a unique-keyed sequence is what lookup
/// finds.
pub proof fn lemma_lookup_index<K, V>(s: Seq<(K, V)>, i: int)
    requires
        spec_unique_keys(s),
        0 <= i < s.len(),
    ensures
        spec_lookup(s, s[i].0) == Some(s[i].1),
    decreases s.len(),
{
    if i == 0 {
    } else {
        assert(s[0].0 != s[i].0);
        let t = s.subrange(1, s.len() as int);
        assert(spec_unique_keys(t)) by {
            assert forall|a: int, b: int| 0 <= a < b < t.len() implies (#[trigger] t[a]).0
                != (#[trigger] t[b]).0 by {
                assert(t[a] == s[a + 1] && t[b] == s[b + 1]);
            }
        }
        assert(t[i - 1] == s[i]);
        lemma_lookup_index(t, i - 1);
    }
}

/// A key no pair holds is not found.
pub proof fn lemma_lookup_absent<K, V>(s: Seq<(K, V)>, k: K)
    requires
        forall|i: int| 0 <= i < s.len() ==> (#[trigger] s[i]).0 != k,
    ensures
        spec_lookup(s, k) is None,
    decreases s.len(),
{
    if s.len() > 0 {
        let t = s.subrange(1, s.len() as int);
        assert(forall|i: int| 0 <= i < t.len() ==> (#[trigger] t[i]).0 != k) by {
            assert(forall|i: int| 0 <= i < t.len() ==> t[i] == s[i + 1]);
        }
        lemma_lookup_absent(t, k);
    }
}

/// Replacing the value at index `i` moves the lookup of that key and no
/// other, and keeps the keys unique.
pub proof fn lemma_lookup_update<K, V>(s: Seq<(K, V)>, i: int, v: V, k2: K)
    requires
        spec_unique_keys(s),
        0 <= i < s.len(),
    ensures
        spec_unique_keys(s.update(i, (s[i].0, v))),
        spec_lookup(s.update(i, (s[i].0, v)), k2) == (if k2 == s[i].0 {
            Some(v)
        } else {
            spec_lookup(s, k2)
        }),
    decreases s.len(),
{
    let s2 = s.update(i, (s[i].0, v));
    assert(spec_unique_keys(s2)) by {
        assert(forall|a: int| 0 <= a < s.len() ==> (#[trigger] s2[a]).0 == s[a].0);
    }
    if k2 == s[i].0 {
        lemma_lookup_index(s2, i);
        assert(s2[i] == (s[i].0, v));
    } else {
        if i == 0 {
            assert(s2.subrange(1, s2.len() as int) =~= s.subrange(1, s.len() as int));
        } else {
            if s[0].0 == k2 {
            } else {
                let t = s.subrange(1, s.len() as int);
                assert(spec_unique_keys(t)) by {
                    assert(forall|a: int| 0 <= a < t.len() ==> t[a] == s[a + 1]);
                }
                lemma_lookup_update(t, i - 1, v, k2);
                assert(s2.subrange(1, s2.len() as int) =~= t.update(i - 1, (t[i - 1].0, v)));
            }
        }
    }
}

/// Appending a fresh key adds exactly that binding, and keeps the keys
/// unique.
pub proof fn lemma_lookup_push<K, V>(s: Seq<(K, V)>, k: K, v: V, k2: K)
    requires
        spec_unique_keys(s),
        spec_lookup(s, k) is None,
    ensures
        spec_unique_keys(s.push((k, v))),
        spec_lookup(s.push((k, v)), k2) == (if k2 == k {
            Some(v)
        } else {
            spec_lookup(s, k2)
        }),
    decreases s.len(),
{
    lemma_absent_lookup(s, k);
    let s2 = s.push((k, v));
    assert(spec_unique_keys(s2)) by {
        assert(forall|a: int| 0 <= a < s.len() ==> (#[trigger] s2[a]).0 == s[a].0);
    }
    if s.len() == 0 {
        assert(s2.len() == 1 && s2[0] == (k, v));
        if k2 == k {
            assert(spec_lookup(s2, k2) == Some(v));
        } else {
            assert(s2.subrange(1, s2.len() as int) =~= Seq::<(K, V)>::empty());
            assert(spec_lookup(Seq::<(K, V)>::empty(), k2) is None);
            assert(spec_lookup(s2, k2) is None);
        }
    } else {
        let t = s.subrange(1, s.len() as int);
        assert(spec_unique_keys(t)) by {
            assert(forall|a: int| 0 <= a < t.len() ==> t[a] == s[a + 1]);
        }
        assert(s[0].0 != k);
        assert(spec_lookup(t, k) is None);
        lemma_lookup_push(t, k, v, k2);
        assert(s2[0] == s[0]);
        assert(s2.subrange(1, s2.len() as int) =~= t.push((k, v)));
        if s[0].0 == k2 {
            assert(spec_lookup(s2, k2) == Some(s[0].1));
            assert(spec_lookup(s, k2) == Some(s[0].1));
        } else {
            assert(spec_lookup(s2, k2) == spec_lookup(t.push((k, v)), k2));
            assert(spec_lookup(s, k2) == spec_lookup(t, k2));
        }
    }
}

/// The converse of [`lemma_lookup_absent`]: an unfound key is held by no
/// pair.
pub proof fn lemma_absent_lookup<K, V>(s: Seq<(K, V)>, k: K)
    requires
        spec_lookup(s, k) is None,
    ensures
        forall|i: int| 0 <= i < s.len() ==> (#[trigger] s[i]).0 != k,
    decreases s.len(),
{
    if s.len() > 0 {
        let t = s.subrange(1, s.len() as int);
        lemma_absent_lookup(t, k);
        assert(forall|i: int| 1 <= i < s.len() ==> s[i] == t[i - 1]);
    }
}

/// A found key is held by some pair at its found value.
pub proof fn lemma_lookup_some_index<K, V>(s: Seq<(K, V)>, k: K)
    requires
        spec_lookup(s, k) is Some,
    ensures
        exists|i: int|
            0 <= i < s.len() && (#[trigger] s[i]).0 == k && s[i].1 == spec_lookup(s, k)->Some_0,
    decreases s.len(),
{
    if s.len() > 0 {
        if s[0].0 == k {
            assert(s[0].0 == k && s[0].1 == spec_lookup(s, k)->Some_0);
        } else {
            let t = s.subrange(1, s.len() as int);
            lemma_lookup_some_index(t, k);
            let i = choose|i: int|
                0 <= i < t.len() && (#[trigger] t[i]).0 == k && t[i].1 == spec_lookup(t, k)->Some_0;
            assert(s[i + 1] == t[i]);
            assert(s[i + 1].0 == k && s[i + 1].1 == spec_lookup(s, k)->Some_0);
        }
    }
}

/// No element occurs twice.
pub open spec fn spec_nodup<T>(s: Seq<T>) -> bool {
    forall|i: int, j: int| 0 <= i < j < s.len() ==> s[i] != s[j]
}

/// Membership after a push: the pushed element and everything already there.
pub proof fn lemma_push_contains<T>(s: Seq<T>, x: T, b: T)
    ensures
        s.push(x).contains(b) == (s.contains(b) || b == x),
{
    if s.contains(b) {
        let i = choose|i: int| 0 <= i < s.len() && s[i] == b;
        assert(s.push(x)[i] == b);
    }
    if b == x {
        assert(s.push(x)[s.len() as int] == b);
    }
    if s.push(x).contains(b) {
        let i = choose|i: int| 0 <= i < s.push(x).len() && s.push(x)[i] == b;
        if i < s.len() {
            assert(s[i] == b);
        }
    }
}

/// Pushing a fresh element keeps a sequence duplicate-free.
pub proof fn lemma_push_nodup<T>(s: Seq<T>, x: T)
    requires
        spec_nodup(s),
        !s.contains(x),
    ensures
        spec_nodup(s.push(x)),
{
    assert forall|i: int, j: int| 0 <= i < j < s.push(x).len() implies s.push(x)[i] != s.push(x)[j]
        by {
        if j < s.len() {
        } else {
            assert(s.push(x)[j] == x);
            assert(s.push(x)[i] == s[i]);
            if s[i] == x {
                assert(s.contains(x));
            }
        }
    }
}

/// Removing position `i` from a duplicate-free sequence removes exactly that
/// element from the membership.
pub proof fn lemma_remove_nodup<T>(s: Seq<T>, i: int)
    requires
        spec_nodup(s),
        0 <= i < s.len(),
    ensures
        spec_nodup(s.remove(i)),
        forall|b: T| s.remove(i).contains(b) == (s.contains(b) && b != s[i]),
{
    let t = s.remove(i);
    assert forall|a: int, b: int| 0 <= a < b < t.len() implies t[a] != t[b] by {
        let a2: int = if a < i {
            a
        } else {
            a + 1
        };
        let b2: int = if b < i {
            b
        } else {
            b + 1
        };
        assert(t[a] == s[a2] && t[b] == s[b2]);
    }
    assert forall|b: T| t.contains(b) == (s.contains(b) && b != s[i]) by {
        if t.contains(b) {
            let j = choose|j: int| 0 <= j < t.len() && t[j] == b;
            let j2: int = if j < i {
                j
            } else {
                j + 1
            };
            assert(s[j2] == b);
            assert(s[j2] != s[i]);
        }
        if s.contains(b) && b != s[i] {
            let j = choose|j: int| 0 <= j < s.len() && s[j] == b;
            if j < i {
                assert(t[j] == b);
            } else {
                assert(j > i);
                assert(t[j - 1] == b);
            }
        }
    }
}

} // verus!
