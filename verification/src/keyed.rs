//! Maps read off sequences whose elements carry distinct keys.
use vstd::prelude::*;

verus! {

/// No two elements of `s` share a key.
pub open spec fn unique_keys<A, K>(s: Seq<A>, key: spec_fn(A) -> K) -> bool {
    forall|i: int, j: int|
        0 <= i < s.len() && 0 <= j < s.len() && i != j ==> key(#[trigger] s[i]) != key(#[trigger] s[j])
}

/// Some element of `s` has key `k`.
pub open spec fn has_key<A, K>(s: Seq<A>, key: spec_fn(A) -> K, k: K) -> bool {
    exists|i: int| 0 <= i < s.len() && key(#[trigger] s[i]) == k
}

/// The map from each key of `s` to the value of the element that carries it.
pub open spec fn keyed<A, K, V>(s: Seq<A>, key: spec_fn(A) -> K, val: spec_fn(A) -> V) -> Map<K, V> {
    Map::new(
        |k: K| has_key(s, key, k),
        |k: K| val(s[choose|i: int| 0 <= i < s.len() && key(#[trigger] s[i]) == k]),
    )
}

/// The element at `i` is what the map holds under its key.
pub proof fn lemma_keyed_at<A, K, V>(s: Seq<A>, key: spec_fn(A) -> K, val: spec_fn(A) -> V, i: int)
    requires
        unique_keys(s, key),
        0 <= i < s.len(),
    ensures
        keyed(s, key, val).contains_key(key(s[i])),
        keyed(s, key, val)[key(s[i])] == val(s[i]),
{
    let k = key(s[i]);
    assert(has_key(s, key, k));
    let j = choose|j: int| 0 <= j < s.len() && key(#[trigger] s[j]) == k;
    assert(j == i);
}

/// Appending an element with a new key inserts it into the map.
pub proof fn lemma_keyed_push<A, K, V>(s: Seq<A>, key: spec_fn(A) -> K, val: spec_fn(A) -> V, a: A)
    requires
        unique_keys(s, key),
        !has_key(s, key, key(a)),
    ensures
        unique_keys(s.push(a), key),
        keyed(s.push(a), key, val) == keyed(s, key, val).insert(key(a), val(a)),
{
    let t = s.push(a);
    assert forall|i: int, j: int| 0 <= i < t.len() && 0 <= j < t.len() && i != j implies key(
        #[trigger] t[i],
    ) != key(#[trigger] t[j]) by {
        if i == s.len() {
            assert(t[j] == s[j]);
        } else if j == s.len() {
            assert(t[i] == s[i]);
        } else {
            assert(t[i] == s[i] && t[j] == s[j]);
        }
    }
    let m1 = keyed(t, key, val);
    let m2 = keyed(s, key, val).insert(key(a), val(a));
    assert forall|k: K| #[trigger] m1.contains_key(k) <==> m2.contains_key(k) by {
        if has_key(s, key, k) {
            let i = choose|i: int| 0 <= i < s.len() && key(#[trigger] s[i]) == k;
            assert(t[i] == s[i]);
        }
        if has_key(t, key, k) && k != key(a) {
            let i = choose|i: int| 0 <= i < t.len() && key(#[trigger] t[i]) == k;
            assert(i != s.len());
            assert(t[i] == s[i]);
        }
        if k == key(a) {
            assert(t[s.len() as int] == a);
        }
    }
    assert forall|k: K| #[trigger] m1.contains_key(k) implies m1[k] == m2[k] by {
        if k == key(a) {
            assert(t[s.len() as int] == a);
            lemma_keyed_at(t, key, val, s.len() as int);
        } else {
            let i = choose|i: int| 0 <= i < t.len() && key(#[trigger] t[i]) == k;
            assert(t[i] == s[i]);
            lemma_keyed_at(t, key, val, i);
            lemma_keyed_at(s, key, val, i);
        }
    }
    assert(m1 =~= m2);
}

/// Replacing an element by one with the same key updates the map there.
pub proof fn lemma_keyed_update<A, K, V>(s: Seq<A>, key: spec_fn(A) -> K, val: spec_fn(A) -> V, i: int, a: A)
    requires
        unique_keys(s, key),
        0 <= i < s.len(),
        key(a) == key(s[i]),
    ensures
        unique_keys(s.update(i, a), key),
        keyed(s.update(i, a), key, val) == keyed(s, key, val).insert(key(a), val(a)),
{
    let t = s.update(i, a);
    assert forall|x: int, y: int| 0 <= x < t.len() && 0 <= y < t.len() && x != y implies key(
        #[trigger] t[x],
    ) != key(#[trigger] t[y]) by {
        assert(key(t[x]) == key(s[x]));
        assert(key(t[y]) == key(s[y]));
    }
    let m1 = keyed(t, key, val);
    let m2 = keyed(s, key, val).insert(key(a), val(a));
    assert forall|k: K| #[trigger] m1.contains_key(k) <==> m2.contains_key(k) by {
        if has_key(s, key, k) {
            let j = choose|j: int| 0 <= j < s.len() && key(#[trigger] s[j]) == k;
            assert(key(t[j]) == key(s[j]));
        }
        if has_key(t, key, k) {
            let j = choose|j: int| 0 <= j < t.len() && key(#[trigger] t[j]) == k;
            assert(key(t[j]) == key(s[j]));
        }
        if k == key(a) {
            assert(key(t[i]) == k);
        }
    }
    assert forall|k: K| #[trigger] m1.contains_key(k) implies m1[k] == m2[k] by {
        let j = choose|j: int| 0 <= j < t.len() && key(#[trigger] t[j]) == k;
        lemma_keyed_at(t, key, val, j);
        if j != i {
            assert(t[j] == s[j]);
            lemma_keyed_at(s, key, val, j);
        }
    }
    assert(m1 =~= m2);
}

/// Removing the element at `i` removes its key from the map.
pub proof fn lemma_keyed_remove<A, K, V>(s: Seq<A>, key: spec_fn(A) -> K, val: spec_fn(A) -> V, i: int)
    requires
        unique_keys(s, key),
        0 <= i < s.len(),
    ensures
        unique_keys(s.remove(i), key),
        keyed(s.remove(i), key, val) == keyed(s, key, val).remove(key(s[i])),
{
    let t = s.remove(i);
    assert forall|x: int, y: int| 0 <= x < t.len() && 0 <= y < t.len() && x != y implies key(
        #[trigger] t[x],
    ) != key(#[trigger] t[y]) by {
        let x2 = if x < i { x } else { x + 1 };
        let y2 = if y < i { y } else { y + 1 };
        assert(t[x] == s[x2]);
        assert(t[y] == s[y2]);
    }
    let m1 = keyed(t, key, val);
    let m2 = keyed(s, key, val).remove(key(s[i]));
    assert forall|k: K| #[trigger] m1.contains_key(k) <==> m2.contains_key(k) by {
        if has_key(t, key, k) {
            let j = choose|j: int| 0 <= j < t.len() && key(#[trigger] t[j]) == k;
            let j2 = if j < i { j } else { j + 1 };
            assert(t[j] == s[j2]);
            assert(j2 != i);
        }
        if has_key(s, key, k) && k != key(s[i]) {
            let j = choose|j: int| 0 <= j < s.len() && key(#[trigger] s[j]) == k;
            assert(j != i);
            let j2 = if j < i { j } else { j - 1 };
            assert(t[j2] == s[j]);
        }
    }
    assert forall|k: K| #[trigger] m1.contains_key(k) implies m1[k] == m2[k] by {
        let j = choose|j: int| 0 <= j < t.len() && key(#[trigger] t[j]) == k;
        let j2 = if j < i { j } else { j + 1 };
        assert(t[j] == s[j2]);
        lemma_keyed_at(t, key, val, j);
        lemma_keyed_at(s, key, val, j2);
    }
    assert(m1 =~= m2);
}

/// The map of the empty sequence is empty.
pub proof fn lemma_keyed_empty<A, K, V>(key: spec_fn(A) -> K, val: spec_fn(A) -> V)
    ensures
        keyed(Seq::<A>::empty(), key, val) == Map::<K, V>::empty(),
        unique_keys(Seq::<A>::empty(), key),
{
    assert(keyed(Seq::<A>::empty(), key, val) =~= Map::<K, V>::empty());
}

/// Each key of the map is carried by exactly one element, and the map has as
/// many keys as the sequence has elements.
pub proof fn lemma_keyed_len<A, K, V>(s: Seq<A>, key: spec_fn(A) -> K, val: spec_fn(A) -> V)
    requires
        unique_keys(s, key),
    ensures
        keyed(s, key, val).dom().finite(),
        keyed(s, key, val).len() == s.len(),
    decreases s.len(),
{
    if s.len() == 0 {
        lemma_keyed_empty::<A, K, V>(key, val);
        assert(s =~= Seq::<A>::empty());
        assert(Map::<K, V>::empty().dom() =~= Set::<K>::empty());
    } else {
        let p = s.drop_last();
        assert forall|i: int, j: int| 0 <= i < p.len() && 0 <= j < p.len() && i != j implies key(
            #[trigger] p[i],
        ) != key(#[trigger] p[j]) by {
            assert(p[i] == s[i] && p[j] == s[j]);
        }
        lemma_keyed_len(p, key, val);
        assert(!has_key(p, key, key(s.last()))) by {
            if has_key(p, key, key(s.last())) {
                let i = choose|i: int| 0 <= i < p.len() && key(#[trigger] p[i]) == key(s.last());
                assert(p[i] == s[i]);
            }
        }
        assert(p.push(s.last()) =~= s);
        lemma_keyed_push(p, key, val, s.last());
        let m = keyed(p, key, val);
        assert(!m.dom().contains(key(s.last())));
        assert(keyed(s, key, val) == m.insert(key(s.last()), val(s.last())));
        assert(keyed(s, key, val).dom() =~= m.dom().insert(key(s.last())));
        assert(m.dom().finite());
        assert(m.dom().insert(key(s.last())).len() == m.dom().len() + 1);
    }
}

} // verus!
