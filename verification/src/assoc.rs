//! Association lists: sequences of key/value pairs read as finite maps.
//! A later pair overrides an earlier one with the same key; the lists
//! this crate keeps never hold a key twice.

use vstd::prelude::*;

verus! {

/// No key occurs twice.
pub open spec fn keys_distinct<K, V>(s: Seq<(K, V)>) -> bool {
    forall|i: int, j: int| 0 <= i < j < s.len() ==> s[i].0 != s[j].0
}

/// Some pair has key `k`.
pub open spec fn has_key<K, V>(s: Seq<(K, V)>, k: K) -> bool {
    exists|i: int| 0 <= i < s.len() && s[i].0 == k
}

/// The map that a list of pairs stands for.
pub open spec fn assoc_map<K, V>(s: Seq<(K, V)>) -> Map<K, V>
    decreases s.len(),
{
    if s.len() == 0 {
        Map::empty()
    } else {
        assoc_map(s.drop_last()).insert(s.last().0, s.last().1)
    }
}

/// With distinct keys, the map holds exactly the listed keys, each with its
/// listed value, and has as many entries as the list.
pub proof fn lemma_assoc_map<K, V>(s: Seq<(K, V)>)
    requires
        keys_distinct(s),
    ensures
        assoc_map(s).dom().finite(),
        assoc_map(s).dom().len() == s.len(),
        forall|k: K| #[trigger] assoc_map(s).contains_key(k) <==> has_key(s, k),
        forall|i: int| 0 <= i < s.len() ==> #[trigger] assoc_map(s)[s[i].0] == s[i].1,
    decreases s.len(),
{
    if s.len() > 0 {
        let t = s.drop_last();
        assert(keys_distinct(t));
        lemma_assoc_map(t);
        let last = s.last();
        assert(!has_key(t, last.0)) by {
            if has_key(t, last.0) {
                let i = choose|i: int| 0 <= i < t.len() && t[i].0 == last.0;
                assert(s[i].0 == s[s.len() - 1].0);
            }
        }
        assert forall|k: K| #[trigger] assoc_map(s).contains_key(k) <==> has_key(s, k) by {
            if has_key(s, k) && k != last.0 {
                let i = choose|i: int| 0 <= i < s.len() && s[i].0 == k;
                assert(t[i].0 == k);
            }
            if has_key(t, k) {
                let i = choose|i: int| 0 <= i < t.len() && t[i].0 == k;
                assert(s[i].0 == k);
            }
        }
        assert forall|i: int| 0 <= i < s.len() implies #[trigger] assoc_map(s)[s[i].0] == s[i].1 by {
            if i < s.len() - 1 {
                assert(t[i] == s[i]);
            }
        }
    }
}

/// Appending a pair with a new key adds that entry.
pub proof fn lemma_assoc_push<K, V>(s: Seq<(K, V)>, p: (K, V))
    ensures
        assoc_map(s.push(p)) == assoc_map(s).insert(p.0, p.1),
{
    assert(s.push(p).drop_last() =~= s);
}

/// Removing the pair at `i` removes its key from the map.
pub proof fn lemma_assoc_remove<K, V>(s: Seq<(K, V)>, i: int)
    requires
        keys_distinct(s),
        0 <= i < s.len(),
    ensures
        keys_distinct(s.remove(i)),
        assoc_map(s.remove(i)) == assoc_map(s).remove(s[i].0),
{
    let r = s.remove(i);
    assert(keys_distinct(r)) by {
        assert forall|a: int, b: int| 0 <= a < b < r.len() implies r[a].0 != r[b].0 by {
            let a2 = if a < i { a } else { a + 1 };
            let b2 = if b < i { b } else { b + 1 };
            assert(r[a] == s[a2] && r[b] == s[b2]);
        }
    }
    lemma_assoc_map(s);
    lemma_assoc_map(r);
    let k = s[i].0;
    assert forall|x: K| #[trigger] assoc_map(r).contains_key(x) <==> assoc_map(s).remove(k).contains_key(x) by {
        if has_key(r, x) {
            let j = choose|j: int| 0 <= j < r.len() && r[j].0 == x;
            let j2 = if j < i { j } else { j + 1 };
            assert(s[j2] == r[j]);
            assert(j2 != i);
            assert(has_key(s, x));
        }
        if has_key(s, x) && x != k {
            let j = choose|j: int| 0 <= j < s.len() && s[j].0 == x;
            assert(j != i);
            let j2 = if j < i { j } else { j - 1 };
            assert(r[j2] == s[j]);
        }
    }
    assert forall|x: K| #[trigger] assoc_map(r).contains_key(x) implies assoc_map(r)[x]
        == assoc_map(s).remove(k)[x] by {
        let j = choose|j: int| 0 <= j < r.len() && r[j].0 == x;
        let j2 = if j < i { j } else { j + 1 };
        assert(s[j2] == r[j]);
    }
    assert(assoc_map(r) =~= assoc_map(s).remove(k));
}

/// Moving the pair at `i` to the end, with a new value, sets that key's value.
pub proof fn lemma_assoc_replace<K, V>(s: Seq<(K, V)>, i: int, v: V)
    requires
        keys_distinct(s),
        0 <= i < s.len(),
    ensures
        keys_distinct(s.remove(i).push((s[i].0, v))),
        assoc_map(s.remove(i).push((s[i].0, v))) == assoc_map(s).insert(s[i].0, v),
{
    let k = s[i].0;
    lemma_assoc_remove(s, i);
    let r = s.remove(i);
    lemma_assoc_map(r);
    assert(!has_key(r, k)) by {
        if has_key(r, k) {
            let j = choose|j: int| 0 <= j < r.len() && r[j].0 == k;
            let j2 = if j < i { j } else { j + 1 };
            assert(s[j2] == r[j]);
        }
    }
    let t = r.push((k, v));
    assert(keys_distinct(t)) by {
        assert forall|a: int, b: int| 0 <= a < b < t.len() implies t[a].0 != t[b].0 by {
            if b == t.len() - 1 {
                assert(t[a] == r[a]);
            } else {
                assert(t[a] == r[a] && t[b] == r[b]);
            }
        }
    }
    lemma_assoc_push(r, (k, v));
    assert(assoc_map(s).remove(k).insert(k, v) =~= assoc_map(s).insert(k, v));
}

/// Appending a pair whose key is new keeps the keys distinct.
pub proof fn lemma_assoc_push_distinct<K, V>(s: Seq<(K, V)>, p: (K, V))
    requires
        keys_distinct(s),
        !has_key(s, p.0),
    ensures
        keys_distinct(s.push(p)),
{
    let t = s.push(p);
    assert forall|a: int, b: int| 0 <= a < b < t.len() implies t[a].0 != t[b].0 by {
        assert(t[a] == s[a]);
        if b < s.len() {
            assert(t[b] == s[b]);
        }
    }
}

} // verus!
