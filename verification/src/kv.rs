//! A small association list keyed by strings, with a `Map` view.
//!
//! Both persisted documents — profiles by id, and project bindings by
//! project identifier — are lists of `(String, value)` entries with unique
//! keys; their contracts speak of the corresponding `Map`.

use vstd::prelude::*;

use crate::text::str_eq;

verus! {

/// The map an entry list denotes: later entries would win, but the store
/// keeps keys unique so there is nothing to win over.
pub open spec fn kv_map<V: DeepView>(s: Seq<(String, V)>) -> Map<Seq<char>, V::V>
    decreases s.len(),
{
    if s.len() == 0 {
        Map::empty()
    } else {
        kv_map(s.drop_last()).insert(s.last().0@, s.last().1.deep_view())
    }
}

/// No two entries share a key.
pub open spec fn kv_keys_unique<V>(s: Seq<(String, V)>) -> bool {
    forall|i: int, j: int| 0 <= i < j < s.len() ==> s[i].0@ != s[j].0@
}

/// The map holds a key exactly when some entry carries it.
pub proof fn lemma_kv_contains<V: DeepView>(s: Seq<(String, V)>, k: Seq<char>)
    ensures
        kv_map(s).contains_key(k) <==> exists|i: int| 0 <= i < s.len() && s[i].0@ == k,
    decreases s.len(),
{
    if s.len() == 0 {
    } else {
        lemma_kv_contains(s.drop_last(), k);
        if s.last().0@ == k {
            assert(s[s.len() - 1].0@ == k);
        } else {
            if kv_map(s).contains_key(k) {
                let i = choose|i: int| 0 <= i < s.drop_last().len() && s.drop_last()[i].0@ == k;
                assert(s[i].0@ == k);
            }
            if exists|i: int| 0 <= i < s.len() && s[i].0@ == k {
                let i = choose|i: int| 0 <= i < s.len() && s[i].0@ == k;
                assert(i < s.len() - 1);
                assert(s.drop_last()[i].0@ == k);
            }
        }
    }
}

/// With unique keys, the map sends each entry's key to that entry's value.
pub proof fn lemma_kv_value<V: DeepView>(s: Seq<(String, V)>, i: int)
    requires
        kv_keys_unique(s),
        0 <= i < s.len(),
    ensures
        kv_map(s).contains_key(s[i].0@),
        kv_map(s)[s[i].0@] == s[i].1.deep_view(),
    decreases s.len(),
{
    if i == s.len() - 1 {
    } else {
        assert(s.last().0@ != s[i].0@);
        assert(kv_keys_unique(s.drop_last()));
        lemma_kv_value(s.drop_last(), i);
        assert(s.drop_last()[i] == s[i]);
    }
}

/// Appending an entry under a fresh key inserts it into the map.
pub proof fn lemma_kv_push<V: DeepView>(s: Seq<(String, V)>, key: String, v: V)
    requires
        kv_keys_unique(s),
        forall|i: int| 0 <= i < s.len() ==> s[i].0@ != key@,
    ensures
        kv_map(s.push((key, v))) == kv_map(s).insert(key@, v.deep_view()),
        kv_keys_unique(s.push((key, v))),
{
    let t = s.push((key, v));
    assert(t.drop_last() =~= s);
    assert(t.last() == (key, v));
    assert forall|a: int, b: int| 0 <= a < b < t.len() implies t[a].0@ != t[b].0@ by {
        if b < t.len() - 1 {
            assert(t[a] == s[a] && t[b] == s[b]);
        } else {
            assert(t[a] == s[a]);
        }
    }
}

/// Removing the entry at `i` removes its key from the map.
pub proof fn lemma_kv_remove<V: DeepView>(s: Seq<(String, V)>, i: int)
    requires
        kv_keys_unique(s),
        0 <= i < s.len(),
    ensures
        kv_map(s.remove(i)) == kv_map(s).remove(s[i].0@),
        kv_keys_unique(s.remove(i)),
    decreases s.len(),
{
    let k = s[i].0@;
    assert forall|a: int, b: int|
        0 <= a < b < s.remove(i).len() implies s.remove(i)[a].0@ != s.remove(i)[b].0@ by {
        let a0 = if a < i { a } else { a + 1 };
        let b0 = if b < i { b } else { b + 1 };
        assert(s.remove(i)[a] == s[a0] && s.remove(i)[b] == s[b0]);
    }
    if i == s.len() - 1 {
        assert(s.remove(i) =~= s.drop_last());
        lemma_kv_contains(s.drop_last(), k);
        assert forall|j: int| 0 <= j < s.drop_last().len() implies s.drop_last()[j].0@ != k by {
            assert(s.drop_last()[j] == s[j]);
        }
        assert(!kv_map(s.drop_last()).contains_key(k));
        assert(kv_map(s.drop_last()).insert(k, s.last().1.deep_view()).remove(k) =~= kv_map(
            s.drop_last(),
        ));
    } else {
        let t = s.drop_last();
        assert(kv_keys_unique(t));
        assert(t[i] == s[i]);
        lemma_kv_remove(t, i);
        assert(s.remove(i).drop_last() =~= t.remove(i));
        assert(s.remove(i).last() == s.last());
        assert(s.last().0@ != k);
        let lastk = s.last().0@;
        let lastv = s.last().1.deep_view();
        assert((kv_map(t).insert(lastk, lastv)).remove(k) =~= (kv_map(t).remove(k)).insert(
            lastk,
            lastv,
        ));
    }
}

/// After removing entry `i`, no entry carries its key any more.
pub proof fn lemma_kv_remove_clears_key<V: DeepView>(s: Seq<(String, V)>, i: int)
    requires
        kv_keys_unique(s),
        0 <= i < s.len(),
    ensures
        forall|j: int| 0 <= j < s.remove(i).len() ==> s.remove(i)[j].0@ != s[i].0@,
{
    assert forall|j: int| 0 <= j < s.remove(i).len() implies s.remove(i)[j].0@ != s[i].0@ by {
        let j0 = if j < i {
            j
        } else {
            j + 1
        };
        assert(s.remove(i)[j] == s[j0]);
    }
}

/// Index of the entry carrying `key`, if any.
pub fn kv_find<V>(v: &Vec<(String, V)>, key: &str) -> (r: Option<usize>)
    ensures
        match r {
            Some(i) => i < v@.len() && v@[i as int].0@ == key@,
            None => forall|i: int| 0 <= i < v@.len() ==> v@[i as int].0@ != key@,
        },
{
    let n = v.len();
    let mut i: usize = 0;
    while i < n
        invariant
            n == v@.len(),
            0 <= i <= n,
            forall|j: int| 0 <= j < i ==> v@[j].0@ != key@,
        decreases n - i,
    {
        if str_eq(v[i].0.as_str(), key) {
            return Some(i);
        }
        i = i + 1;
    }
    None
}

} // verus!
