//! Association lists: vectors of key/value pairs read as maps, where a later
//! pair for a key overrides an earlier one.
use vstd::prelude::*;

use crate::text::chars_eq;

verus! {

/// The map that a list of pairs stands for: each pair inserted in turn.
pub open spec fn alist_to_map<K, V>(s: Seq<(K, V)>) -> Map<K, V>
    decreases s.len(),
{
    if s.len() == 0 {
        Map::empty()
    } else {
        alist_to_map(s.drop_last()).insert(s.last().0, s.last().1)
    }
}

/// `i` is the last position of a pair with key `k`.
pub open spec fn last_key_at<K, V>(s: Seq<(K, V)>, k: K, i: int) -> bool {
    &&& 0 <= i < s.len()
    &&& s[i].0 == k
    &&& forall|j: int| i < j < s.len() ==> s[j].0 != k
}

pub open spec fn has_key<K, V>(s: Seq<(K, V)>, k: K) -> bool {
    exists|j: int| 0 <= j < s.len() && s[j].0 == k
}

pub proof fn lemma_alist_finite<K, V>(s: Seq<(K, V)>)
    ensures
        alist_to_map(s).dom().finite(),
    decreases s.len(),
{
    if s.len() > 0 {
        lemma_alist_finite(s.drop_last());
    }
}

pub proof fn lemma_alist_dom<K, V>(s: Seq<(K, V)>, k: K)
    ensures
        alist_to_map(s).contains_key(k) <==> has_key(s, k),
    decreases s.len(),
{
    if s.len() > 0 {
        lemma_alist_dom(s.drop_last(), k);
        if has_key(s.drop_last(), k) {
            let j = choose|j: int| 0 <= j < s.drop_last().len() && s.drop_last()[j].0 == k;
            assert(s[j].0 == k);
        }
        if has_key(s, k) && s.last().0 != k {
            let j = choose|j: int| 0 <= j < s.len() && s[j].0 == k;
            assert(j < s.len() - 1);
            assert(s.drop_last()[j].0 == k);
        }
    }
}

pub proof fn lemma_alist_last<K, V>(s: Seq<(K, V)>, k: K, i: int)
    requires
        last_key_at(s, k, i),
    ensures
        alist_to_map(s).contains_key(k),
        alist_to_map(s)[k] == s[i].1,
    decreases s.len(),
{
    if i < s.len() - 1 {
        assert(last_key_at(s.drop_last(), k, i));
        lemma_alist_last(s.drop_last(), k, i);
    }
}

pub proof fn lemma_alist_update<K, V>(s: Seq<(K, V)>, k: K, i: int, v: V)
    requires
        last_key_at(s, k, i),
    ensures
        alist_to_map(s.update(i, (k, v))) == alist_to_map(s).insert(k, v),
    decreases s.len(),
{
    let t = s.update(i, (k, v));
    if i == s.len() - 1 {
        assert(t.drop_last() == s.drop_last());
    } else {
        assert(last_key_at(s.drop_last(), k, i));
        lemma_alist_update(s.drop_last(), k, i, v);
        assert(t.drop_last() == s.drop_last().update(i, (k, v)));
        assert(t.last() == s.last());
        assert(s.last().0 != k);
        assert(alist_to_map(t) =~= alist_to_map(s).insert(k, v));
    }
}

/// The list of pairs with each value mapped by `f`.
pub open spec fn map_pair_values<K, V, W>(s: Seq<(K, V)>, f: spec_fn(V) -> W) -> Seq<(K, W)> {
    s.map_values(|e: (K, V)| (e.0, f(e.1)))
}

pub proof fn lemma_alist_map_values<K, V, W>(s: Seq<(K, V)>, f: spec_fn(V) -> W)
    ensures
        alist_to_map(map_pair_values(s, f)) == alist_to_map(s).map_values(f),
    decreases s.len(),
{
    if s.len() > 0 {
        lemma_alist_map_values(s.drop_last(), f);
        assert(map_pair_values(s, f).drop_last() == map_pair_values(s.drop_last(), f));
        assert(alist_to_map(map_pair_values(s, f)) =~= alist_to_map(s).map_values(f));
    } else {
        assert(alist_to_map(map_pair_values(s, f)) =~= alist_to_map(s).map_values(f));
    }
}

/// The last position of a pair whose key holds the characters of `key`.
pub fn find_key<V>(entries: &Vec<(Vec<char>, V)>, key: &Vec<char>) -> (r: Option<usize>)
    ensures
        r matches Some(i) ==> i < entries.len() && entries@[i as int].0@ == key@ && forall|j: int|
            i < j < entries.len() ==> entries@[j].0@ != key@,
        r is None ==> forall|j: int| 0 <= j < entries.len() ==> entries@[j].0@ != key@,
{
    let mut i: usize = entries.len();
    while i > 0
        invariant
            i <= entries.len(),
            forall|j: int| i <= j < entries.len() ==> entries@[j].0@ != key@,
        decreases i,
    {
        if chars_eq(&entries[i - 1].0, key) {
            return Some(i - 1);
        }
        i -= 1;
    }
    None
}

} // verus!
