//! Lists of key/value pairs read as maps in which a later entry overrides an earlier one.

use vstd::prelude::*;

verus! {

/// The map of a list of pairs; for a key that occurs several times the last value counts.
pub open spec fn last_wins<V>(s: Seq<(Seq<char>, V)>) -> Map<Seq<char>, V>
    decreases s.len(),
{
    if s.len() == 0 {
        Map::empty()
    } else {
        last_wins(s.drop_last()).insert(s.last().0, s.last().1)
    }
}

/// `i` is the last position of key `k` in `s`.
pub open spec fn is_last_key_at<V>(s: Seq<(Seq<char>, V)>, k: Seq<char>, i: int) -> bool {
    &&& 0 <= i < s.len()
    &&& s[i].0 == k
    &&& forall|j: int| i < j < s.len() ==> s[j].0 != k
}

/// The last position of key `k` in `s` is before `n`.
pub open spec fn last_before<V>(s: Seq<(Seq<char>, V)>, k: Seq<char>, n: int) -> bool {
    exists|j: int| 0 <= j < n && #[trigger] is_last_key_at(s, k, j)
}

pub proof fn lemma_last_wins_contains<V>(s: Seq<(Seq<char>, V)>, k: Seq<char>)
    ensures
        last_wins(s).contains_key(k) <==> exists|j: int| 0 <= j < s.len() && s[j].0 == k,
    decreases s.len(),
{
    if s.len() > 0 {
        lemma_last_wins_contains(s.drop_last(), k);
        if last_wins(s).contains_key(k) && s.last().0 != k {
            let j = choose|j: int| 0 <= j < s.drop_last().len() && s.drop_last()[j].0 == k;
            assert(s[j].0 == k);
        }
        if exists|j: int| 0 <= j < s.len() && s[j].0 == k {
            let j = choose|j: int| 0 <= j < s.len() && s[j].0 == k;
            if j < s.len() - 1 {
                assert(s.drop_last()[j].0 == k);
            }
        }
    }
}

pub proof fn lemma_last_wins_value<V>(s: Seq<(Seq<char>, V)>, k: Seq<char>, i: int)
    requires
        is_last_key_at(s, k, i),
    ensures
        last_wins(s).contains_key(k),
        last_wins(s)[k] == s[i].1,
    decreases s.len(),
{
    if i < s.len() - 1 {
        lemma_last_wins_value(s.drop_last(), k, i);
    }
}

pub proof fn lemma_last_wins_update<V>(s: Seq<(Seq<char>, V)>, k: Seq<char>, i: int, v: V)
    requires
        is_last_key_at(s, k, i),
    ensures
        last_wins(s.update(i, (k, v))) == last_wins(s).insert(k, v),
    decreases s.len(),
{
    let t = s.update(i, (k, v));
    if i == s.len() - 1 {
        assert(t.drop_last() =~= s.drop_last());
        assert(last_wins(t) =~= last_wins(s).insert(k, v));
    } else {
        assert(t.drop_last() =~= s.drop_last().update(i, (k, v)));
        lemma_last_wins_update(s.drop_last(), k, i, v);
        assert(last_wins(t) =~= last_wins(s).insert(k, v));
    }
}

/// The last position of `key` among the first components of `v`, if any.
pub fn find_last_key<X>(v: &Vec<(String, X)>, key: &String) -> (r: Option<usize>)
    ensures
        r matches Some(i) ==> i < v@.len() && v@[i as int].0@ == key@ && forall|j: int|
            i < j < v@.len() ==> v@[j].0@ != key@,
        r is None ==> forall|j: int| 0 <= j < v@.len() ==> v@[j].0@ != key@,
{
    let mut i: usize = v.len();
    while i > 0
        invariant
            i <= v@.len(),
            forall|j: int| i <= j < v@.len() ==> v@[j].0@ != key@,
        decreases i,
    {
        if v[i - 1].0 == *key {
            return Some(i - 1);
        }
        i = i - 1;
    }
    None
}

} // verus!
