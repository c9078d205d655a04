//! Association sequences viewed as mathematical maps.
//!
//! Both the task table (identifier to property bag) and a property bag
//! itself (name to value) are stored as vectors of pairs whose keys are
//! distinct.  This module gives such a sequence its map view and proves
//! how the view changes under push, in-place update and removal.

use vstd::prelude::*;

verus! {

/// The map described by an association sequence; on duplicate keys the
/// later entry wins, as repeated insertion would have it.
pub open spec fn assoc_view<K: View, V: View>(s: Seq<(K, V)>) -> Map<K::V, V::V>
    decreases s.len(),
{
    if s.len() == 0 {
        Map::empty()
    } else {
        assoc_view(s.drop_last()).insert(s.last().0@, s.last().1@)
    }
}

/// Key views are pairwise distinct, so each key names one entry.
pub open spec fn assoc_distinct_keys<K: View, V: View>(s: Seq<(K, V)>) -> bool {
    forall|i: int, j: int|
        0 <= i < j < s.len() ==> (#[trigger] s[i]).0@ != (#[trigger] s[j]).0@
}

/// The view's domain is exactly the set of key views occurring in the sequence.
pub proof fn lemma_assoc_view_contains<K: View, V: View>(s: Seq<(K, V)>, k: K::V)
    ensures
        assoc_view(s).contains_key(k) <==> exists|i: int|
            0 <= i < s.len() && (#[trigger] s[i]).0@ == k,
    decreases s.len(),
{
    if s.len() > 0 {
        lemma_assoc_view_contains(s.drop_last(), k);
        if s.last().0@ == k {
            assert(s[s.len() - 1].0@ == k);
        } else if assoc_view(s).contains_key(k) {
            let i = choose|i: int| 0 <= i < s.drop_last().len() && (#[trigger] s.drop_last()[i]).0@ == k;
            assert(s[i].0@ == k);
        } else {
            assert(forall|i: int| 0 <= i < s.len() - 1 ==> (#[trigger] s[i]).0@ == s.drop_last()[i].0@);
        }
    }
}

/// With distinct keys, the view takes each entry's key to that entry's value.
pub proof fn lemma_assoc_view_index<K: View, V: View>(s: Seq<(K, V)>, i: int)
    requires
        assoc_distinct_keys(s),
        0 <= i < s.len(),
    ensures
        assoc_view(s).contains_key(s[i].0@),
        assoc_view(s)[s[i].0@] == s[i].1@,
    decreases s.len(),
{
    if i == s.len() - 1 {
        assert(s.last() == s[i]);
    } else {
        assert(s.drop_last()[i] == s[i]);
        lemma_assoc_view_index(s.drop_last(), i);
        assert(s[s.len() - 1].0@ != s[i].0@);
    }
}

/// Appending an entry inserts its pair into the view.
pub proof fn lemma_assoc_view_push<K: View, V: View>(s: Seq<(K, V)>, p: (K, V))
    ensures
        assoc_view(s.push(p)) == assoc_view(s).insert(p.0@, p.1@),
{
    assert(s.push(p).drop_last() =~= s);
    assert(s.push(p).last() == p);
}

/// Overwriting the entry that holds a key updates the view at that key alone.
pub proof fn lemma_assoc_view_update<K: View, V: View>(s: Seq<(K, V)>, i: int, p: (K, V))
    requires
        assoc_distinct_keys(s),
        0 <= i < s.len(),
        s[i].0@ == p.0@,
    ensures
        assoc_view(s.update(i, p)) =~= assoc_view(s).insert(p.0@, p.1@),
    decreases s.len(),
{
    let t = s.update(i, p);
    if i == s.len() - 1 {
        assert(t.drop_last() =~= s.drop_last());
        assert(t.last() == p);
    } else {
        assert(t.drop_last() =~= s.drop_last().update(i, p));
        assert(s.drop_last()[i] == s[i]);
        lemma_assoc_view_update(s.drop_last(), i, p);
        assert(t.last() == s.last());
        assert(s.last().0@ != p.0@);
    }
}

/// Removing the entry that holds a key removes that key from the view.
pub proof fn lemma_assoc_view_remove<K: View, V: View>(s: Seq<(K, V)>, i: int)
    requires
        assoc_distinct_keys(s),
        0 <= i < s.len(),
    ensures
        assoc_view(s.remove(i)) =~= assoc_view(s).remove(s[i].0@),
    decreases s.len(),
{
    let t = s.remove(i);
    if i == s.len() - 1 {
        assert(t =~= s.drop_last());
        lemma_assoc_view_contains(s.drop_last(), s[i].0@);
        assert(forall|j: int| 0 <= j < s.len() - 1 ==> (#[trigger] s.drop_last()[j]).0@ == s[j].0@);
        assert(!assoc_view(s.drop_last()).contains_key(s[i].0@));
    } else {
        assert(t.drop_last() =~= s.drop_last().remove(i));
        assert(t.last() == s.last());
        assert(s.drop_last()[i] == s[i]);
        lemma_assoc_view_remove(s.drop_last(), i);
        assert(s.last().0@ != s[i].0@);
    }
}

/// Two sequences whose entries agree view for view describe the same map.
pub proof fn lemma_assoc_view_congruent<K: View, V: View>(s1: Seq<(K, V)>, s2: Seq<(K, V)>)
    requires
        s1.len() == s2.len(),
        forall|i: int| 0 <= i < s1.len() ==> (#[trigger] s1[i]).0@ == (#[trigger] s2[i]).0@
            && s1[i].1@ == s2[i].1@,
    ensures
        assoc_view(s1) == assoc_view(s2),
    decreases s1.len(),
{
    if s1.len() > 0 {
        assert(forall|i: int| 0 <= i < s1.len() - 1 ==> (#[trigger] s1.drop_last()[i]) == s1[i]
            && (#[trigger] s2.drop_last()[i]) == s2[i]);
        lemma_assoc_view_congruent(s1.drop_last(), s2.drop_last());
        assert(s1.last() == s1[s1.len() - 1]);
        assert(s2.last() == s2[s1.len() - 1]);
    }
}

/// With distinct keys the view has as many keys as the sequence has entries.
pub proof fn lemma_assoc_view_len<K: View, V: View>(s: Seq<(K, V)>)
    requires
        assoc_distinct_keys(s),
    ensures
        assoc_view(s).dom().finite(),
        assoc_view(s).dom().len() == s.len(),
    decreases s.len(),
{
    if s.len() > 0 {
        lemma_assoc_view_len(s.drop_last());
        lemma_assoc_view_contains(s.drop_last(), s.last().0@);
        assert(forall|j: int| 0 <= j < s.len() - 1 ==> (#[trigger] s.drop_last()[j]).0@ == s[j].0@);
        assert(!assoc_view(s.drop_last()).contains_key(s.last().0@));
        vstd::set::axiom_set_insert_len(assoc_view(s.drop_last()).dom(), s.last().0@);
        assert(assoc_view(s).dom() =~= assoc_view(s.drop_last()).dom().insert(s.last().0@));
    }
}

} // verus!
