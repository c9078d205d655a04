//! An in-memory representation of a task as a flat property bag.
//!
//! Property names map to property values, both strings.  Absence of a name
//! means the property is unset; iteration order carries no meaning, so the
//! bag is specified purely as a mathematical map from name to value.

use vstd::prelude::*;
use crate::assoc::{
    assoc_view, assoc_distinct_keys, lemma_assoc_view_contains, lemma_assoc_view_index,
    lemma_assoc_view_push, lemma_assoc_view_update, lemma_assoc_view_len,
};

verus! {

/// A task's properties: unique string keys to string values.
pub struct TaskMap {
    entries: Vec<(String, String)>,
}

impl View for TaskMap {
    type V = Map<Seq<char>, Seq<char>>;

    closed spec fn view(&self) -> Map<Seq<char>, Seq<char>> {
        assoc_view(self.entries@)
    }
}

impl TaskMap {
    /// Each property name occurs at most once.
    pub closed spec fn wf(&self) -> bool {
        assoc_distinct_keys(self.entries@)
    }

    /// The empty property bag.
    pub fn new() -> (r: TaskMap)
        ensures
            r.wf(),
            r@ == Map::<Seq<char>, Seq<char>>::empty(),
    {
        TaskMap { entries: Vec::new() }
    }

    /// The number of properties set.
    pub fn len(&self) -> (r: usize)
        requires
            self.wf(),
        ensures
            r == self@.dom().len(),
    {
        proof {
            lemma_assoc_view_len(self.entries@);
        }
        self.entries.len()
    }

    /// The value of the named property, if it is set.
    pub fn get(&self, key: &String) -> (r: Option<&String>)
        requires
            self.wf(),
        ensures
            match r {
                Some(v) => self@.contains_key(key@) && self@[key@] == v@,
                None => !self@.contains_key(key@),
            },
    {
        proof {
            lemma_assoc_view_contains(self.entries@, key@);
        }
        let n = self.entries.len();
        let mut i: usize = 0;
        while i < n
            invariant
                self.wf(),
                n == self.entries@.len(),
                forall|j: int| 0 <= j < i ==> (#[trigger] self.entries@[j]).0@ != key@,
            decreases n - i,
        {
            if self.entries[i].0 == *key {
                proof {
                    lemma_assoc_view_index(self.entries@, i as int);
                }
                return Some(&self.entries[i].1);
            }
            i = i + 1;
        }
        None
    }

    /// Set the named property, replacing any prior value.
    pub fn insert(&mut self, key: String, value: String)
        requires
            old(self).wf(),
        ensures
            final(self).wf(),
            final(self)@ == old(self)@.insert(key@, value@),
    {
        let n = self.entries.len();
        let mut i: usize = 0;
        while i < n
            invariant
                self.wf(),
                *self == *old(self),
                n == self.entries@.len(),
                forall|j: int| 0 <= j < i ==> (#[trigger] self.entries@[j]).0@ != key@,
            decreases n - i,
        {
            if self.entries[i].0 == key {
                proof {
                    lemma_assoc_view_update(self.entries@, i as int, (key, value));
                }
                self.entries.set(i, (key, value));
                return;
            }
            i = i + 1;
        }
        proof {
            lemma_assoc_view_push(self.entries@, (key, value));
        }
        self.entries.push((key, value));
    }

    /// An independently owned copy describing the same map.
    pub fn duplicate(&self) -> (r: TaskMap)
        ensures
            r@ == self@,
            r.wf() == self.wf(),
    {
        let n = self.entries.len();
        let mut out: Vec<(String, String)> = Vec::new();
        let mut i: usize = 0;
        while i < n
            invariant
                n == self.entries@.len(),
                out@ == self.entries@.subrange(0, i as int),
                i <= n,
            decreases n - i,
        {
            out.push((self.entries[i].0.clone(), self.entries[i].1.clone()));
            proof {
                assert(out@ =~= self.entries@.subrange(0, i + 1 as int));
            }
            i = i + 1;
        }
        proof {
            assert(out@ =~= self.entries@);
        }
        TaskMap { entries: out }
    }

    /// Whether two bags set the same properties to the same values.
    pub fn same_as(&self, other: &TaskMap) -> (r: bool)
        requires
            self.wf(),
            other.wf(),
        ensures
            r == (self@ == other@),
    {
        proof {
            lemma_assoc_view_len(self.entries@);
            lemma_assoc_view_len(other.entries@);
        }
        if self.entries.len() != other.entries.len() {
            proof {
                assert(self@ != other@) by {
                    if self@ == other@ {
                        assert(self@.dom() == other@.dom());
                    }
                };
            }
            return false;
        }
        let n = self.entries.len();
        let mut i: usize = 0;
        while i < n
            invariant
                self.wf(),
                other.wf(),
                n == self.entries@.len(),
                n == other.entries@.len(),
                i <= n,
                forall|j: int| 0 <= j < i ==> other@.contains_key((#[trigger] self.entries@[j]).0@)
                    && other@[self.entries@[j].0@] == self.entries@[j].1@,
            decreases n - i,
        {
            proof {
                lemma_assoc_view_index(self.entries@, i as int);
            }
            match other.get(&self.entries[i].0) {
                Some(v) => {
                    if !(*v == self.entries[i].1) {
                        assert(self@[self.entries@[i as int].0@] != other@[self.entries@[i as int].0@]);
                        return false;
                    }
                },
                None => {
                    assert(self@.contains_key(self.entries@[i as int].0@));
                    return false;
                },
            }
            i = i + 1;
        }
        proof {
            lemma_same_view(self, other);
        }
        true
    }
}

/// Two well-formed bags of equal size, the first's entries all present in the
/// second, describe the same map.
proof fn lemma_same_view(a: &TaskMap, b: &TaskMap)
    requires
        a.wf(),
        b.wf(),
        a.entries@.len() == b.entries@.len(),
        forall|j: int| 0 <= j < a.entries@.len() ==> b@.contains_key((#[trigger] a.entries@[j]).0@)
            && b@[a.entries@[j].0@] == a.entries@[j].1@,
    ensures
        a@ == b@,
{
    lemma_assoc_view_len(a.entries@);
    lemma_assoc_view_len(b.entries@);
    assert forall|k: Seq<char>| a@.contains_key(k) implies b@.contains_key(k) by {
        lemma_assoc_view_contains(a.entries@, k);
        let j = choose|j: int| 0 <= j < a.entries@.len() && (#[trigger] a.entries@[j]).0@ == k;
        assert(b@.contains_key(a.entries@[j].0@));
    };
    assert(a@.dom() =~= b@.dom()) by {
        if exists|k: Seq<char>| b@.dom().contains(k) && !a@.dom().contains(k) {
            let k = choose|k: Seq<char>| b@.dom().contains(k) && !a@.dom().contains(k);
            a@.dom().lemma_subset_not_in_lt(b@.dom(), k);
        }
    };
    assert forall|k: Seq<char>| a@.contains_key(k) implies a@[k] == b@[k] by {
        lemma_assoc_view_contains(a.entries@, k);
        let j = choose|j: int| 0 <= j < a.entries@.len() && (#[trigger] a.entries@[j]).0@ == k;
        lemma_assoc_view_index(a.entries@, j);
    };
    assert(a@ =~= b@);
}

/// Build a property bag by setting each listed pair in order; on a repeated
/// name the later pair wins.
pub fn taskmap_with(properties: Vec<(String, String)>) -> (r: TaskMap)
    ensures
        r.wf(),
        r@ == assoc_view(properties@),
{
    let mut rv = TaskMap::new();
    let n = properties.len();
    let mut i: usize = 0;
    while i < n
        invariant
            rv.wf(),
            n == properties@.len(),
            i <= n,
            rv@ == assoc_view(properties@.subrange(0, i as int)),
        decreases n - i,
    {
        rv.insert(properties[i].0.clone(), properties[i].1.clone());
        proof {
            let sub = properties@.subrange(0, i as int);
            assert(properties@.subrange(0, i + 1 as int).drop_last() =~= sub);
            assert(properties@.subrange(0, i + 1 as int).last() == properties@[i as int]);
        }
        i = i + 1;
    }
    proof {
        assert(properties@.subrange(0, n as int) =~= properties@);
    }
    rv
}

} // verus!
