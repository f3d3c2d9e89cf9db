//! Substitutions: finite maps from variable indices to expressions.

use crate::nodes::HashNode;
use std::collections::HashMap;
use vstd::prelude::*;
use vstd::std_specs::iter::IteratorSpec;

verus! {

/// A finite map from variable indices to expressions.
#[derive(Debug)]
pub struct Substitution<T> {
    bindings: HashMap<u32, HashNode<T>>,
}

impl<T> View for Substitution<T> {
    type V = Map<u32, HashNode<T>>;

    closed spec fn view(&self) -> Map<u32, HashNode<T>> {
        self.bindings@
    }
}

/// Whether a list holds exactly the bindings of a map: one pair for each
/// bound index, paired with what the index is bound to, and no other pair.
pub open spec fn lists_bindings<T>(pairs: Seq<(u32, HashNode<T>)>, map: Map<u32, HashNode<T>>) -> bool {
    &&& pairs.len() == map.len()
    &&& forall|j: int|
        0 <= j < pairs.len() ==> map.contains_key((#[trigger] pairs[j]).0) && map[pairs[j].0]
            == pairs[j].1
    &&& forall|i: int, j: int| 0 <= i < j < pairs.len() ==> pairs[i].0 != pairs[j].0
    &&& forall|k: u32| #[trigger]
        map.contains_key(k) ==> exists|j: int| 0 <= j < pairs.len() && (#[trigger] pairs[j]).0 == k
}

impl<T> Substitution<T> {
    pub fn new() -> (s: Self)
        ensures
            s@ == Map::<u32, HashNode<T>>::empty(),
    {
        Substitution { bindings: HashMap::new() }
    }

    /// Binds `index` to `term`, overriding what it was bound to.
    pub fn bind(&mut self, index: u32, term: HashNode<T>)
        ensures
            final(self)@ == old(self)@.insert(index, term),
    {
        broadcast use vstd::std_specs::hash::group_hash_axioms;

        self.bindings.insert(index, term);
    }

    pub fn get(&self, index: u32) -> (found: Option<&HashNode<T>>)
        ensures
            found == (if self@.contains_key(index) {
                Some(&self@[index])
            } else {
                None
            }),
    {
        broadcast use vstd::std_specs::hash::group_hash_axioms;

        self.bindings.get(&index)
    }

    pub fn is_empty(&self) -> (b: bool)
        ensures
            b == (self@ == Map::<u32, HashNode<T>>::empty()),
            b == (self@.len() == 0),
    {
        broadcast use vstd::std_specs::hash::group_hash_axioms;

        let b = self.bindings.is_empty();
        proof {
            if self@.len() == 0 {
                assert(self@.dom().finite());
                assert(self@.dom() =~= Set::<u32>::empty()) by {
                    if exists|k: u32| self@.dom().contains(k) {
                        let k = choose|k: u32| self@.dom().contains(k);
                        vstd::set_lib::lemma_set_empty_equivalency_len(self@.dom());
                    }
                    vstd::set_lib::lemma_set_empty_equivalency_len(self@.dom());
                }
                assert(self@ =~= Map::<u32, HashNode<T>>::empty());
            }
        }
        b
    }

    /// The number of indices that are bound.
    pub fn len(&self) -> (n: usize)
        ensures
            n == self@.len(),
    {
        broadcast use vstd::std_specs::hash::group_hash_axioms;

        self.bindings.len()
    }

    pub fn contains(&self, index: u32) -> (b: bool)
        ensures
            b == self@.contains_key(index),
    {
        broadcast use vstd::std_specs::hash::group_hash_axioms;

        self.bindings.contains_key(&index)
    }

    /// The bindings as a list: one pair for each bound index, paired with
    /// what the index is bound to, in no order that is promised.
    pub fn iter(&self) -> (bindings: Vec<(u32, HashNode<T>)>)
        ensures
            lists_bindings(bindings@, self@),
    {
        broadcast use vstd::std_specs::hash::group_hash_axioms;

        let mut out: Vec<(u32, HashNode<T>)> = Vec::new();
        let ghost all = vstd::std_specs::hash::spec_hash_map_iter(&self.bindings).remaining();
        for pair in it: self.bindings.iter()
            invariant
                out@.len() == it.index(),
                it.seq() == all,
                all.no_duplicates(),
                all.len() == self@.len(),
                forall|j: int|
                    0 <= j < all.len() ==> self@.contains_key(*(#[trigger] all[j]).0)
                        && self@[*all[j].0] == *all[j].1,
                forall|k: u32| #[trigger] self@.contains_key(k) ==> all.contains((&k, &self@[k])),
                forall|j: int|
                    0 <= j < out@.len() ==> (#[trigger] out@[j]).0 == *all[j].0 && out@[j].1
                        == *all[j].1,
                forall|i: int, j: int| 0 <= i < j < out@.len() ==> out@[i].0 != out@[j].0,
        {
            let (k, v) = pair;
            out.push((*k, v.clone()));
            proof {
                assert forall|i: int, j: int| 0 <= i < j < out@.len() implies out@[i].0
                    != out@[j].0 by {
                    if out@[i].0 == out@[j].0 {
                        assert(all[i] == all[j]);
                    }
                }
            }
        }
        proof {
            assert(out@.len() == all.len());
            assert forall|k: u32| #[trigger] self@.contains_key(k) implies exists|j: int|
                0 <= j < out@.len() && (#[trigger] out@[j]).0 == k by {
                let wanted = (&k, &self@[k]);
                assert(all.contains(wanted));
                let j = choose|j: int| 0 <= j < all.len() && all[j] == wanted;
                assert(out@[j].0 == k);
            }
        }
        out
    }

    /// This substitution overridden by `other`.
    pub fn compose(&self, other: &Substitution<T>) -> (composed: Substitution<T>)
        ensures
            composed@ == self@.union_prefer_right(other@),
    {
        broadcast use vstd::std_specs::hash::group_hash_axioms;

        let mut result = self.clone();
        let pairs = other.iter();
        let mut i: usize = 0;
        while i < pairs.len()
            invariant
                i <= pairs.len(),
                lists_bindings(pairs@, other@),
                forall|k: u32|
                    result@.contains_key(k) <==> (self@.contains_key(k) || exists|j: int|
                        0 <= j < i && (#[trigger] pairs@[j]).0 == k),
                forall|k: u32|
                    #![trigger result@[k]]
                    result@.contains_key(k) ==> result@[k] == (if exists|j: int|
                        0 <= j < i && (#[trigger] pairs@[j]).0 == k {
                        other@[k]
                    } else {
                        self@[k]
                    }),
            decreases pairs.len() - i,
        {
            let ghost before = result@;
            let key = pairs[i].0;
            result.bind(key, pairs[i].1.clone());
            proof {
                assert(result@ == before.insert(key, pairs@[i as int].1));
                assert forall|k: u32|
                    result@.contains_key(k) <==> (self@.contains_key(k) || exists|j: int|
                        0 <= j < i + 1 && (#[trigger] pairs@[j]).0 == k) by {
                    if k == key {
                        assert(pairs@[i as int].0 == k);
                    } else {
                        if exists|j: int| 0 <= j < i + 1 && (#[trigger] pairs@[j]).0 == k {
                            let j = choose|j: int| 0 <= j < i + 1 && (#[trigger] pairs@[j]).0 == k;
                            assert(j < i);
                            assert(pairs@[j].0 == k);
                        }
                    }
                }
                assert forall|k: u32|
                    #![trigger result@[k]]
                    result@.contains_key(k) implies result@[k] == (if exists|j: int|
                        0 <= j < i + 1 && (#[trigger] pairs@[j]).0 == k {
                        other@[k]
                    } else {
                        self@[k]
                    }) by {
                    if k == key {
                        assert(pairs@[i as int].0 == k);
                    } else {
                        if exists|j: int| 0 <= j < i + 1 && (#[trigger] pairs@[j]).0 == k {
                            let j = choose|j: int| 0 <= j < i + 1 && (#[trigger] pairs@[j]).0 == k;
                            assert(j < i);
                            assert(pairs@[j].0 == k);
                        } else {
                            assert(!exists|j: int| 0 <= j < i && (#[trigger] pairs@[j]).0 == k) by {
                                if exists|j: int| 0 <= j < i && (#[trigger] pairs@[j]).0 == k {
                                    let j = choose|j: int| 0 <= j < i && (#[trigger] pairs@[j]).0 == k;
                                    assert(0 <= j < i + 1 && pairs@[j].0 == k);
                                }
                            }
                        }
                    }
                }
            }
            i += 1;
        }
        proof {
            let wanted = self@.union_prefer_right(other@);
            assert forall|k: u32| result@.contains_key(k) <==> wanted.contains_key(k) by {
                if other@.contains_key(k) {
                    let j = choose|j: int| 0 <= j < pairs@.len() && (#[trigger] pairs@[j]).0 == k;
                    assert(pairs@[j].0 == k);
                }
                if exists|j: int| 0 <= j < i && (#[trigger] pairs@[j]).0 == k {
                    let j = choose|j: int| 0 <= j < i && (#[trigger] pairs@[j]).0 == k;
                    assert(other@.contains_key(pairs@[j].0));
                }
            }
            assert forall|k: u32| result@.contains_key(k) implies result@[k] == wanted[k] by {
                if other@.contains_key(k) {
                    let j = choose|j: int| 0 <= j < pairs@.len() && (#[trigger] pairs@[j]).0 == k;
                    assert(pairs@[j].0 == k);
                } else {
                    if exists|j: int| 0 <= j < i && (#[trigger] pairs@[j]).0 == k {
                        let j = choose|j: int| 0 <= j < i && (#[trigger] pairs@[j]).0 == k;
                        assert(other@.contains_key(pairs@[j].0));
                    }
                }
            }
            assert(result@ =~= wanted);
        }
        result
    }

    pub fn apply_to_var(&self, var_idx: u32) -> (found: Option<&HashNode<T>>)
        ensures
            found == (if self@.contains_key(var_idx) {
                Some(&self@[var_idx])
            } else {
                None
            }),
    {
        self.get(var_idx)
    }
}

impl<T> Default for Substitution<T> {
    fn default() -> (s: Self)
        ensures
            s@ == Map::<u32, HashNode<T>>::empty(),
    {
        Self::new()
    }
}

impl<T> Clone for Substitution<T> {
    fn clone(&self) -> (copy: Self)
        ensures
            copy@ == self@,
    {
        broadcast use vstd::std_specs::hash::group_hash_axioms;

        let pairs = self.iter();
        let mut copy: HashMap<u32, HashNode<T>> = HashMap::new();
        let mut i: usize = 0;
        while i < pairs.len()
            invariant
                i <= pairs.len(),
                lists_bindings(pairs@, self@),
                forall|k: u32|
                    copy@.contains_key(k) <==> exists|j: int|
                        0 <= j < i && (#[trigger] pairs@[j]).0 == k,
                forall|k: u32| #[trigger] copy@.contains_key(k) ==> copy@[k] == self@[k],
            decreases pairs.len() - i,
        {
            let ghost before = copy@;
            let key = pairs[i].0;
            copy.insert(key, pairs[i].1.clone());
            proof {
                assert(copy@ == before.insert(key, pairs@[i as int].1));
                assert forall|k: u32|
                    copy@.contains_key(k) <==> exists|j: int|
                        0 <= j < i + 1 && (#[trigger] pairs@[j]).0 == k by {
                    if k == key {
                        assert(pairs@[i as int].0 == k);
                    } else if exists|j: int| 0 <= j < i + 1 && (#[trigger] pairs@[j]).0 == k {
                        let j = choose|j: int| 0 <= j < i + 1 && (#[trigger] pairs@[j]).0 == k;
                        assert(j < i);
                        assert(pairs@[j].0 == k);
                    } else if before.contains_key(k) {
                        let j = choose|j: int| 0 <= j < i && (#[trigger] pairs@[j]).0 == k;
                        assert(0 <= j < i + 1 && pairs@[j].0 == k);
                    }
                }
            }
            i += 1;
        }
        proof {
            assert forall|k: u32| copy@.contains_key(k) <==> self@.contains_key(k) by {
                if self@.contains_key(k) {
                    let j = choose|j: int| 0 <= j < pairs@.len() && (#[trigger] pairs@[j]).0 == k;
                    assert(pairs@[j].0 == k);
                }
                if copy@.contains_key(k) {
                    let j = choose|j: int| 0 <= j < i && (#[trigger] pairs@[j]).0 == k;
                    assert(self@.contains_key(pairs@[j].0));
                }
            }
            assert(copy@ =~= self@);
        }
        Substitution { bindings: copy }
    }
}

} // verus!
