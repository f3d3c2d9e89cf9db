//! What matching and applying owe each other.

use crate::nodes::{HashNode, HashNodeInner};
use crate::rewriting::pattern::PatternTree;
use crate::rewriting::unifiable::{spec_unify, spec_unify_all};
use crate::rewriting::patterns::Rewritable;
use crate::rewriting::{spec_apply, spec_apply_all, spec_rewrite_root, RewriteRule};
use vstd::prelude::*;

verus! {

/// `larger` binds every index that `smaller` binds, to the same expression.
pub open spec fn agrees<T>(smaller: Map<u32, HashNode<T>>, larger: Map<u32, HashNode<T>>) -> bool {
    forall|k: u32| #[trigger]
        smaller.contains_key(k) ==> larger.contains_key(k) && larger[k] == smaller[k]
}

/// `larger` binds every index that `smaller` binds, to an expression of the
/// same fingerprint.
pub open spec fn compatible<T: HashNodeInner>(
    smaller: Map<u32, HashNode<T>>,
    larger: Map<u32, HashNode<T>>,
) -> bool {
    forall|k: u32| #[trigger]
        smaller.contains_key(k) ==> larger.contains_key(k) && larger[k].spec_hash()
            == smaller[k].spec_hash()
}

/// Matching only adds bindings.
pub proof fn lemma_unify_extends<T: HashNodeInner>(
    pattern: PatternTree<T>,
    term: HashNode<T>,
    subst: Map<u32, HashNode<T>>,
)
    requires
        spec_unify(pattern, term, subst) is Ok,
    ensures
        agrees(subst, spec_unify(pattern, term, subst)->Ok_0),
    decreases pattern, 0nat,
{
    match pattern {
        PatternTree::Compound(opcode, args) => {
            let children = term.value.spec_decompose().unwrap().1;
            lemma_unify_all_extends(args, children, args.len(), subst);
        },
        _ => {},
    }
}

/// Matching a row of patterns only adds bindings.
pub proof fn lemma_unify_all_extends<T: HashNodeInner>(
    args: Seq<PatternTree<T>>,
    children: Seq<HashNode<T>>,
    n: nat,
    subst: Map<u32, HashNode<T>>,
)
    requires
        n <= args.len(),
        n <= children.len(),
        spec_unify_all(args, children, n, subst) is Ok,
    ensures
        agrees(subst, spec_unify_all(args, children, n, subst)->Ok_0),
    decreases args, n,
{
    if n > 0 {
        let before = spec_unify_all(args, children, (n - 1) as nat, subst);
        lemma_unify_all_extends(args, children, (n - 1) as nat, subst);
        lemma_unify_extends(args[n - 1], children[n - 1], before->Ok_0);
    }
}

/// A row of patterns that applies gives one expression for each pattern.
pub proof fn lemma_apply_all_len<T: HashNodeInner>(
    args: Seq<PatternTree<T>>,
    n: nat,
    subst: Map<u32, HashNode<T>>,
)
    requires
        n <= args.len(),
        spec_apply_all(args, n, subst) is Some,
    ensures
        spec_apply_all(args, n, subst).unwrap().len() == n,
        forall|k: int|
            0 <= k < n ==> spec_apply(#[trigger] args[k], subst) == Some(
                spec_apply_all(args, n, subst).unwrap()[k],
            ),
        forall|m: nat|
            m <= n ==> #[trigger] spec_apply_all(args, m, subst) is Some && spec_apply_all(
                args,
                m,
                subst,
            ).unwrap() == spec_apply_all(args, n, subst).unwrap().take(m as int),
    decreases n,
{
    if n > 0 {
        lemma_apply_all_len(args, (n - 1) as nat, subst);
        let whole = spec_apply_all(args, n, subst).unwrap();
        let before = spec_apply_all(args, (n - 1) as nat, subst).unwrap();
        assert forall|m: nat| m <= n implies #[trigger] spec_apply_all(args, m, subst) is Some
            && spec_apply_all(args, m, subst).unwrap() == whole.take(m as int) by {
            if m < n {
                assert(before.take(m as int) =~= whole.take(m as int));
            } else {
                assert(whole.take(n as int) =~= whole);
            }
        }
    } else {
        assert(spec_apply_all(args, 0, subst).unwrap().take(0) =~= spec_apply_all(
            args,
            0,
            subst,
        ).unwrap());
    }
}

/// Matching a pattern without wildcards and applying it under the bindings
/// that came out, or under any that agree with them, gives an expression
/// with the fingerprint of the one that was matched.
pub proof fn lemma_match_then_apply<T: HashNodeInner>(
    pattern: PatternTree<T>,
    term: HashNode<T>,
    subst: Map<u32, HashNode<T>>,
    later: Map<u32, HashNode<T>>,
)
    requires
        !pattern.has_wildcard(),
        spec_unify(pattern, term, subst) is Ok,
        agrees(spec_unify(pattern, term, subst)->Ok_0, later),
    ensures
        spec_apply(pattern, later) is Some,
        spec_apply(pattern, later).unwrap().spec_hash() == term.spec_hash(),
    decreases pattern, 0nat,
{
    let bound = spec_unify(pattern, term, subst)->Ok_0;
    match pattern {
        PatternTree::Variable(index) => {
            assert(bound.contains_key(index));
        },
        PatternTree::Wildcard => {},
        PatternTree::Constant(value) => {},
        PatternTree::Compound(opcode, args) => {
            let children = term.value.spec_decompose().unwrap().1;
            assert forall|k: int| 0 <= k < args.len() implies !(#[trigger] args[k]).has_wildcard() by {
            }
            lemma_match_then_apply_all(args, children, args.len(), subst, later);
            let built = spec_apply_all(args, args.len(), later).unwrap();
            term.value.lemma_decompose_construct();
            T::lemma_construct_congruent(opcode, built, children);
        },
    }
}

/// `lemma_match_then_apply` for a row of patterns.
pub proof fn lemma_match_then_apply_all<T: HashNodeInner>(
    args: Seq<PatternTree<T>>,
    children: Seq<HashNode<T>>,
    n: nat,
    subst: Map<u32, HashNode<T>>,
    later: Map<u32, HashNode<T>>,
)
    requires
        n <= args.len(),
        n <= children.len(),
        forall|k: int| 0 <= k < args.len() ==> !(#[trigger] args[k]).has_wildcard(),
        spec_unify_all(args, children, n, subst) is Ok,
        agrees(spec_unify_all(args, children, n, subst)->Ok_0, later),
    ensures
        spec_apply_all(args, n, later) is Some,
        spec_apply_all(args, n, later).unwrap().len() == n,
        forall|k: int|
            0 <= k < n ==> (#[trigger] spec_apply_all(args, n, later).unwrap()[k]).spec_hash()
                == children[k].spec_hash(),
    decreases args, n,
{
    if n > 0 {
        let before = spec_unify_all(args, children, (n - 1) as nat, subst)->Ok_0;
        let bound = spec_unify_all(args, children, n, subst)->Ok_0;
        lemma_unify_extends(args[n - 1], children[n - 1], before);
        assert(agrees(before, later)) by {
            assert forall|k: u32| #[trigger] before.contains_key(k) implies later.contains_key(k)
                && later[k] == before[k] by {
                assert(bound.contains_key(k));
            }
        }
        lemma_match_then_apply_all(args, children, (n - 1) as nat, subst, later);
        lemma_match_then_apply(args[n - 1], children[n - 1], before, later);
        let built = spec_apply_all(args, n, later).unwrap();
        let shorter = spec_apply_all(args, (n - 1) as nat, later).unwrap();
        assert forall|k: int| 0 <= k < n implies (#[trigger] built[k]).spec_hash()
            == children[k].spec_hash() by {
            if k < n - 1 {
                assert(built[k] == shorter[k]);
            }
        }
    }
}

/// What was applied matches: the pattern matches what it gave, under
/// bindings that are compatible with those it was applied under, and the
/// match binds every variable of the pattern compatibly.
pub proof fn lemma_apply_then_match<T: HashNodeInner>(
    pattern: PatternTree<T>,
    applied: Map<u32, HashNode<T>>,
    start: Map<u32, HashNode<T>>,
)
    requires
        spec_apply(pattern, applied) is Some,
        compatible(start, applied),
    ensures
        spec_unify(pattern, spec_apply(pattern, applied).unwrap(), start) is Ok,
        compatible(spec_unify(pattern, spec_apply(pattern, applied).unwrap(), start)->Ok_0, applied),
        agrees(start, spec_unify(pattern, spec_apply(pattern, applied).unwrap(), start)->Ok_0),
        forall|i: u32|
            pattern.mentions(i) ==> (#[trigger] spec_unify(
                pattern,
                spec_apply(pattern, applied).unwrap(),
                start,
            )->Ok_0.contains_key(i)),
    decreases pattern, 0nat,
{
    let built = spec_apply(pattern, applied).unwrap();
    match pattern {
        PatternTree::Variable(index) => {
            if start.contains_key(index) {
            } else {
                let bound = start.insert(index, built);
                assert forall|k: u32| #[trigger] bound.contains_key(k) implies applied.contains_key(
                    k,
                ) && applied[k].spec_hash() == bound[k].spec_hash() by {
                    if k != index {
                        assert(start.contains_key(k));
                    }
                }
            }
        },
        PatternTree::Wildcard => {},
        PatternTree::Constant(value) => {},
        PatternTree::Compound(opcode, args) => {
            let children = spec_apply_all(args, args.len(), applied).unwrap();
            lemma_apply_all_len(args, args.len(), applied);
            T::lemma_construct_decompose(opcode, children);
            lemma_apply_then_match_all(args, args.len(), applied, children, start);
            let bound = spec_unify_all(args, children, args.len(), start)->Ok_0;
            assert forall|i: u32| pattern.mentions(i) implies bound.contains_key(i) by {
                let k = choose|k: int| 0 <= k < args.len() && (#[trigger] args[k]).mentions(i);
                assert(args[k].mentions(i));
            }
        },
    }
}

/// `lemma_apply_then_match` for a row of patterns.
pub proof fn lemma_apply_then_match_all<T: HashNodeInner>(
    args: Seq<PatternTree<T>>,
    n: nat,
    applied: Map<u32, HashNode<T>>,
    children: Seq<HashNode<T>>,
    start: Map<u32, HashNode<T>>,
)
    requires
        n <= args.len(),
        n <= children.len(),
        forall|k: int| 0 <= k < n ==> spec_apply(#[trigger] args[k], applied) == Some(children[k]),
        compatible(start, applied),
    ensures
        spec_unify_all(args, children, n, start) is Ok,
        compatible(spec_unify_all(args, children, n, start)->Ok_0, applied),
        agrees(start, spec_unify_all(args, children, n, start)->Ok_0),
        forall|k: int, i: u32|
            0 <= k < n && (#[trigger] args[k]).mentions(i) ==> (#[trigger] spec_unify_all(
                args,
                children,
                n,
                start,
            )->Ok_0.contains_key(i)),
    decreases args, n,
{
    if n > 0 {
        lemma_apply_then_match_all(args, (n - 1) as nat, applied, children, start);
        let before = spec_unify_all(args, children, (n - 1) as nat, start)->Ok_0;
        assert(spec_apply(args[n - 1], applied) == Some(children[n - 1]));
        lemma_apply_then_match(args[n - 1], applied, before);
        let bound = spec_unify_all(args, children, n, start)->Ok_0;
        assert(bound == spec_unify(args[n - 1], children[n - 1], before)->Ok_0);
        assert forall|k: u32| #[trigger] start.contains_key(k) implies bound.contains_key(k)
            && bound[k] == start[k] by {
            assert(before.contains_key(k));
        }
        assert forall|k: int, i: u32| 0 <= k < n && (#[trigger] args[k]).mentions(i) implies (
        #[trigger] bound.contains_key(i)) by {
            if k < n - 1 {
                assert(before.contains_key(i));
            }
        }
    }
}

/// Applying a pattern under bindings that give its variables expressions
/// of the same fingerprints gives an expression of the same fingerprint.
pub proof fn lemma_apply_congruent<T: HashNodeInner>(
    pattern: PatternTree<T>,
    first: Map<u32, HashNode<T>>,
    second: Map<u32, HashNode<T>>,
)
    requires
        spec_apply(pattern, first) is Some,
        forall|i: u32|
            pattern.mentions(i) ==> #[trigger] second.contains_key(i) && second[i].spec_hash()
                == first[i].spec_hash(),
    ensures
        spec_apply(pattern, second) is Some,
        spec_apply(pattern, second).unwrap().spec_hash() == spec_apply(
            pattern,
            first,
        ).unwrap().spec_hash(),
    decreases pattern, 0nat,
{
    match pattern {
        PatternTree::Variable(index) => {
            assert(pattern.mentions(index));
            assert(second.contains_key(index));
        },
        PatternTree::Wildcard => {},
        PatternTree::Constant(value) => {},
        PatternTree::Compound(opcode, args) => {
            lemma_apply_all_len(args, args.len(), first);
            assert forall|k: int, i: u32| 0 <= k < args.len() && (#[trigger] args[k]).mentions(
                i,
            ) implies #[trigger] second.contains_key(i) && second[i].spec_hash()
                == first[i].spec_hash() by {
                assert(pattern.mentions(i));
            }
            lemma_apply_all_congruent(args, args.len(), first, second);
            let left = spec_apply_all(args, args.len(), first).unwrap();
            let right = spec_apply_all(args, args.len(), second).unwrap();
            T::lemma_construct_congruent(opcode, left, right);
        },
    }
}

/// `lemma_apply_congruent` for a row of patterns.
pub proof fn lemma_apply_all_congruent<T: HashNodeInner>(
    args: Seq<PatternTree<T>>,
    n: nat,
    first: Map<u32, HashNode<T>>,
    second: Map<u32, HashNode<T>>,
)
    requires
        n <= args.len(),
        spec_apply_all(args, n, first) is Some,
        forall|k: int, i: u32|
            0 <= k < args.len() && (#[trigger] args[k]).mentions(i) ==> #[trigger] second.contains_key(
                i,
            ) && second[i].spec_hash() == first[i].spec_hash(),
    ensures
        spec_apply_all(args, n, second) is Some,
        spec_apply_all(args, n, second).unwrap().len() == n,
        spec_apply_all(args, n, first).unwrap().len() == n,
        forall|k: int|
            0 <= k < n ==> (#[trigger] spec_apply_all(args, n, second).unwrap()[k]).spec_hash()
                == spec_apply_all(args, n, first).unwrap()[k].spec_hash(),
    decreases args, n,
{
    if n > 0 {
        lemma_apply_all_congruent(args, (n - 1) as nat, first, second);
        assert forall|i: u32| args[n - 1].mentions(i) implies #[trigger] second.contains_key(i)
            && second[i].spec_hash() == first[i].spec_hash() by {
        }
        lemma_apply_congruent(args[n - 1], first, second);
        let left = spec_apply_all(args, n, first).unwrap();
        let left_before = spec_apply_all(args, (n - 1) as nat, first).unwrap();
        let right = spec_apply_all(args, n, second).unwrap();
        let right_before = spec_apply_all(args, (n - 1) as nat, second).unwrap();
        assert forall|k: int| 0 <= k < n implies (#[trigger] right[k]).spec_hash()
            == left[k].spec_hash() by {
            if k < n - 1 {
                assert(right[k] == right_before[k]);
                assert(left[k] == left_before[k]);
            }
        }
    }
}

/// Round trip: where a pattern without wildcards matches an expression,
/// applying the bindings of the match to the pattern gives the expression
/// back, up to its fingerprint.
pub proof fn lemma_round_trip<T: HashNodeInner>(pattern: PatternTree<T>, term: HashNode<T>)
    requires
        !pattern.has_wildcard(),
        spec_unify(pattern, term, Map::empty()) is Ok,
    ensures
        spec_apply(pattern, spec_unify(pattern, term, Map::empty())->Ok_0) is Some,
        spec_apply(pattern, spec_unify(pattern, term, Map::empty())->Ok_0).unwrap().spec_hash()
            == term.spec_hash(),
{
    let bound = spec_unify(pattern, term, Map::<u32, HashNode<T>>::empty())->Ok_0;
    lemma_match_then_apply(pattern, term, Map::empty(), bound);
}

/// A pair of patterns that rewrites `a` into `b` rewrites `b` back into `a`,
/// up to its fingerprint, when read the other way round; this for a first
/// pattern without wildcards all of whose variables occur in the second.
pub proof fn lemma_rewrite_back<T: HashNodeInner>(
    from: PatternTree<T>,
    to: PatternTree<T>,
    a: HashNode<T>,
)
    requires
        !from.has_wildcard(),
        forall|i: u32| from.mentions(i) ==> to.mentions(i),
        spec_rewrite_root(a, from, to) is Some,
    ensures
        spec_rewrite_root(spec_rewrite_root(a, from, to).unwrap(), to, from) is Some,
        spec_rewrite_root(spec_rewrite_root(a, from, to).unwrap(), to, from).unwrap().spec_hash()
            == a.spec_hash(),
{
    let empty = Map::<u32, HashNode<T>>::empty();
    let forward = spec_unify(from, a, empty)->Ok_0;
    let b = spec_apply(to, forward).unwrap();
    lemma_apply_then_match(to, forward, empty);
    let backward = spec_unify(to, b, empty)->Ok_0;
    lemma_round_trip(from, a);
    assert forall|i: u32| from.mentions(i) implies #[trigger] backward.contains_key(i)
        && backward[i].spec_hash() == forward[i].spec_hash() by {
        assert(to.mentions(i));
    }
    lemma_apply_congruent(from, forward, backward);
}

/// A rule in both directions that rewrites `a` forward into `b` rewrites
/// `b` backward into `a`, up to its fingerprint; this for a rule whose
/// pattern has no wildcard and no variable that its replacement lacks, and
/// whose pair of patterns is read backward.
pub proof fn lemma_both_directions<T: Rewritable>(rule: RewriteRule<T>, a: HashNode<T>)
    requires
        rule.direction is Both,
        !T::pattern_has_wildcard(rule.pattern@),
        forall|i: u32|
            T::pattern_mentions(rule.pattern@, i) ==> T::pattern_mentions(rule.replacement@, i),
        T::reads_backward(rule.pattern@, rule.replacement@),
        rule.spec_apply(a) is Some,
    ensures
        rule.spec_apply_reverse(rule.spec_apply(a).unwrap()) is Some,
        rule.spec_apply_reverse(rule.spec_apply(a).unwrap()).unwrap().spec_hash() == a.spec_hash(),
{
    a.value.lemma_rewrite_back(rule.pattern@, rule.replacement@);
}

} // verus!
