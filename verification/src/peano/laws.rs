//! What the rules over terms of arithmetic owe.

use crate::nodes::{HashNode, HashNodeInner};
use crate::peano::syntax::PeanoArithmeticExpression;
use crate::rewriting::laws::lemma_round_trip;
use crate::rewriting::pattern::PatternTree;
use crate::rewriting::patterns::Rewritable;
use crate::rewriting::unifiable::spec_unify;
use crate::rewriting::{spec_apply, RewriteRule};
use vstd::prelude::*;

verus! {

/// A rule over terms in both directions that rewrites `a` forward into
/// `b` rewrites `b` backward into `a`, up to its fingerprint; this for a
/// rule whose pattern has no wildcard and no variable that its replacement
/// lacks.
pub proof fn lemma_both_directions(
    rule: RewriteRule<PeanoArithmeticExpression>,
    a: HashNode<PeanoArithmeticExpression>,
)
    requires
        rule.direction is Both,
        !rule.pattern@.has_wildcard(),
        forall|i: u32| rule.pattern@.mentions(i) ==> rule.replacement@.mentions(i),
        rule.spec_apply(a) is Some,
    ensures
        rule.spec_apply_reverse(rule.spec_apply(a).unwrap()) is Some,
        rule.spec_apply_reverse(rule.spec_apply(a).unwrap()).unwrap().spec_hash() == a.spec_hash(),
{
    crate::rewriting::laws::lemma_both_directions(rule, a);
}

/// Matching a term never changes it, and where a pattern without
/// wildcards matches, applying the bindings gives the term back, up to its
/// fingerprint.
pub proof fn lemma_term_round_trip(
    pattern: PatternTree<PeanoArithmeticExpression>,
    term: HashNode<PeanoArithmeticExpression>,
)
    requires
        !pattern.has_wildcard(),
        spec_unify(pattern, term, Map::empty()) is Ok,
    ensures
        spec_apply(pattern, spec_unify(pattern, term, Map::empty())->Ok_0) is Some,
        spec_apply(pattern, spec_unify(pattern, term, Map::empty())->Ok_0).unwrap().spec_hash()
            == term.spec_hash(),
{
    lemma_round_trip(pattern, term);
}

} // verus!
