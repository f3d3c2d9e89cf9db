//! Applying rules to terms of arithmetic.

use crate::nodes::{HashNode, NodeStorage};
use crate::peano::syntax::PeanoArithmeticExpression;
use crate::rewriting::pattern::Pattern;
use crate::rewriting::substitution::Substitution;
use crate::rewriting::{apply_substitution_to_pattern, spec_apply, RewriteRule};
use vstd::prelude::*;

verus! {

/// Applies a rule forward at the root of a term.
pub fn apply_rule(
    rule: &RewriteRule<PeanoArithmeticExpression>,
    term: &HashNode<PeanoArithmeticExpression>,
    store: &mut NodeStorage<PeanoArithmeticExpression>,
) -> (rewritten: Option<HashNode<PeanoArithmeticExpression>>)
    ensures
        rewritten == rule.spec_apply(*term),
        NodeStorage::<PeanoArithmeticExpression>::extends(old(store)@, final(store)@),
{
    rule.apply(term, store)
}

/// Applies a rule backward at the root of a term.
pub fn apply_rule_reverse(
    rule: &RewriteRule<PeanoArithmeticExpression>,
    term: &HashNode<PeanoArithmeticExpression>,
    store: &mut NodeStorage<PeanoArithmeticExpression>,
) -> (rewritten: Option<HashNode<PeanoArithmeticExpression>>)
    ensures
        rewritten == rule.spec_apply_reverse(*term),
        NodeStorage::<PeanoArithmeticExpression>::extends(old(store)@, final(store)@),
{
    rule.apply_reverse(term, store)
}

/// Applies bindings to a pattern over terms and interns what it builds.
pub fn apply_substitution(
    pattern: &Pattern<PeanoArithmeticExpression>,
    subst: &Substitution<PeanoArithmeticExpression>,
    store: &mut NodeStorage<PeanoArithmeticExpression>,
) -> (built: Option<HashNode<PeanoArithmeticExpression>>)
    ensures
        built == spec_apply(pattern@, subst@),
        NodeStorage::<PeanoArithmeticExpression>::extends(old(store)@, final(store)@),
{
    apply_substitution_to_pattern(pattern, subst, store)
}

} // verus!
