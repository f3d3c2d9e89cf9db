//! The quantifiers in front of a formula.

use crate::classical::expression::ClassicalLogicalExpression;
use crate::nodes::{HashNode, HashNodeInner};
use crate::operators::ClassicalOperator;
use crate::peano::syntax::PeanoLogicalNode;
use crate::peano::PeanoStores;
use crate::rewriting::pattern::clipped;
use vstd::prelude::*;

verus! {

/// The formula of a quantifier over a body; `None` for any other operator.
pub open spec fn spec_wrap(operator: ClassicalOperator, body: PeanoLogicalNode) -> Option<
    PeanoLogicalNode,
> {
    match operator {
        ClassicalOperator::Forall => Some(HashNode::of(ClassicalLogicalExpression::ForAll(body))),
        ClassicalOperator::Exists => Some(HashNode::of(ClassicalLogicalExpression::Exists(body))),
        _ => None,
    }
}

/// The number of quantifiers in front of a formula.
pub open spec fn spec_count_outer(expr: PeanoLogicalNode) -> nat
    decreases expr,
{
    match *expr.value {
        ClassicalLogicalExpression::ForAll(body) => 1 + spec_count_outer(body),
        ClassicalLogicalExpression::Exists(body) => 1 + spec_count_outer(body),
        _ => 0,
    }
}

/// The formula behind the quantifiers in front of it.
pub open spec fn spec_body(expr: PeanoLogicalNode) -> PeanoLogicalNode
    decreases expr.spec_size(),
{
    match *expr.value {
        ClassicalLogicalExpression::ForAll(body) => if body.spec_size() < expr.spec_size() {
            spec_body(body)
        } else {
            expr
        },
        ClassicalLogicalExpression::Exists(body) => if body.spec_size() < expr.spec_size() {
            spec_body(body)
        } else {
            expr
        },
        _ => expr,
    }
}

/// The quantifiers in front of a formula, outermost first.
pub open spec fn spec_prefix(expr: PeanoLogicalNode) -> Seq<ClassicalOperator>
    decreases expr,
{
    match *expr.value {
        ClassicalLogicalExpression::ForAll(body) => seq![ClassicalOperator::Forall] + spec_prefix(
            body,
        ),
        ClassicalLogicalExpression::Exists(body) => seq![ClassicalOperator::Exists] + spec_prefix(
            body,
        ),
        _ => Seq::empty(),
    }
}

/// The body under the quantifiers of a list, outermost first; `None` where
/// the list holds an operator that is no quantifier.
pub open spec fn spec_rewrap(body: PeanoLogicalNode, quantifiers: Seq<ClassicalOperator>) -> Option<
    PeanoLogicalNode,
>
    decreases quantifiers.len(),
{
    if quantifiers.len() == 0 {
        Some(body)
    } else {
        match spec_wrap(quantifiers.last(), body) {
            Some(wrapped) => spec_rewrap(wrapped, quantifiers.drop_last()),
            None => None,
        }
    }
}

/// The formula of a quantifier over `body`; `None` for any other operator.
pub fn wrap_in_quantifier(operator: ClassicalOperator, body: PeanoLogicalNode, stores: &mut PeanoStores) -> (wrapped:
    Option<PeanoLogicalNode>)
    ensures
        wrapped == spec_wrap(operator, body),
        PeanoStores::extends(*old(stores), *final(stores)),
{
    proof {
        PeanoStores::lemma_extends(*stores, *stores, *stores);
    }
    match operator {
        ClassicalOperator::Forall => Some(stores.for_all(body)),
        ClassicalOperator::Exists => Some(stores.there_exists(body)),
        _ => None,
    }
}

/// The number of quantifiers in front of a formula, held at `usize::MAX`.
pub fn count_outer_quantifiers(expr: &PeanoLogicalNode) -> (count: usize)
    ensures
        count == clipped(spec_count_outer(*expr)),
    decreases expr,
{
    match &*expr.value {
        ClassicalLogicalExpression::ForAll(body) => count_outer_quantifiers(body).saturating_add(1),
        ClassicalLogicalExpression::Exists(body) => count_outer_quantifiers(body).saturating_add(1),
        _ => 0,
    }
}

/// The formula behind the quantifiers in front of `expr`, and those
/// quantifiers, outermost first.
pub fn strip_quantifiers(expr: &PeanoLogicalNode) -> (parts: (
    Option<PeanoLogicalNode>,
    Vec<ClassicalOperator>,
))
    ensures
        parts.0 == Some(spec_body(*expr)),
        parts.1@ == spec_prefix(*expr),
{
    let mut quantifiers: Vec<ClassicalOperator> = Vec::new();
    let mut current = expr;
    proof {
        assert(Seq::<ClassicalOperator>::empty() + spec_prefix(*expr) =~= spec_prefix(*expr));
    }
    loop
        invariant
            spec_body(*current) == spec_body(*expr),
            quantifiers@ + spec_prefix(*current) == spec_prefix(*expr),
        decreases current.spec_size(),
    {
        let ghost before = quantifiers@;
        match &*current.value {
            ClassicalLogicalExpression::ForAll(body) => {
                quantifiers.push(ClassicalOperator::Forall);
                proof {
                    assert(quantifiers@ + spec_prefix(*body) =~= before + spec_prefix(*current));
                }
                current = body;
            },
            ClassicalLogicalExpression::Exists(body) => {
                quantifiers.push(ClassicalOperator::Exists);
                proof {
                    assert(quantifiers@ + spec_prefix(*body) =~= before + spec_prefix(*current));
                }
                current = body;
            },
            _ => {
                proof {
                    assert(quantifiers@ + Seq::<ClassicalOperator>::empty() =~= quantifiers@);
                }
                return (Some(current.clone()), quantifiers);
            },
        }
    }
}

/// `body` under the quantifiers of `quantifiers`, outermost first; `None`
/// where the list holds an operator that is no quantifier.
pub fn rewrap_with_quantifiers(
    body: PeanoLogicalNode,
    quantifiers: &[ClassicalOperator],
    stores: &mut PeanoStores,
) -> (wrapped: Option<PeanoLogicalNode>)
    ensures
        wrapped == spec_rewrap(body, quantifiers@),
        PeanoStores::extends(*old(stores), *final(stores)),
{
    let ghost start = *stores;
    proof {
        PeanoStores::lemma_extends(start, start, start);
    }
    let mut result = body;
    let mut i: usize = quantifiers.len();
    proof {
        assert(quantifiers@.take(i as int) =~= quantifiers@);
    }
    while i > 0
        invariant
            i <= quantifiers.len(),
            spec_rewrap(result, quantifiers@.take(i as int)) == spec_rewrap(body, quantifiers@),
            PeanoStores::extends(start, *stores),
            start == *old(stores),
        decreases i,
    {
        let ghost before = *stores;
        proof {
            assert(quantifiers@.take(i as int).drop_last() =~= quantifiers@.take(i - 1));
            assert(quantifiers@.take(i as int).last() == quantifiers@[i - 1]);
        }
        match wrap_in_quantifier(quantifiers[i - 1], result, stores) {
            Some(wrapped) => {
                result = wrapped;
            },
            None => {
                proof {
                    PeanoStores::lemma_extends(start, before, *stores);
                }
                return None;
            },
        }
        proof {
            PeanoStores::lemma_extends(start, before, *stores);
        }
        i -= 1;
    }
    proof {
        assert(quantifiers@.take(0) =~= Seq::<ClassicalOperator>::empty());
    }
    Some(result)
}

/// Putting back the quantifiers that were stripped gives the formula back.
pub proof fn lemma_strip_then_rewrap(expr: PeanoLogicalNode)
    ensures
        spec_rewrap(spec_body(expr), spec_prefix(expr)) == Some(expr),
    decreases expr.spec_size(),
{
    match *expr.value {
        ClassicalLogicalExpression::ForAll(body) => {
            lemma_strip_then_rewrap(body);
            lemma_rewrap_under(spec_body(body), spec_prefix(body), ClassicalOperator::Forall);
            assert(HashNode::of(*expr.value) == expr);
        },
        ClassicalLogicalExpression::Exists(body) => {
            lemma_strip_then_rewrap(body);
            lemma_rewrap_under(spec_body(body), spec_prefix(body), ClassicalOperator::Exists);
            assert(HashNode::of(*expr.value) == expr);
        },
        _ => {},
    }
}

/// Rewrapping under one more outermost quantifier wraps what the others give.
pub proof fn lemma_rewrap_under(
    body: PeanoLogicalNode,
    quantifiers: Seq<ClassicalOperator>,
    outermost: ClassicalOperator,
)
    requires
        spec_rewrap(body, quantifiers) is Some,
    ensures
        spec_rewrap(body, seq![outermost] + quantifiers) == spec_wrap(
            outermost,
            spec_rewrap(body, quantifiers).unwrap(),
        ),
    decreases quantifiers.len(),
{
    let longer = seq![outermost] + quantifiers;
    if quantifiers.len() == 0 {
        assert(longer.drop_last() =~= Seq::<ClassicalOperator>::empty());
        assert(longer.last() == outermost);
        match spec_wrap(outermost, body) {
            Some(wrapped) => {
                assert(spec_rewrap(wrapped, Seq::empty()) == Some(wrapped));
            },
            None => {},
        }
    } else {
        assert(longer.drop_last() =~= seq![outermost] + quantifiers.drop_last());
        assert(longer.last() == quantifiers.last());
        let wrapped = spec_wrap(quantifiers.last(), body).unwrap();
        lemma_rewrap_under(wrapped, quantifiers.drop_last(), outermost);
    }
}

/// A list of quantifiers wraps any body.
pub proof fn lemma_rewrap_quantifiers(body: PeanoLogicalNode, quantifiers: Seq<ClassicalOperator>)
    requires
        forall|i: int|
            0 <= i < quantifiers.len() ==> (#[trigger] quantifiers[i]) is Forall || quantifiers[i] is Exists,
    ensures
        spec_rewrap(body, quantifiers) is Some,
    decreases quantifiers.len(),
{
    if quantifiers.len() > 0 {
        assert(quantifiers.last() == quantifiers[quantifiers.len() - 1]);
        let wrapped = spec_wrap(quantifiers.last(), body).unwrap();
        assert forall|i: int| 0 <= i < quantifiers.drop_last().len() implies (
        #[trigger] quantifiers.drop_last()[i]) is Forall || quantifiers.drop_last()[i] is Exists by {
            assert(quantifiers.drop_last()[i] == quantifiers[i]);
        }
        lemma_rewrap_quantifiers(wrapped, quantifiers.drop_last());
    }
}

/// What stands in front of a formula is quantifiers.
pub proof fn lemma_prefix_is_quantifiers(expr: PeanoLogicalNode)
    ensures
        forall|i: int|
            0 <= i < spec_prefix(expr).len() ==> (#[trigger] spec_prefix(expr)[i]) is Forall
                || spec_prefix(expr)[i] is Exists,
    decreases expr,
{
    match *expr.value {
        ClassicalLogicalExpression::ForAll(body) => {
            lemma_prefix_is_quantifiers(body);
            assert forall|i: int| 0 <= i < spec_prefix(expr).len() implies (#[trigger] spec_prefix(
                expr,
            )[i]) is Forall || spec_prefix(expr)[i] is Exists by {
                if i > 0 {
                    assert(spec_prefix(expr)[i] == spec_prefix(body)[i - 1]);
                }
            }
        },
        ClassicalLogicalExpression::Exists(body) => {
            lemma_prefix_is_quantifiers(body);
            assert forall|i: int| 0 <= i < spec_prefix(expr).len() implies (#[trigger] spec_prefix(
                expr,
            )[i]) is Forall || spec_prefix(expr)[i] is Exists by {
                if i > 0 {
                    assert(spec_prefix(expr)[i] == spec_prefix(body)[i - 1]);
                }
            }
        },
        _ => {},
    }
}

/// Applies `f` to the formula behind the quantifiers in front of `expr`
/// and puts the quantifiers back in front of what `f` gives; `None` where
/// `f` gives none.
pub fn apply_under_quantifiers<F: Fn(&PeanoLogicalNode) -> Option<PeanoLogicalNode>>(
    expr: &PeanoLogicalNode,
    stores: &mut PeanoStores,
    f: F,
) -> (result: Option<PeanoLogicalNode>)
    requires
        forall|node: &PeanoLogicalNode| f.requires((node,)),
    ensures
        match result {
            Some(wrapped) => exists|changed: PeanoLogicalNode|
                f.ensures((&spec_body(*expr),), Some(changed)) && #[trigger] spec_rewrap(
                    changed,
                    spec_prefix(*expr),
                ) == Some(wrapped),
            None => f.ensures((&spec_body(*expr),), None),
        },
        PeanoStores::extends(*old(stores), *final(stores)),
{
    proof {
        PeanoStores::lemma_extends(*stores, *stores, *stores);
    }
    let (body, quantifiers) = strip_quantifiers(expr);
    let body = match body {
        Some(found) => found,
        None => {
            return None;
        },
    };
    match f(&body) {
        Some(changed) => {
            proof {
                lemma_prefix_is_quantifiers(*expr);
                lemma_rewrap_quantifiers(changed, spec_prefix(*expr));
            }
            rewrap_with_quantifiers(changed, quantifiers.as_slice(), stores)
        },
        None => None,
    }
}

} // verus!
