//! Goal checking against axioms: a formula that is an axiom is true, and
//! the negation of an axiom is false.

use crate::axioms::NamedAxiom;
use crate::classical::expression::ClassicalLogicalExpression;
use crate::nodes::{HashNode, HashNodeInner};
use crate::operators::ClassicalOperator;
use crate::proving::GoalChecker;
use crate::truth::BinaryTruth;
use vstd::prelude::*;

verus! {

/// Whether an operator is a quantifier.
pub fn is_quantifier(op: &ClassicalOperator) -> (b: bool)
    ensures
        b == (*op is Forall || *op is Exists),
{
    matches!(op, ClassicalOperator::Forall | ClassicalOperator::Exists)
}

/// Whether two formulas are the same formula: whether their fingerprints agree.
pub fn expressions_match<D: HashNodeInner>(
    a: &HashNode<ClassicalLogicalExpression<D>>,
    b: &HashNode<ClassicalLogicalExpression<D>>,
) -> (same: bool)
    ensures
        same == (a.spec_hash() == b.spec_hash()),
{
    a.hash() == b.hash()
}

/// What a negation negates.
pub open spec fn spec_negated<D>(expr: ClassicalLogicalExpression<D>) -> Option<
    HashNode<ClassicalLogicalExpression<D>>,
> {
    match expr {
        ClassicalLogicalExpression::Not(inner) => Some(inner),
        _ => None,
    }
}

/// The body of a negation; `None` for any other formula.
pub fn extract_negation<D>(expr: &HashNode<ClassicalLogicalExpression<D>>) -> (inner: Option<
    HashNode<ClassicalLogicalExpression<D>>,
>)
    ensures
        inner == spec_negated(*expr.value),
{
    match &*expr.value {
        ClassicalLogicalExpression::Not(inner) => Some(inner.clone()),
        _ => None,
    }
}

/// What an axiom says once its outermost quantifier is set aside.
pub open spec fn spec_statement<D>(formula: HashNode<ClassicalLogicalExpression<D>>) -> HashNode<
    ClassicalLogicalExpression<D>,
> {
    match *formula.value {
        ClassicalLogicalExpression::ForAll(body) => body,
        ClassicalLogicalExpression::Exists(body) => body,
        _ => formula,
    }
}

/// The verdict of one axiom on a theorem: true where the theorem is what
/// the axiom says, false where it is the negation of that, else none.
pub open spec fn spec_axiom_verdict<D: HashNodeInner>(
    theorem: HashNode<ClassicalLogicalExpression<D>>,
    formula: HashNode<ClassicalLogicalExpression<D>>,
) -> Option<BinaryTruth> {
    let statement = spec_statement(formula);
    if theorem.spec_hash() == statement.spec_hash() {
        Some(BinaryTruth::True)
    } else {
        match spec_negated(*theorem.value) {
            Some(inner) => if inner.spec_hash() == statement.spec_hash() {
                Some(BinaryTruth::False)
            } else {
                None
            },
            None => None,
        }
    }
}

/// The verdict of one axiom on a theorem.
pub fn check_axiom_match<D: HashNodeInner>(
    theorem: &HashNode<ClassicalLogicalExpression<D>>,
    named: &NamedAxiom<D>,
) -> (verdict: Option<BinaryTruth>)
    ensures
        verdict == spec_axiom_verdict(*theorem, named.expression),
{
    let statement = match &*named.expression.value {
        ClassicalLogicalExpression::ForAll(body) => body,
        ClassicalLogicalExpression::Exists(body) => body,
        _ => &named.expression,
    };
    if expressions_match(theorem, statement) {
        return Some(BinaryTruth::True);
    }
    if let Some(negated) = extract_negation(theorem) {
        if expressions_match(&negated, statement) {
            return Some(BinaryTruth::False);
        }
    }
    None
}

/// The verdict of the first axiom, from `from` on, that has one.
pub open spec fn spec_first_verdict<D: HashNodeInner>(
    theorem: HashNode<ClassicalLogicalExpression<D>>,
    axioms: Seq<NamedAxiom<D>>,
    from: int,
) -> Option<BinaryTruth>
    decreases axioms.len() - from,
{
    if from < 0 || from >= axioms.len() {
        None
    } else {
        match spec_axiom_verdict(theorem, axioms[from].expression) {
            Some(verdict) => Some(verdict),
            None => spec_first_verdict(theorem, axioms, from + 1),
        }
    }
}

/// A goal checker that holds a theorem against a list of axioms.
pub struct AxiomGoalChecker<D> {
    axioms: Vec<NamedAxiom<D>>,
}

impl<D> View for AxiomGoalChecker<D> {
    type V = Seq<NamedAxiom<D>>;

    closed spec fn view(&self) -> Seq<NamedAxiom<D>> {
        self.axioms@
    }
}

impl<D: HashNodeInner> AxiomGoalChecker<D> {
    pub fn new(axioms: Vec<NamedAxiom<D>>) -> (checker: Self)
        ensures
            checker@ == axioms@,
    {
        Self { axioms }
    }

    pub fn axioms(&self) -> (axioms: &[NamedAxiom<D>])
        ensures
            axioms@ == self@,
    {
        self.axioms.as_slice()
    }
}

impl<D: HashNodeInner> GoalChecker<ClassicalLogicalExpression<D>> for AxiomGoalChecker<D> {
    open spec fn spec_check(&self, expr: HashNode<ClassicalLogicalExpression<D>>) -> Option<
        BinaryTruth,
    > {
        spec_first_verdict(expr, self@, 0)
    }

    fn check(&self, expr: &HashNode<ClassicalLogicalExpression<D>>) -> (verdict: Option<
        BinaryTruth,
    >) {
        let mut i: usize = 0;
        while i < self.axioms.len()
            invariant
                i <= self.axioms.len(),
                spec_first_verdict(*expr, self@, 0) == spec_first_verdict(*expr, self@, i as int),
            decreases self.axioms.len() - i,
        {
            if let Some(verdict) = check_axiom_match(expr, &self.axioms[i]) {
                return Some(verdict);
            }
            i += 1;
        }
        None
    }
}

} // verus!
