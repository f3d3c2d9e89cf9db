//! Goal checks of Peano arithmetic.

use crate::axioms::NamedAxiom;
use crate::classical::expression::ClassicalLogicalExpression;
use crate::classical::goal::{spec_first_verdict, AxiomGoalChecker};
use crate::peano::axioms::{is_peano_axioms, peano_arithmetic_axioms_with_goals};
use crate::peano::PeanoStores;
use crate::nodes::{HashNode, HashNodeInner};
use crate::peano::syntax::{
    PeanoArithmeticExpression, PeanoDomainExpression, PeanoLogicalExpression, PeanoLogicalNode,
};
use crate::proving::GoalChecker;
use crate::truth::BinaryTruth;
use vstd::prelude::*;

verus! {

/// Whether `right` is the successor of what has the fingerprint of `left`.
pub open spec fn spec_successor_of(
    left: HashNode<PeanoArithmeticExpression>,
    right: HashNode<PeanoArithmeticExpression>,
) -> bool {
    match *right.value {
        PeanoArithmeticExpression::Successor(inner) => inner.spec_hash() == left.spec_hash(),
        _ => false,
    }
}

/// Whether `left = right` says that a number is its own successor.
pub fn is_successor_contradiction(
    left: &HashNode<PeanoArithmeticExpression>,
    right: &HashNode<PeanoArithmeticExpression>,
) -> (b: bool)
    ensures
        b == spec_successor_of(*left, *right),
{
    match &*right.value {
        PeanoArithmeticExpression::Successor(inner) => inner.hash() == left.hash(),
        _ => false,
    }
}

/// The verdict on an equality: false where one side is the successor of
/// the other, else true where both sides are the same, else none.
pub open spec fn spec_equality_verdict(statement: PeanoDomainExpression) -> Option<BinaryTruth> {
    match statement {
        PeanoDomainExpression::Equality(left, right) => {
            if spec_successor_of(left, right) || spec_successor_of(right, left) {
                Some(BinaryTruth::False)
            } else if left.spec_hash() == right.spec_hash() {
                Some(BinaryTruth::True)
            } else {
                None
            }
        },
    }
}

/// True for an equality of two sides that are the same.
pub fn check_reflexive_equality(expr: &HashNode<PeanoDomainExpression>) -> (verdict: Option<
    BinaryTruth,
>)
    ensures
        verdict == match *expr.value {
            PeanoDomainExpression::Equality(left, right) => if left.spec_hash()
                == right.spec_hash() {
                Some(BinaryTruth::True)
            } else {
                None
            },
        },
{
    let PeanoDomainExpression::Equality(left, right) = &*expr.value;
    if left.hash() == right.hash() {
        return Some(BinaryTruth::True);
    }
    None
}

/// False for an equality one side of which is the successor of the other.
pub fn check_contradiction(expr: &HashNode<PeanoDomainExpression>) -> (verdict: Option<BinaryTruth>)
    ensures
        verdict == match *expr.value {
            PeanoDomainExpression::Equality(left, right) => if spec_successor_of(left, right)
                || spec_successor_of(right, left) {
                Some(BinaryTruth::False)
            } else {
                None
            },
        },
{
    let PeanoDomainExpression::Equality(left, right) = &*expr.value;
    if is_successor_contradiction(left, right) || is_successor_contradiction(right, left) {
        return Some(BinaryTruth::False);
    }
    None
}

/// The two sides of a formula that is an equality.
pub open spec fn spec_equality_operands(formula: PeanoLogicalNode) -> Option<
    (HashNode<PeanoArithmeticExpression>, HashNode<PeanoArithmeticExpression>),
> {
    match *formula.value {
        ClassicalLogicalExpression::DomainContent(statement) => match *statement.value {
            PeanoDomainExpression::Equality(left, right) => Some((left, right)),
        },
        _ => None,
    }
}

/// The two sides of a formula that is an equality; an error for any other formula.
pub fn extract_equality_operands(proposition: &PeanoLogicalNode) -> (sides: Result<
    (HashNode<PeanoArithmeticExpression>, HashNode<PeanoArithmeticExpression>),
    String,
>)
    ensures
        match sides {
            Ok(pair) => spec_equality_operands(*proposition) == Some(pair),
            Err(message) => spec_equality_operands(*proposition) is None && message@
                == "Theorem must be an equality (EQ ...)."@,
        },
{
    match &*proposition.value {
        ClassicalLogicalExpression::DomainContent(statement) => match &*statement.value {
            PeanoDomainExpression::Equality(left, right) => Ok((left.clone(), right.clone())),
        },
        _ => Err("Theorem must be an equality (EQ ...).".to_owned()),
    }
}

/// The goal check on equalities by their shape.
pub struct AxiomPatternChecker;

impl AxiomPatternChecker {
    pub fn new() -> (checker: Self) {
        Self
    }
}

impl Default for AxiomPatternChecker {
    fn default() -> (checker: Self) {
        Self::new()
    }
}

impl GoalChecker<PeanoDomainExpression> for AxiomPatternChecker {
    open spec fn spec_check(&self, expr: HashNode<PeanoDomainExpression>) -> Option<BinaryTruth> {
        spec_equality_verdict(*expr.value)
    }

    fn check(&self, expr: &HashNode<PeanoDomainExpression>) -> (verdict: Option<BinaryTruth>) {
        if let Some(result) = check_contradiction(expr) {
            return Some(result);
        }
        check_reflexive_equality(expr)
    }
}

/// The verdict on a statement of the domain: true where both sides are the
/// same, else false where one side is the successor of the other, else none.
pub fn check_atomic_goal(domain: &HashNode<PeanoDomainExpression>) -> (verdict: Option<BinaryTruth>)
    ensures
        verdict == spec_atomic_verdict(*domain.value),
{
    let PeanoDomainExpression::Equality(left, right) = &*domain.value;
    if left.hash() == right.hash() {
        return Some(BinaryTruth::True);
    }
    if is_successor_contradiction(left, right) || is_successor_contradiction(right, left) {
        return Some(BinaryTruth::False);
    }
    None
}

/// The verdict on a statement of the domain.
pub open spec fn spec_atomic_verdict(statement: PeanoDomainExpression) -> Option<BinaryTruth> {
    match statement {
        PeanoDomainExpression::Equality(left, right) => {
            if left.spec_hash() == right.spec_hash() {
                Some(BinaryTruth::True)
            } else if spec_successor_of(left, right) || spec_successor_of(right, left) {
                Some(BinaryTruth::False)
            } else {
                None
            }
        },
    }
}

/// The verdict on a formula by its shape: a quantifier has the verdict of
/// its body; a conjunction is true where both operands are; an implication
/// has the verdict of its consequent; a biconditional has the verdict that
/// both operands share; a statement has its own verdict.
pub open spec fn spec_shape_verdict(expr: PeanoLogicalExpression) -> Option<BinaryTruth>
    decreases expr,
{
    match expr {
        ClassicalLogicalExpression::ForAll(body) => spec_shape_verdict(*body.value),
        ClassicalLogicalExpression::Exists(body) => spec_shape_verdict(*body.value),
        ClassicalLogicalExpression::And(left, right) => match (
            spec_shape_verdict(*left.value),
            spec_shape_verdict(*right.value),
        ) {
            (Some(BinaryTruth::True), Some(BinaryTruth::True)) => Some(BinaryTruth::True),
            _ => None,
        },
        ClassicalLogicalExpression::Imply(_, right) => spec_shape_verdict(*right.value),
        ClassicalLogicalExpression::Iff(left, right) => match (
            spec_shape_verdict(*left.value),
            spec_shape_verdict(*right.value),
        ) {
            (Some(a), Some(b)) => if a == b {
                Some(a)
            } else {
                None
            },
            _ => None,
        },
        ClassicalLogicalExpression::DomainContent(statement) => spec_atomic_verdict(
            *statement.value,
        ),
        _ => None,
    }
}

/// The goal check on formulas by their shape.
pub struct QuantifiedGoalChecker;

impl QuantifiedGoalChecker {
    pub fn new() -> (checker: Self) {
        Self
    }

    /// The verdict on a formula by its shape.
    pub fn check_expression(expr: &PeanoLogicalExpression) -> (verdict: Option<BinaryTruth>)
        ensures
            verdict == spec_shape_verdict(*expr),
        decreases expr,
    {
        match expr {
            ClassicalLogicalExpression::ForAll(body) => Self::check_expression(&body.value),
            ClassicalLogicalExpression::Exists(body) => Self::check_expression(&body.value),
            ClassicalLogicalExpression::And(left, right) => {
                let a = Self::check_expression(&left.value);
                let b = Self::check_expression(&right.value);
                match (a, b) {
                    (Some(BinaryTruth::True), Some(BinaryTruth::True)) => Some(BinaryTruth::True),
                    _ => None,
                }
            },
            ClassicalLogicalExpression::Imply(_, right) => Self::check_expression(&right.value),
            ClassicalLogicalExpression::Iff(left, right) => {
                let a = Self::check_expression(&left.value);
                let b = Self::check_expression(&right.value);
                match (a, b) {
                    (Some(x), Some(y)) => if x == y {
                        Some(x)
                    } else {
                        None
                    },
                    _ => None,
                }
            },
            ClassicalLogicalExpression::DomainContent(statement) => check_atomic_goal(statement),
            _ => None,
        }
    }
}

impl Default for QuantifiedGoalChecker {
    fn default() -> (checker: Self) {
        Self::new()
    }
}

impl GoalChecker<PeanoLogicalExpression> for QuantifiedGoalChecker {
    open spec fn spec_check(&self, expr: PeanoLogicalNode) -> Option<BinaryTruth> {
        spec_shape_verdict(*expr.value)
    }

    fn check(&self, expr: &PeanoLogicalNode) -> (verdict: Option<BinaryTruth>) {
        Self::check_expression(&expr.value)
    }
}

/// The goal check of Peano arithmetic against its axioms.
pub struct PeanoGoalChecker {
    pub inner: AxiomGoalChecker<PeanoDomainExpression>,
}

impl PeanoGoalChecker {
    /// The checker against all axioms of Peano arithmetic.
    pub fn new() -> (checker: Self)
        ensures
            is_peano_axioms(checker.inner@),
    {
        let mut stores = PeanoStores::new();
        let axioms = peano_arithmetic_axioms_with_goals(&mut stores);
        Self { inner: AxiomGoalChecker::new(axioms) }
    }

    /// The checker against the given axioms.
    pub fn with_axioms(axioms: Vec<NamedAxiom<PeanoDomainExpression>>) -> (checker: Self)
        ensures
            checker.inner@ == axioms@,
    {
        Self { inner: AxiomGoalChecker::new(axioms) }
    }
}

impl GoalChecker<PeanoLogicalExpression> for PeanoGoalChecker {
    open spec fn spec_check(&self, expr: PeanoLogicalNode) -> Option<BinaryTruth> {
        spec_first_verdict(expr, self.inner@, 0)
    }

    fn check(&self, expr: &PeanoLogicalNode) -> (verdict: Option<BinaryTruth>) {
        self.inner.check(expr)
    }
}

} // verus!
