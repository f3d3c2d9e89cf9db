//! Quantifier scopes and the goal check of classical logic.

use crate::classical::expression::ClassicalLogicalExpression;
use crate::nodes::{HashNode, HashNodeInner};
use crate::proving::GoalChecker;
use crate::truth::BinaryTruth;
use vstd::prelude::*;

verus! {

/// A quantifier of a scope.
#[derive(Debug, Clone, Copy, PartialEq, Eq, Structural)]
pub enum QuantifierOperator {
    Forall,
    Exists,
}

/// The quantifiers that are open at a place in a formula, outermost first.
#[derive(Debug)]
pub struct ProofContext {
    quantifier_stack: Vec<QuantifierOperator>,
}

impl View for ProofContext {
    type V = Seq<QuantifierOperator>;

    closed spec fn view(&self) -> Seq<QuantifierOperator> {
        self.quantifier_stack@
    }
}

impl ProofContext {
    /// The quantifier that binds index `index`: index 0 is the innermost.
    pub open spec fn binder(&self, index: u8) -> Option<QuantifierOperator> {
        if (index as int) < self@.len() {
            Some(self@[self@.len() - 1 - index as int])
        } else {
            None
        }
    }

    pub fn new() -> (context: Self)
        ensures
            context@ == Seq::<QuantifierOperator>::empty(),
    {
        Self { quantifier_stack: Vec::new() }
    }

    /// Enters the scope of a quantifier.
    pub fn push_quantifier(&mut self, operator: QuantifierOperator)
        ensures
            final(self)@ == old(self)@.push(operator),
    {
        self.quantifier_stack.push(operator);
    }

    /// Leaves the innermost scope.
    pub fn pop_quantifier(&mut self) -> (left: Option<QuantifierOperator>)
        ensures
            old(self)@.len() == 0 ==> left is None && final(self)@ == old(self)@,
            old(self)@.len() > 0 ==> left == Some(old(self)@.last()) && final(self)@ == old(self)@.drop_last(),
    {
        self.quantifier_stack.pop()
    }

    pub fn depth(&self) -> (n: usize)
        ensures
            n == self@.len(),
    {
        self.quantifier_stack.len()
    }

    /// The quantifier that binds index `index`, if one does.
    pub fn get(&self, index: u8) -> (found: Option<&QuantifierOperator>)
        ensures
            match found {
                Some(q) => self.binder(index) == Some(*q),
                None => self.binder(index) is None,
            },
    {
        let n = self.quantifier_stack.len();
        if (index as usize) < n {
            Some(&self.quantifier_stack[n - 1 - (index as usize)])
        } else {
            None
        }
    }

    pub fn in_exists_scope(&self) -> (b: bool)
        ensures
            b == self@.contains(QuantifierOperator::Exists),
    {
        self.holds(QuantifierOperator::Exists)
    }

    pub fn in_forall_scope(&self) -> (b: bool)
        ensures
            b == self@.contains(QuantifierOperator::Forall),
    {
        self.holds(QuantifierOperator::Forall)
    }

    fn holds(&self, wanted: QuantifierOperator) -> (b: bool)
        ensures
            b == self@.contains(wanted),
    {
        let mut i: usize = 0;
        while i < self.quantifier_stack.len()
            invariant
                i <= self.quantifier_stack.len(),
                forall|k: int| 0 <= k < i ==> self@[k] != wanted,
            decreases self.quantifier_stack.len() - i,
        {
            if self.quantifier_stack[i] == wanted {
                return true;
            }
            i += 1;
        }
        false
    }

    pub fn is_existentially_bound(&self, variable: u8) -> (b: bool)
        ensures
            b == (self.binder(variable) == Some(QuantifierOperator::Exists)),
    {
        match self.get(variable) {
            Some(q) => *q == QuantifierOperator::Exists,
            None => false,
        }
    }

    pub fn is_universally_bound(&self, variable: u8) -> (b: bool)
        ensures
            b == (self.binder(variable) == Some(QuantifierOperator::Forall)),
    {
        match self.get(variable) {
            Some(q) => *q == QuantifierOperator::Forall,
            None => false,
        }
    }
}

impl Default for ProofContext {
    fn default() -> (context: Self)
        ensures
            context@ == Seq::<QuantifierOperator>::empty(),
    {
        Self::new()
    }
}

/// The truth value that a formula shows on its face: a truth constant shows
/// itself, a universal formula shows what its body shows, any other formula
/// shows nothing.
pub open spec fn face_value<D>(expr: ClassicalLogicalExpression<D>) -> Option<BinaryTruth>
    decreases expr,
{
    match expr {
        ClassicalLogicalExpression::BooleanConstant(truth) => Some(truth),
        ClassicalLogicalExpression::ForAll(body) => face_value(*body.value),
        _ => None,
    }
}

/// The goal check is a function of the formula: on equal formulas it gives
/// equal verdicts, and it gives a verdict only on a truth constant under
/// universal quantifiers.
pub proof fn lemma_goal_check_deterministic<D>(
    first: ClassicalLogicalExpression<D>,
    second: ClassicalLogicalExpression<D>,
)
    requires
        first == second,
    ensures
        face_value(first) == face_value(second),
        face_value(first) is Some ==> first is BooleanConstant || first is ForAll,
{
}

/// The goal checker of classical logic: things which are true are true, and
/// things which are false are false.
pub struct ClassicalTruthChecker;

impl ClassicalTruthChecker {
    pub fn new() -> (checker: Self) {
        Self
    }

    /// The truth value that a formula shows on its face.
    pub fn check_expression<D>(expr: &ClassicalLogicalExpression<D>) -> (verdict: Option<
        BinaryTruth,
    >)
        ensures
            verdict == face_value(*expr),
        decreases expr,
    {
        match expr {
            ClassicalLogicalExpression::BooleanConstant(truth) => Some(*truth),
            ClassicalLogicalExpression::ForAll(inner) => Self::check_expression(&inner.value),
            _ => None,
        }
    }
}

impl<D: HashNodeInner> GoalChecker<ClassicalLogicalExpression<D>> for ClassicalTruthChecker {
    open spec fn spec_check(&self, expr: HashNode<ClassicalLogicalExpression<D>>) -> Option<
        BinaryTruth,
    > {
        face_value(*expr.value)
    }

    fn check(&self, expr: &HashNode<ClassicalLogicalExpression<D>>) -> (verdict: Option<
        BinaryTruth,
    >) {
        Self::check_expression(&expr.value)
    }
}

} // verus!
