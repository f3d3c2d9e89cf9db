//! Named quantifier scopes.

use crate::expression::{LogicalExpression, Operands};
use crate::logic::{same_text, LogicalOperator};
use crate::nodes::{HashNode, HashNodeInner};
use crate::text::{decimal, decimal_text, join};
use crate::truth::TruthValue;
use vstd::prelude::*;

verus! {

/// A quantifier.
#[derive(Debug, Clone, Copy, PartialEq, Eq, Structural)]
pub enum QuantifierOperator {
    Forall,
    Exists,
}

/// One open quantifier: what it is, which variable it binds, and how many
/// quantifiers are open around it.
#[derive(Debug)]
pub struct QuantifierInfo {
    pub operator: QuantifierOperator,
    pub variable: String,
    pub depth: usize,
}

/// An open quantifier as a mathematical value.
pub struct ScopeModel {
    pub operator: QuantifierOperator,
    pub variable: Seq<char>,
    pub depth: nat,
}

impl View for QuantifierInfo {
    type V = ScopeModel;

    open spec fn view(&self) -> ScopeModel {
        ScopeModel { operator: self.operator, variable: self.variable@, depth: self.depth as nat }
    }
}

/// The quantifiers that are open at a place in a formula, outermost first.
#[derive(Debug)]
pub struct ProofContext {
    quantifier_stack: Vec<QuantifierInfo>,
}

impl View for ProofContext {
    type V = Seq<ScopeModel>;

    closed spec fn view(&self) -> Seq<ScopeModel> {
        Seq::new(self.quantifier_stack@.len(), |i: int| self.quantifier_stack@[i]@)
    }
}

impl ProofContext {
    /// Whether some open quantifier meets `wanted`.
    pub open spec fn some_scope(&self, wanted: spec_fn(ScopeModel) -> bool) -> bool {
        exists|i: int| 0 <= i < self@.len() && wanted(#[trigger] self@[i])
    }

    pub fn new() -> (context: Self)
        ensures
            context@ == Seq::<ScopeModel>::empty(),
    {
        let context = Self { quantifier_stack: Vec::new() };
        proof {
            assert(context@ =~= Seq::empty());
        }
        context
    }

    /// Enters the scope of a quantifier over `variable`.
    pub fn push_quantifier(&mut self, operator: QuantifierOperator, variable: &str)
        ensures
            final(self)@ == old(self)@.push(
                ScopeModel { operator, variable: variable@, depth: old(self)@.len() },
            ),
    {
        let depth = self.quantifier_stack.len();
        self.quantifier_stack.push(QuantifierInfo { operator, variable: variable.to_owned(), depth });
        proof {
            assert(self@ =~= old(self)@.push(
                ScopeModel { operator, variable: variable@, depth: old(self)@.len() },
            ));
        }
    }

    /// Leaves the innermost scope.
    pub fn pop_quantifier(&mut self) -> (left: Option<QuantifierInfo>)
        ensures
            old(self)@.len() == 0 ==> left is None && final(self)@ == old(self)@,
            old(self)@.len() > 0 ==> left is Some && left.unwrap()@ == old(self)@.last() && final(self)@ == old(self)@.drop_last(),
    {
        let left = self.quantifier_stack.pop();
        proof {
            if old(self)@.len() > 0 {
                assert(self@ =~= old(self)@.drop_last());
            } else {
                assert(self@ =~= old(self)@);
            }
        }
        left
    }

    pub fn depth(&self) -> (n: usize)
        ensures
            n == self@.len(),
    {
        self.quantifier_stack.len()
    }

    /// Whether an open quantifier binds `variable`.
    pub fn is_bound(&self, variable: &str) -> (b: bool)
        ensures
            b == self.some_scope(|scope: ScopeModel| scope.variable == variable@),
    {
        let mut i: usize = 0;
        while i < self.quantifier_stack.len()
            invariant
                i <= self.quantifier_stack.len(),
                forall|k: int| 0 <= k < i ==> (#[trigger] self@[k]).variable != variable@,
            decreases self.quantifier_stack.len() - i,
        {
            if same_text(self.quantifier_stack[i].variable.as_str(), variable) {
                proof {
                    assert(self@[i as int].variable == variable@);
                }
                return true;
            }
            i += 1;
        }
        false
    }

    /// The variables of the open quantifiers, outermost first.
    pub fn bound_variables(&self) -> (names: Vec<&str>)
        ensures
            names@.len() == self@.len(),
            forall|i: int| 0 <= i < names@.len() ==> (#[trigger] names@[i])@ == self@[i].variable,
    {
        let mut names: Vec<&str> = Vec::new();
        let mut i: usize = 0;
        while i < self.quantifier_stack.len()
            invariant
                i <= self.quantifier_stack.len(),
                names@.len() == i,
                forall|k: int| 0 <= k < i ==> (#[trigger] names@[k])@ == self@[k].variable,
            decreases self.quantifier_stack.len() - i,
        {
            names.push(self.quantifier_stack[i].variable.as_str());
            i += 1;
        }
        names
    }

    pub fn in_exists_scope(&self) -> (b: bool)
        ensures
            b == self.some_scope(|scope: ScopeModel| scope.operator == QuantifierOperator::Exists),
    {
        let mut i: usize = 0;
        while i < self.quantifier_stack.len()
            invariant
                i <= self.quantifier_stack.len(),
                forall|k: int|
                    0 <= k < i ==> (#[trigger] self@[k]).operator != QuantifierOperator::Exists,
            decreases self.quantifier_stack.len() - i,
        {
            if self.quantifier_stack[i].operator == QuantifierOperator::Exists {
                proof {
                    assert(self@[i as int].operator == QuantifierOperator::Exists);
                }
                return true;
            }
            i += 1;
        }
        false
    }

    pub fn in_forall_scope(&self) -> (b: bool)
        ensures
            b == self.some_scope(|scope: ScopeModel| scope.operator == QuantifierOperator::Forall),
    {
        let mut i: usize = 0;
        while i < self.quantifier_stack.len()
            invariant
                i <= self.quantifier_stack.len(),
                forall|k: int|
                    0 <= k < i ==> (#[trigger] self@[k]).operator != QuantifierOperator::Forall,
            decreases self.quantifier_stack.len() - i,
        {
            if self.quantifier_stack[i].operator == QuantifierOperator::Forall {
                proof {
                    assert(self@[i as int].operator == QuantifierOperator::Forall);
                }
                return true;
            }
            i += 1;
        }
        false
    }

    fn bound_by(&self, variable: &str, operator: QuantifierOperator) -> (b: bool)
        ensures
            b == self.some_scope(
                |scope: ScopeModel| scope.variable == variable@ && scope.operator == operator,
            ),
    {
        let mut i: usize = 0;
        while i < self.quantifier_stack.len()
            invariant
                i <= self.quantifier_stack.len(),
                forall|k: int|
                    0 <= k < i ==> !((#[trigger] self@[k]).variable == variable@ && self@[k].operator
                        == operator),
            decreases self.quantifier_stack.len() - i,
        {
            if self.quantifier_stack[i].operator == operator && same_text(
                self.quantifier_stack[i].variable.as_str(),
                variable,
            ) {
                proof {
                    assert(self@[i as int].variable == variable@ && self@[i as int].operator
                        == operator);
                }
                return true;
            }
            i += 1;
        }
        false
    }

    /// Whether an open existential quantifier binds `variable`.
    pub fn is_existentially_bound(&self, variable: &str) -> (b: bool)
        ensures
            b == self.some_scope(
                |scope: ScopeModel|
                    scope.variable == variable@ && scope.operator == QuantifierOperator::Exists,
            ),
    {
        self.bound_by(variable, QuantifierOperator::Exists)
    }

    /// Whether an open universal quantifier binds `variable`.
    pub fn is_universally_bound(&self, variable: &str) -> (b: bool)
        ensures
            b == self.some_scope(
                |scope: ScopeModel|
                    scope.variable == variable@ && scope.operator == QuantifierOperator::Forall,
            ),
    {
        self.bound_by(variable, QuantifierOperator::Forall)
    }
}

impl Default for ProofContext {
    fn default() -> (context: Self)
        ensures
            context@ == Seq::<ScopeModel>::empty(),
    {
        Self::new()
    }
}

/// The quantifier that a symbol writes.
pub open spec fn quantifier_of(symbol: Seq<char>) -> Option<QuantifierOperator> {
    if symbol == "∀"@ {
        Some(QuantifierOperator::Forall)
    } else if symbol == "∃"@ {
        Some(QuantifierOperator::Exists)
    } else {
        None
    }
}

/// The name of the variable that a formula stands for: `var_` and the
/// fingerprint of its content for an atom, none for a compound.
pub open spec fn variable_name<T, D: HashNodeInner, Op>(
    formula: HashNode<LogicalExpression<T, D, Op>>,
) -> Option<Seq<char>> {
    match *formula.value {
        LogicalExpression::Atomic(content) => Some(
            "var_"@ + decimal_text(content.spec_hash() as nat),
        ),
        LogicalExpression::Compound { .. } => None,
    }
}

/// The scopes after the walk through a formula that starts with the scopes
/// `stack`: a quantifier whose first operand is an atom opens a scope over
/// the variable of that atom, the operands are walked first to last, and a
/// quantifier closes the innermost scope behind its operands.
pub open spec fn spec_walk<T: TruthValue, D: HashNodeInner, Op: LogicalOperator<T>>(
    formula: HashNode<LogicalExpression<T, D, Op>>,
    stack: Seq<ScopeModel>,
) -> Seq<ScopeModel>
    decreases formula,
{
    match *formula.value {
        LogicalExpression::Atomic(_) => stack,
        LogicalExpression::Compound { operator, operands, .. } => {
            let quantifier = quantifier_of(operator.spec_symbol());
            let entered = match (quantifier, operands) {
                (Some(q), Operands::More(first, _)) => match variable_name(first) {
                    Some(name) => stack.push(
                        ScopeModel { operator: q, variable: name, depth: stack.len() },
                    ),
                    None => stack,
                },
                _ => stack,
            };
            let walked = spec_walk_all(operands, entered);
            if quantifier is Some && walked.len() > 0 {
                walked.drop_last()
            } else {
                walked
            }
        },
    }
}

/// The scopes after the walk through the formulas of a row, first to last.
pub open spec fn spec_walk_all<T: TruthValue, D: HashNodeInner, Op: LogicalOperator<T>>(
    operands: Operands<LogicalExpression<T, D, Op>>,
    stack: Seq<ScopeModel>,
) -> Seq<ScopeModel>
    decreases operands,
{
    match operands {
        Operands::End => stack,
        Operands::More(first, rest) => spec_walk_all(*rest, spec_walk(first, stack)),
    }
}

/// The name of the variable that a formula stands for.
pub fn extract_variable_name<T, D: HashNodeInner, Op>(
    formula: &HashNode<LogicalExpression<T, D, Op>>,
) -> (name: Option<String>)
    ensures
        match name {
            Some(text) => variable_name(*formula) == Some(text@),
            None => variable_name(*formula) is None,
        },
{
    match &*formula.value {
        LogicalExpression::Atomic(content) => Some(join("var_", decimal(content.hash()).as_str())),
        LogicalExpression::Compound { .. } => None,
    }
}

/// Walks through the formulas of a row, first to last.
fn extract_context_of_row<T: TruthValue, D: HashNodeInner, Op: LogicalOperator<T>>(
    operands: &Operands<LogicalExpression<T, D, Op>>,
    context: &mut ProofContext,
)
    ensures
        final(context)@ == spec_walk_all(*operands, old(context)@),
    decreases operands,
{
    match operands {
        Operands::End => {},
        Operands::More(first, rest) => {
            extract_context_recursive(first, context);
            extract_context_of_row(rest, context);
        },
    }
}

/// Walks through a formula, opening and closing the scopes of its quantifiers.
pub fn extract_context_recursive<T: TruthValue, D: HashNodeInner, Op: LogicalOperator<T>>(
    formula: &HashNode<LogicalExpression<T, D, Op>>,
    context: &mut ProofContext,
)
    ensures
        final(context)@ == spec_walk(*formula, old(context)@),
    decreases formula,
{
    match &*formula.value {
        LogicalExpression::Atomic(_) => {},
        LogicalExpression::Compound { operator, operands, .. } => {
            let symbol = operator.symbol();
            let is_forall = same_text(symbol, "∀");
            let is_exists = same_text(symbol, "∃");
            if is_forall || is_exists {
                if let Operands::More(first, _) = operands {
                    if let Some(var_name) = extract_variable_name(first) {
                        let quantifier_op = if is_forall {
                            QuantifierOperator::Forall
                        } else {
                            QuantifierOperator::Exists
                        };
                        context.push_quantifier(quantifier_op, var_name.as_str());
                    }
                }
            }
            extract_context_of_row(operands, context);
            if is_forall || is_exists {
                let _ = context.pop_quantifier();
            }
        },
    }
}

/// Formulas that the scopes of quantifiers can be read from.
pub trait ProofContextExtractor {
    /// The scopes that are open behind the walk through the formula.
    spec fn spec_context(&self) -> Seq<ScopeModel>;

    fn extract_context(&self) -> (context: ProofContext)
        ensures
            context@ == self.spec_context(),
    ;
}

impl<T: TruthValue, D: HashNodeInner, Op: LogicalOperator<T>> ProofContextExtractor for HashNode<
    LogicalExpression<T, D, Op>,
> {
    open spec fn spec_context(&self) -> Seq<ScopeModel> {
        spec_walk(*self, Seq::empty())
    }

    fn extract_context(&self) -> (context: ProofContext) {
        let mut context = ProofContext::new();
        extract_context_recursive(self, &mut context);
        context
    }
}

} // verus!
