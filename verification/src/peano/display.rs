//! Terms, statements and formulas as text.

use crate::classical::expression::ClassicalLogicalExpression;
use crate::expression::{DomainExpression, LogicalExpression, Operands};
use crate::rewriting::pattern::{Pattern, PatternTree};
use crate::nodes::HashNode;
use crate::operators::ClassicalOperator;
use crate::peano::syntax::{
    PeanoArithmeticExpression, PeanoArithmeticPattern, PeanoDomainExpression,
    PeanoLogicalExpression, PeanoLogicalNode,
};
use crate::proving::ProofStep;
use crate::text::{decimal, decimal_text};
use crate::truth::BinaryTruth;
use std::rc::Rc;

use vstd::prelude::*;
use vstd::string::StringExecFns;

verus! {

/// A term as text: `a + b`, `S(a)`, the number, `/i`.
pub open spec fn term_text(term: HashNode<PeanoArithmeticExpression>) -> Seq<char>
    decreases term,
{
    match *term.value {
        PeanoArithmeticExpression::Add(left, right) => term_text(left) + " + "@ + term_text(right),
        PeanoArithmeticExpression::Successor(inner) => "S("@ + term_text(inner) + ")"@,
        PeanoArithmeticExpression::Number(n) => decimal_text(n as nat),
        PeanoArithmeticExpression::DeBruijn(index) => "/"@ + decimal_text(index as nat),
    }
}

/// A statement as text: `a = b`.
pub open spec fn statement_text(statement: HashNode<PeanoDomainExpression>) -> Seq<char> {
    match *statement.value {
        PeanoDomainExpression::Equality(left, right) => term_text(left) + " = "@ + term_text(right),
    }
}

/// A formula as text: `(a ∧ b)`, `(¬ a)`, a statement, `true`.
pub open spec fn formula_text(formula: PeanoLogicalNode) -> Seq<char>
    decreases formula,
{
    match *formula.value {
        ClassicalLogicalExpression::And(l, r) => "("@ + formula_text(l) + " "@
            + ClassicalOperator::And.symbol_text() + " "@ + formula_text(r) + ")"@,
        ClassicalLogicalExpression::Or(l, r) => "("@ + formula_text(l) + " "@
            + ClassicalOperator::Or.symbol_text() + " "@ + formula_text(r) + ")"@,
        ClassicalLogicalExpression::Imply(l, r) => "("@ + formula_text(l) + " "@
            + ClassicalOperator::Implies.symbol_text() + " "@ + formula_text(r) + ")"@,
        ClassicalLogicalExpression::Iff(l, r) => "("@ + formula_text(l) + " "@
            + ClassicalOperator::Iff.symbol_text() + " "@ + formula_text(r) + ")"@,
        ClassicalLogicalExpression::Not(x) => "("@ + ClassicalOperator::Not.symbol_text() + " "@
            + formula_text(x) + ")"@,
        ClassicalLogicalExpression::ForAll(x) => "("@ + ClassicalOperator::Forall.symbol_text()
            + " "@ + formula_text(x) + ")"@,
        ClassicalLogicalExpression::Exists(x) => "("@ + ClassicalOperator::Exists.symbol_text()
            + " "@ + formula_text(x) + ")"@,
        ClassicalLogicalExpression::DomainContent(statement) => statement_text(statement),
        ClassicalLogicalExpression::BooleanConstant(truth) => if truth.holds() {
            "true"@
        } else {
            "false"@
        },
    }
}

/// A term as text.
pub fn term_to_string(term: &HashNode<PeanoArithmeticExpression>) -> (text: String)
    ensures
        text@ == term_text(*term),
    decreases term,
{
    match &*term.value {
        PeanoArithmeticExpression::Add(left, right) => term_to_string(left).concat(" + ").concat(
            term_to_string(right).as_str(),
        ),
        PeanoArithmeticExpression::Successor(inner) => "S(".to_owned().concat(
            term_to_string(inner).as_str(),
        ).concat(")"),
        PeanoArithmeticExpression::Number(n) => decimal(*n),
        PeanoArithmeticExpression::DeBruijn(index) => "/".to_owned().concat(
            decimal(*index as u64).as_str(),
        ),
    }
}

/// A statement as text.
pub fn statement_to_string(statement: &HashNode<PeanoDomainExpression>) -> (text: String)
    ensures
        text@ == statement_text(*statement),
{
    match &*statement.value {
        PeanoDomainExpression::Equality(left, right) => term_to_string(left).concat(" = ").concat(
            term_to_string(right).as_str(),
        ),
    }
}

/// `(left op right)`.
fn binary_text(left: String, operator: ClassicalOperator, right: String) -> (text: String)
    ensures
        text@ == "("@ + left@ + " "@ + operator.symbol_text() + " "@ + right@ + ")"@,
{
    "(".to_owned().concat(left.as_str()).concat(" ").concat(operator.symbol()).concat(" ").concat(
        right.as_str(),
    ).concat(")")
}

/// `(op inner)`.
fn unary_text(operator: ClassicalOperator, inner: String) -> (text: String)
    ensures
        text@ == "("@ + operator.symbol_text() + " "@ + inner@ + ")"@,
{
    "(".to_owned().concat(operator.symbol()).concat(" ").concat(inner.as_str()).concat(")")
}

/// A formula as text.
pub fn formula_to_string(formula: &PeanoLogicalNode) -> (text: String)
    ensures
        text@ == formula_text(*formula),
    decreases formula,
{
    match &*formula.value {
        ClassicalLogicalExpression::And(l, r) => binary_text(
            formula_to_string(l),
            ClassicalOperator::And,
            formula_to_string(r),
        ),
        ClassicalLogicalExpression::Or(l, r) => binary_text(
            formula_to_string(l),
            ClassicalOperator::Or,
            formula_to_string(r),
        ),
        ClassicalLogicalExpression::Imply(l, r) => binary_text(
            formula_to_string(l),
            ClassicalOperator::Implies,
            formula_to_string(r),
        ),
        ClassicalLogicalExpression::Iff(l, r) => binary_text(
            formula_to_string(l),
            ClassicalOperator::Iff,
            formula_to_string(r),
        ),
        ClassicalLogicalExpression::Not(x) => unary_text(
            ClassicalOperator::Not,
            formula_to_string(x),
        ),
        ClassicalLogicalExpression::ForAll(x) => unary_text(
            ClassicalOperator::Forall,
            formula_to_string(x),
        ),
        ClassicalLogicalExpression::Exists(x) => unary_text(
            ClassicalOperator::Exists,
            formula_to_string(x),
        ),
        ClassicalLogicalExpression::DomainContent(statement) => statement_to_string(statement),
        ClassicalLogicalExpression::BooleanConstant(truth) => truth.to_string(),
    }
}

/// One step of a proof as text: `before → after [rule]`.
pub fn step_to_string(step: &ProofStep<PeanoLogicalExpression>) -> (text: String)
    ensures
        text@ == formula_text(step.old_expr) + " → "@ + formula_text(step.new_expr) + " ["@
            + step.rule_name@ + "]"@,
{
    formula_to_string(&step.old_expr).concat(" → ").concat(
        formula_to_string(&step.new_expr).as_str(),
    ).concat(" [").concat(step.rule_name.as_str()).concat("]")
}

/// A pattern over terms as text: `/i` for a variable, `_` for a wildcard,
/// the term for a constant, and `(opcode arguments)` for a compound, the
/// arguments with a blank in front of each.
pub open spec fn pattern_text(pattern: PatternTree<PeanoArithmeticExpression>) -> Seq<char>
    decreases pattern, 0nat,
{
    match pattern {
        PatternTree::Variable(index) => "/"@ + decimal_text(index as nat),
        PatternTree::Wildcard => "_"@,
        PatternTree::Constant(value) => term_text(HashNode::of(value)),
        PatternTree::Compound(opcode, args) => "("@ + decimal_text(opcode as nat) + patterns_text(
            args,
            args.len(),
        ) + ")"@,
    }
}

/// The texts of the first `n` patterns of `args`, a blank in front of each.
pub open spec fn patterns_text(args: Seq<PatternTree<PeanoArithmeticExpression>>, n: nat) -> Seq<
    char,
>
    decreases args, n,
{
    if n == 0 || n > args.len() {
        Seq::empty()
    } else {
        patterns_text(args, (n - 1) as nat) + " "@ + pattern_text(args[n - 1])
    }
}

/// A pattern in the general pattern language as text.
pub fn general_pattern_to_string(pattern: &Pattern<PeanoArithmeticExpression>) -> (text: String)
    ensures
        text@ == pattern_text(pattern@),
    decreases pattern,
{
    match pattern {
        Pattern::Variable(index) => "/".to_owned().concat(decimal(*index as u64).as_str()),
        Pattern::Wildcard => "_".to_owned(),
        Pattern::Constant(value) => term_to_string(&HashNode { value: Rc::new(value.clone()) }),
        Pattern::Compound { opcode, args } => {
            let ghost trees = pattern@->Compound_1;
            let mut text = "(".to_owned().concat(decimal(*opcode).as_str());
            let ghost head = text@;
            let mut i: usize = 0;
            proof {
                assert(text@ =~= head + patterns_text(trees, 0));
            }
            while i < args.len()
                invariant
                    i <= args.len(),
                    pattern is Compound,
                    pattern->args == *args,
                    pattern@ == PatternTree::Compound(*opcode, trees),
                    trees.len() == args.len(),
                    head == "("@ + decimal_text(*opcode as nat),
                    text@ == head + patterns_text(trees, i as nat),
                decreases args.len() - i,
            {
                proof {
                    assert(decreases_to!(pattern => pattern->args));
                    assert(decreases_to!(pattern => args[i as int]));
                    assert(trees[i as int] == args[i as int]@);
                }
                let inner = general_pattern_to_string(&args[i]);
                text = text.concat(" ").concat(inner.as_str());
                proof {
                    assert(text@ =~= head + patterns_text(trees, (i + 1) as nat));
                }
                i += 1;
            }
            let closed = text.concat(")");
            proof {
                assert(closed@ =~= pattern_text(pattern@));
            }
            closed
        },
    }
}

/// A pattern over terms as text.
pub fn pattern_to_string(pattern: &PeanoArithmeticPattern) -> (text: String)
    ensures
        text@ == pattern_text(pattern@),
{
    general_pattern_to_string(&pattern.to_pattern())
}

/// A formula over statements of arithmetic, operator over operands.
pub type PeanoFormula = LogicalExpression<BinaryTruth, PeanoDomainExpression, ClassicalOperator>;

/// A formula as text: the statement of an atom, `(op a)` for one operand,
/// `(a op b)` for two, and `(op` with a blank and each operand behind it
/// `)` for any other number.
pub open spec fn logical_text(formula: HashNode<PeanoFormula>) -> Seq<char>
    decreases formula,
{
    match *formula.value {
        LogicalExpression::Atomic(statement) => statement_text(statement),
        LogicalExpression::Compound { operator, operands, .. } => match operands {
            Operands::More(first, rest) => match *rest {
                Operands::End => "("@ + operator.symbol_text() + " "@ + logical_text(first) + ")"@,
                Operands::More(second, others) => match *others {
                    Operands::End => "("@ + logical_text(first) + " "@ + operator.symbol_text()
                        + " "@ + logical_text(second) + ")"@,
                    Operands::More(_, _) => "("@ + operator.symbol_text() + logical_row_text(
                        operands,
                    ) + ")"@,
                },
            },
            Operands::End => "("@ + operator.symbol_text() + ")"@,
        },
    }
}

/// The texts of the formulas of a row, a blank in front of each.
pub open spec fn logical_row_text(operands: Operands<PeanoFormula>) -> Seq<char>
    decreases operands,
{
    match operands {
        Operands::End => Seq::empty(),
        Operands::More(first, rest) => " "@ + logical_text(first) + logical_row_text(*rest),
    }
}

/// The texts of the formulas of a row, a blank in front of each.
fn logical_row_to_string(operands: &Operands<PeanoFormula>) -> (text: String)
    ensures
        text@ == logical_row_text(*operands),
    decreases operands,
{
    match operands {
        Operands::End => String::new(),
        Operands::More(first, rest) => {
            let text = " ".to_owned().concat(logical_to_string(first).as_str()).concat(
                logical_row_to_string(rest).as_str(),
            );
            proof {
                assert(text@ =~= logical_row_text(*operands));
            }
            text
        },
    }
}

/// A formula, operator over operands, as text.
pub fn logical_to_string(formula: &HashNode<PeanoFormula>) -> (text: String)
    ensures
        text@ == logical_text(*formula),
    decreases formula,
{
    match &*formula.value {
        LogicalExpression::Atomic(statement) => statement_to_string(statement),
        LogicalExpression::Compound { operator, operands, .. } => match operands {
            Operands::More(first, rest) => match &**rest {
                Operands::End => unary_text(*operator, logical_to_string(first)),
                Operands::More(second, others) => match &**others {
                    Operands::End => binary_text(
                        logical_to_string(first),
                        *operator,
                        logical_to_string(second),
                    ),
                    Operands::More(_, _) => "(".to_owned().concat(operator.symbol()).concat(
                        logical_row_to_string(operands).as_str(),
                    ).concat(")"),
                },
            },
            Operands::End => "(".to_owned().concat(operator.symbol()).concat(")"),
        },
    }
}

/// An expression of the domain as text: the statement of content, the
/// text of a formula.
pub fn domain_expression_to_string(
    expression: &DomainExpression<BinaryTruth, PeanoDomainExpression>,
) -> (text: String)
    ensures
        text@ == (match *expression {
            DomainExpression::Domain(content) => statement_text(content),
            DomainExpression::Logical(formula) => logical_text(formula),
        }),
{
    match expression {
        DomainExpression::Domain(content) => statement_to_string(content),
        DomainExpression::Logical(formula) => logical_to_string(formula),
    }
}

} // verus!
