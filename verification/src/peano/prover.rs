//! The prover over Peano arithmetic.

use crate::axioms::{compile_all, compiled_from, formulas_of, names_of};
use crate::classical::proving::{face_value, ClassicalTruthChecker};
use crate::peano::axioms::{
    additive_identity, additive_successor, peano_arithmetic_axioms_with_goals, reflexivity,
    successor_injectivity, successor_never_self, symmetry,
};
use crate::nodes::HashNode;
use crate::opcodes::{OPCODE_ADD, OPCODE_SUCCESSOR};
use crate::peano::axioms::{compound1, compound2};
use crate::peano::goal::{spec_equality_verdict, AxiomPatternChecker};
use crate::peano::syntax::{
    PeanoArithmeticExpression, PeanoArithmeticPattern, PeanoDomainExpression, PeanoDomainPattern,
    PeanoDomainPatternTree, PeanoLogicalExpression, PeanoLogicalNode, PeanoStorage,
};
use crate::rewriting::pattern::PatternTree;
use crate::peano::PeanoStores;
use crate::proving::{derivation, spec_prove, ProofResult, Prover, SizeCostEstimator};
use crate::rewriting::{RewriteDirection, RewriteRule};
use vstd::prelude::*;

verus! {

/// The prover over formulas of Peano arithmetic, with the reference
/// estimator and the goal check of classical logic.
pub type PeanoLogicalProver = Prover<
    PeanoLogicalExpression,
    SizeCostEstimator,
    ClassicalTruthChecker,
>;

/// The formulas of the axioms of Peano arithmetic, in their order.
pub open spec fn peano_formulas() -> Seq<PeanoLogicalNode> {
    seq![
        successor_injectivity(),
        additive_identity(),
        additive_successor(),
        reflexivity(),
        symmetry(),
        successor_never_self(),
    ]
}

/// The names of the axioms of Peano arithmetic, in their order.
pub open spec fn peano_names() -> Seq<Seq<char>> {
    seq![
        "axiom2_successor_injectivity"@,
        "axiom3_additive_identity"@,
        "axiom4_additive_successor"@,
        "axiom_reflexivity"@,
        "axiom_symmetry"@,
        "axiom_successor_injectivity"@,
    ]
}

/// The rules of the axioms of Peano arithmetic.
pub fn peano_logical_rules(stores: &mut PeanoStores) -> (rules: Vec<
    RewriteRule<PeanoLogicalExpression>,
>)
    ensures
        compiled_from(rules@, peano_formulas(), peano_names()),
        PeanoStores::extends(*old(stores), *final(stores)),
{
    let axioms = peano_arithmetic_axioms_with_goals(stores);
    proof {
        assert(formulas_of(axioms@) =~= peano_formulas());
        assert(names_of(axioms@) =~= peano_names());
    }
    compile_all(&axioms, &stores.storage)
}

/// A prover with the rules of the axioms of Peano arithmetic, the
/// reference estimator and the goal check of classical logic.
pub fn create_logical_prover(max_nodes: usize) -> (prover: PeanoLogicalProver)
    ensures
        prover.max_nodes == max_nodes,
        compiled_from(prover.rules@, peano_formulas(), peano_names()),
{
    let mut stores = PeanoStores::new();
    let rules = peano_logical_rules(&mut stores);
    let mut prover = Prover::new(
        max_nodes,
        SizeCostEstimator,
        ClassicalTruthChecker::new(),
        stores.storage,
    );
    prover.rules = rules;
    prover
}

/// Searches for a proof of `initial` from the axioms of Peano arithmetic,
/// taking at most `max_nodes` states from the frontier: the outcome of the
/// search under the rules of the axioms.
pub fn prove_pa_logical(initial: &PeanoLogicalNode, max_nodes: usize) -> (result: Option<
    ProofResult<PeanoLogicalExpression>,
>)
    ensures
        exists|rules: Seq<RewriteRule<PeanoLogicalExpression>>|
            #![trigger compiled_from(rules, peano_formulas(), peano_names())]
            {
                &&& compiled_from(rules, peano_formulas(), peano_names())
                &&& match result {
                    Some(proof_found) => Some(proof_found@),
                    None => None,
                } == spec_prove(
                    *initial,
                    rules,
                    SizeCostEstimator,
                    ClassicalTruthChecker,
                    max_nodes as nat,
                )
                &&& result matches Some(proof_found) ==> derivation(
                    *initial,
                    proof_found@.steps,
                    proof_found.final_expr,
                    rules,
                )
            },
        result matches Some(proof_found) ==> 1 <= proof_found.nodes_explored <= max_nodes
            && face_value(*proof_found.final_expr.value) == Some(proof_found.truth_result),
{
    let mut prover = create_logical_prover(max_nodes);
    let ghost rules = prover.rules@;
    let result = prover.prove(initial);
    proof {
        assert(compiled_from(rules, peano_formulas(), peano_names()));
    }
    result
}

/// The prover over statements of Peano arithmetic, with the reference
/// estimator and the goal check on equalities by their shape.
pub type PeanoProver = Prover<PeanoDomainExpression, SizeCostEstimator, AxiomPatternChecker>;

/// A rule between two equalities, each given by the patterns of its sides.
fn equation_rule(
    name: &str,
    from_left: PeanoArithmeticPattern,
    from_right: PeanoArithmeticPattern,
    to_left: PeanoArithmeticPattern,
    to_right: PeanoArithmeticPattern,
) -> (rule: RewriteRule<PeanoDomainExpression>)
    ensures
        rule.name@ == name@,
        rule.direction == RewriteDirection::Forward,
        rule.pattern@ == PeanoDomainPatternTree::Equality(from_left@, from_right@),
        rule.replacement@ == PeanoDomainPatternTree::Equality(to_left@, to_right@),
{
    RewriteRule::new(
        name,
        PeanoDomainPattern::Equality(from_left, from_right),
        PeanoDomainPattern::Equality(to_left, to_right),
        RewriteDirection::Forward,
    )
}

/// Whether a list is the rules over statements: injectivity of the
/// successor, the identity of addition, addition of a successor, and the
/// symmetry of equality, each a forward rule from one equality to another.
pub open spec fn is_statement_rules(rules: Seq<RewriteRule<PeanoDomainExpression>>) -> bool {
    &&& rules.len() == 4
    &&& rules[0].name@ == "axiom2_successor_injectivity"@
    &&& rules[0].pattern@ == PeanoDomainPatternTree::Equality(
        PatternTree::Compound(OPCODE_SUCCESSOR, seq![PatternTree::Variable(0)]),
        PatternTree::Compound(OPCODE_SUCCESSOR, seq![PatternTree::Variable(1)])
    )
    &&& rules[0].replacement@ == PeanoDomainPatternTree::Equality(
        PatternTree::Variable(0),
        PatternTree::Variable(1)
    )
    &&& rules[1].name@ == "axiom3_additive_identity"@
    &&& rules[1].pattern@ == PeanoDomainPatternTree::Equality(
        PatternTree::Compound(
            OPCODE_ADD,
            seq![
                PatternTree::Variable(0),
                PatternTree::Constant(PeanoArithmeticExpression::Number(0)),
            ],
        ),
        PatternTree::Variable(1)
    )
    &&& rules[1].replacement@ == PeanoDomainPatternTree::Equality(
        PatternTree::Variable(0),
        PatternTree::Variable(1)
    )
    &&& rules[2].name@ == "axiom4_additive_successor"@
    &&& rules[2].pattern@ == PeanoDomainPatternTree::Equality(
        PatternTree::Compound(
            OPCODE_ADD,
            seq![
                PatternTree::Variable(0),
                PatternTree::Compound(OPCODE_SUCCESSOR, seq![PatternTree::Variable(1)]),
            ],
        ),
        PatternTree::Variable(2)
    )
    &&& rules[2].replacement@ == PeanoDomainPatternTree::Equality(
        PatternTree::Compound(
            OPCODE_SUCCESSOR,
            seq![
                PatternTree::Compound(
                    OPCODE_ADD,
                    seq![PatternTree::Variable(0), PatternTree::Variable(1)],
                ),
            ],
        ),
        PatternTree::Variable(2)
    )
    &&& rules[3].name@ == "axiom_symmetry"@
    &&& rules[3].pattern@ == PeanoDomainPatternTree::Equality(
        PatternTree::Variable(0),
        PatternTree::Variable(1)
    )
    &&& rules[3].replacement@ == PeanoDomainPatternTree::Equality(
        PatternTree::Variable(1),
        PatternTree::Variable(0)
    )
    &&& forall|i: int| 0 <= i < 4 ==> (#[trigger] rules[i]).direction == RewriteDirection::Forward
}

/// The rules over statements.
pub fn peano_statement_rules() -> (rules: Vec<RewriteRule<PeanoDomainExpression>>)
    ensures
        is_statement_rules(rules@),
{
    let mut rules: Vec<RewriteRule<PeanoDomainExpression>> = Vec::new();
    rules.push(
        equation_rule(
            "axiom2_successor_injectivity",
            compound1(OPCODE_SUCCESSOR, PeanoArithmeticPattern::Variable(0)),
            compound1(OPCODE_SUCCESSOR, PeanoArithmeticPattern::Variable(1)),
            PeanoArithmeticPattern::Variable(0),
            PeanoArithmeticPattern::Variable(1),
        ),
    );
    rules.push(
        equation_rule(
            "axiom3_additive_identity",
            compound2(
                OPCODE_ADD,
                PeanoArithmeticPattern::Variable(0),
                PeanoArithmeticPattern::Literal(0),
            ),
            PeanoArithmeticPattern::Variable(1),
            PeanoArithmeticPattern::Variable(0),
            PeanoArithmeticPattern::Variable(1),
        ),
    );
    rules.push(
        equation_rule(
            "axiom4_additive_successor",
            compound2(
                OPCODE_ADD,
                PeanoArithmeticPattern::Variable(0),
                compound1(OPCODE_SUCCESSOR, PeanoArithmeticPattern::Variable(1)),
            ),
            PeanoArithmeticPattern::Variable(2),
            compound1(
                OPCODE_SUCCESSOR,
                compound2(
                    OPCODE_ADD,
                    PeanoArithmeticPattern::Variable(0),
                    PeanoArithmeticPattern::Variable(1),
                ),
            ),
            PeanoArithmeticPattern::Variable(2),
        ),
    );
    rules.push(
        equation_rule(
            "axiom_symmetry",
            PeanoArithmeticPattern::Variable(0),
            PeanoArithmeticPattern::Variable(1),
            PeanoArithmeticPattern::Variable(1),
            PeanoArithmeticPattern::Variable(0),
        ),
    );
    rules
}

/// A prover over statements with the rules over statements.
pub fn create_prover(max_nodes: usize) -> (prover: PeanoProver)
    ensures
        prover.max_nodes == max_nodes,
        is_statement_rules(prover.rules@),
{
    let mut prover = Prover::new(
        max_nodes,
        SizeCostEstimator,
        AxiomPatternChecker::new(),
        PeanoStorage::new(),
    );
    prover.rules = peano_statement_rules();
    prover
}

/// Searches for a proof or a refutation of an equality, taking at most
/// `max_nodes` states from the frontier: the outcome of the search under
/// the rules over statements.
pub fn prove_pa(initial: &HashNode<PeanoDomainExpression>, max_nodes: usize) -> (result: Option<
    ProofResult<PeanoDomainExpression>,
>)
    ensures
        exists|rules: Seq<RewriteRule<PeanoDomainExpression>>|
            #![trigger is_statement_rules(rules)]
            {
                &&& is_statement_rules(rules)
                &&& match result {
                    Some(proof_found) => Some(proof_found@),
                    None => None,
                } == spec_prove(
                    *initial,
                    rules,
                    SizeCostEstimator,
                    AxiomPatternChecker,
                    max_nodes as nat,
                )
                &&& result matches Some(proof_found) ==> derivation(
                    *initial,
                    proof_found@.steps,
                    proof_found.final_expr,
                    rules,
                )
            },
        result matches Some(proof_found) ==> 1 <= proof_found.nodes_explored <= max_nodes
            && spec_equality_verdict(*proof_found.final_expr.value) == Some(
            proof_found.truth_result,
        ),
{
    let mut prover = create_prover(max_nodes);
    let ghost rules = prover.rules@;
    let result = prover.prove(initial);
    proof {
        assert(is_statement_rules(rules));
    }
    result
}

} // verus!
