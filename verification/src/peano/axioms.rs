//! The axioms of Peano arithmetic.

use crate::axioms::NamedAxiom;

use crate::opcodes::{OPCODE_ADD, OPCODE_EQUALITY, OPCODE_SUCCESSOR};
use crate::peano::syntax::{
    PeanoArithmeticExpression, PeanoArithmeticPattern, PeanoDomainExpression, PeanoLogicalNode,
};
use crate::peano::{all, entails, eq, negation, num, plus, succ, var, PeanoStores};
use crate::rewriting::pattern::PatternTree;
use crate::rewriting::{RewriteDirection, RewriteRule};
use vstd::prelude::*;

verus! {

/// Successor is injective: for all x and y, S(x) = S(y) implies x = y.
pub open spec fn successor_injectivity() -> PeanoLogicalNode {
    all(all(entails(eq(succ(var(0)), succ(var(1))), eq(var(0), var(1)))))
}

/// Zero is the identity of addition: for all x and y, x + 0 = y implies x = y.
pub open spec fn additive_identity() -> PeanoLogicalNode {
    all(all(entails(eq(plus(var(0), num(0)), var(1)), eq(var(0), var(1)))))
}

/// Addition of a successor: for all x, y and z, x + S(y) = z implies S(x + y) = z.
pub open spec fn additive_successor() -> PeanoLogicalNode {
    all(
        all(
            all(
                entails(
                    eq(plus(var(0), succ(var(1))), var(2)),
                    eq(succ(plus(var(0), var(1))), var(2)),
                ),
            ),
        ),
    )
}

/// Equality is reflexive: for all x, x = x.
pub open spec fn reflexivity() -> PeanoLogicalNode {
    all(eq(var(0), var(0)))
}

/// Equality is symmetric: for all x and y, x = y implies y = x.
pub open spec fn symmetry() -> PeanoLogicalNode {
    all(all(entails(eq(var(0), var(1)), eq(var(1), var(0)))))
}

/// No number is its own successor: for all x, not x = S(x).
pub open spec fn successor_never_self() -> PeanoLogicalNode {
    all(negation(eq(var(0), succ(var(0)))))
}

/// Whether a list is the axioms that rewrite arithmetic, under their names.
pub open spec fn is_rewriting_axioms(axioms: Seq<NamedAxiom<PeanoDomainExpression>>) -> bool {
    &&& axioms.len() >= 3
    &&& axioms[0].name@ == "axiom2_successor_injectivity"@
    &&& axioms[0].expression == successor_injectivity()
    &&& axioms[1].name@ == "axiom3_additive_identity"@
    &&& axioms[1].expression == additive_identity()
    &&& axioms[2].name@ == "axiom4_additive_successor"@
    &&& axioms[2].expression == additive_successor()
}

/// Whether a list is all axioms of Peano arithmetic, under their names.
pub open spec fn is_peano_axioms(axioms: Seq<NamedAxiom<PeanoDomainExpression>>) -> bool {
    &&& axioms.len() == 6
    &&& is_rewriting_axioms(axioms)
    &&& axioms[3].name@ == "axiom_reflexivity"@
    &&& axioms[3].expression == reflexivity()
    &&& axioms[4].name@ == "axiom_symmetry"@
    &&& axioms[4].expression == symmetry()
    &&& axioms[5].name@ == "axiom_successor_injectivity"@
    &&& axioms[5].expression == successor_never_self()
}

/// The axioms that rewrite arithmetic: injectivity of the successor, the
/// identity of addition, and addition of a successor.
pub fn peano_arithmetic_axioms(stores: &mut PeanoStores) -> (axioms: Vec<
    NamedAxiom<PeanoDomainExpression>,
>)
    ensures
        axioms@.len() == 3,
        is_rewriting_axioms(axioms@),
        PeanoStores::extends(*old(stores), *final(stores)),
{
    let mut axioms: Vec<NamedAxiom<PeanoDomainExpression>> = Vec::new();
    // S(x) = S(y) -> x = y
    let x = stores.variable(0);
    let y = stores.variable(1);
    let sx = stores.successor(x.clone());
    let sy = stores.successor(y.clone());
    let from = stores.equals(sx, sy);
    let to = stores.equals(x, y);
    let body = stores.imply(from, to);
    let inner = stores.for_all(body);
    let closed = stores.for_all(inner);
    axioms.push(NamedAxiom::new("axiom2_successor_injectivity", closed));
    // x + 0 = y -> x = y
    let x = stores.variable(0);
    let y = stores.variable(1);
    let zero = stores.number(0);
    let sum = stores.add(x.clone(), zero);
    let from = stores.equals(sum, y.clone());
    let to = stores.equals(x, y);
    let body = stores.imply(from, to);
    let inner = stores.for_all(body);
    let closed = stores.for_all(inner);
    axioms.push(NamedAxiom::new("axiom3_additive_identity", closed));
    // x + S(y) = z -> S(x + y) = z
    let x = stores.variable(0);
    let y = stores.variable(1);
    let z = stores.variable(2);
    let sy = stores.successor(y.clone());
    let sum = stores.add(x.clone(), sy);
    let from = stores.equals(sum, z.clone());
    let inner_sum = stores.add(x, y);
    let s_sum = stores.successor(inner_sum);
    let to = stores.equals(s_sum, z);
    let body = stores.imply(from, to);
    let one = stores.for_all(body);
    let two = stores.for_all(one);
    let closed = stores.for_all(two);
    axioms.push(NamedAxiom::new("axiom4_additive_successor", closed));
    axioms
}

/// All axioms: those that rewrite arithmetic, then reflexivity, symmetry,
/// and that no number is its own successor.
pub fn peano_arithmetic_axioms_with_goals(stores: &mut PeanoStores) -> (axioms: Vec<
    NamedAxiom<PeanoDomainExpression>,
>)
    ensures
        is_peano_axioms(axioms@),
        PeanoStores::extends(*old(stores), *final(stores)),
{
    let mut axioms = peano_arithmetic_axioms(stores);
    // x = x
    let x = stores.variable(0);
    let body = stores.equals(x.clone(), x);
    let closed = stores.for_all(body);
    axioms.push(NamedAxiom::new("axiom_reflexivity", closed));
    // x = y -> y = x
    let x = stores.variable(0);
    let y = stores.variable(1);
    let from = stores.equals(x.clone(), y.clone());
    let to = stores.equals(y, x);
    let body = stores.imply(from, to);
    let inner = stores.for_all(body);
    let closed = stores.for_all(inner);
    axioms.push(NamedAxiom::new("axiom_symmetry", closed));
    // not x = S(x)
    let x = stores.variable(0);
    let sx = stores.successor(x.clone());
    let equation = stores.equals(x, sx);
    let body = stores.not(equation);
    let closed = stores.for_all(body);
    axioms.push(NamedAxiom::new("axiom_successor_injectivity", closed));
    axioms
}

/// A compound pattern of two arguments.
pub fn compound2(opcode: u64, first: PeanoArithmeticPattern, second: PeanoArithmeticPattern) -> (pattern:
    PeanoArithmeticPattern)
    ensures
        pattern@ == PatternTree::Compound(opcode, seq![first@, second@]),
{
    let mut args: Vec<PeanoArithmeticPattern> = Vec::new();
    args.push(first);
    args.push(second);
    let pattern = PeanoArithmeticPattern::Compound { opcode, args };
    proof {
        assert(pattern@->Compound_1 =~= seq![first@, second@]);
    }
    pattern
}

/// A compound pattern of one argument.
pub fn compound1(opcode: u64, only: PeanoArithmeticPattern) -> (pattern: PeanoArithmeticPattern)
    ensures
        pattern@ == PatternTree::Compound(opcode, seq![only@]),
{
    let mut args: Vec<PeanoArithmeticPattern> = Vec::new();
    args.push(only);
    let pattern = PeanoArithmeticPattern::Compound { opcode, args };
    proof {
        assert(pattern@->Compound_1 =~= seq![only@]);
    }
    pattern
}

/// The rules over terms: an equation of successors against the equation of
/// what they succeed, in both directions; `x + 0` to `x`; and `x + S(y)` to
/// `S(x + y)`.
pub fn peano_arithmetic_rules() -> (rules: Vec<RewriteRule<PeanoArithmeticExpression>>)
    ensures
        rules@.len() == 3,
        rules@[0].name@ == "axiom2_successor_injectivity"@,
        rules@[0].direction == RewriteDirection::Both,
        rules@[0].pattern@ == PatternTree::<PeanoArithmeticExpression>::Compound(
            OPCODE_EQUALITY,
            seq![
                PatternTree::Compound(OPCODE_SUCCESSOR, seq![PatternTree::Variable(0)]),
                PatternTree::Compound(OPCODE_SUCCESSOR, seq![PatternTree::Variable(1)]),
            ],
        ),
        rules@[0].replacement@ == PatternTree::<PeanoArithmeticExpression>::Compound(
            OPCODE_EQUALITY,
            seq![PatternTree::Variable(0), PatternTree::Variable(1)],
        ),
        rules@[1].name@ == "axiom3_additive_identity"@,
        rules@[1].direction == RewriteDirection::Forward,
        rules@[1].pattern@ == PatternTree::<PeanoArithmeticExpression>::Compound(
            OPCODE_ADD,
            seq![
                PatternTree::Variable(0),
                PatternTree::Constant(PeanoArithmeticExpression::Number(0)),
            ],
        ),
        rules@[1].replacement@ == PatternTree::<PeanoArithmeticExpression>::Variable(0),
        rules@[2].name@ == "axiom4_additive_successor"@,
        rules@[2].direction == RewriteDirection::Forward,
        rules@[2].pattern@ == PatternTree::<PeanoArithmeticExpression>::Compound(
            OPCODE_ADD,
            seq![
                PatternTree::Variable(0),
                PatternTree::Compound(OPCODE_SUCCESSOR, seq![PatternTree::Variable(1)]),
            ],
        ),
        rules@[2].replacement@ == PatternTree::<PeanoArithmeticExpression>::Compound(
            OPCODE_SUCCESSOR,
            seq![
                PatternTree::Compound(
                    OPCODE_ADD,
                    seq![PatternTree::Variable(0), PatternTree::Variable(1)],
                ),
            ],
        ),
{
    let mut rules: Vec<RewriteRule<PeanoArithmeticExpression>> = Vec::new();
    rules.push(
        RewriteRule::bidirectional(
            "axiom2_successor_injectivity",
            compound2(
                OPCODE_EQUALITY,
                compound1(OPCODE_SUCCESSOR, PeanoArithmeticPattern::Variable(0)),
                compound1(OPCODE_SUCCESSOR, PeanoArithmeticPattern::Variable(1)),
            ),
            compound2(
                OPCODE_EQUALITY,
                PeanoArithmeticPattern::Variable(0),
                PeanoArithmeticPattern::Variable(1),
            ),
        ),
    );
    rules.push(
        RewriteRule::new(
            "axiom3_additive_identity",
            compound2(
                OPCODE_ADD,
                PeanoArithmeticPattern::Variable(0),
                PeanoArithmeticPattern::Literal(0),
            ),
            PeanoArithmeticPattern::Variable(0),
            RewriteDirection::Forward,
        ),
    );
    rules.push(
        RewriteRule::new(
            "axiom4_additive_successor",
            compound2(
                OPCODE_ADD,
                PeanoArithmeticPattern::Variable(0),
                compound1(OPCODE_SUCCESSOR, PeanoArithmeticPattern::Variable(1)),
            ),
            compound1(
                OPCODE_SUCCESSOR,
                compound2(
                    OPCODE_ADD,
                    PeanoArithmeticPattern::Variable(0),
                    PeanoArithmeticPattern::Variable(1),
                ),
            ),
            RewriteDirection::Forward,
        ),
    );
    rules
}

} // verus!
