//! The operators of classical logic.

use crate::logic::{LogicalOperator, LogicalOperatorSet};
use crate::nodes::{HashNode, HashNodeInner};
use crate::truth::TruthValue;
use vstd::prelude::*;

verus! {

/// The connectives and quantifiers of classical logic.
#[derive(Debug, Clone, Copy, PartialEq, Eq, Structural)]
pub enum ClassicalOperator {
    And,
    Or,
    Implies,
    Not,
    Iff,
    Forall,
    Exists,
    Equals,
}

impl ClassicalOperator {
    pub open spec fn symbol_text(self) -> Seq<char> {
        match self {
            ClassicalOperator::And => "∧"@,
            ClassicalOperator::Or => "∨"@,
            ClassicalOperator::Implies => "->"@,
            ClassicalOperator::Not => "¬"@,
            ClassicalOperator::Iff => "<->"@,
            ClassicalOperator::Forall => "∀"@,
            ClassicalOperator::Exists => "∃"@,
            ClassicalOperator::Equals => "="@,
        }
    }

    pub open spec fn operand_count(self) -> nat {
        match self {
            ClassicalOperator::Not => 1,
            ClassicalOperator::Forall => 1,
            ClassicalOperator::Exists => 1,
            _ => 2,
        }
    }

    /// The opcode of the constructor that the operator stands for.
    pub open spec fn opcode(self) -> u64 {
        match self {
            ClassicalOperator::And => 1,
            ClassicalOperator::Or => 2,
            ClassicalOperator::Implies => 3,
            ClassicalOperator::Not => 4,
            ClassicalOperator::Iff => 5,
            ClassicalOperator::Forall => 6,
            ClassicalOperator::Exists => 7,
            ClassicalOperator::Equals => 8,
        }
    }

    pub fn symbol(&self) -> (s: &'static str)
        ensures
            s@ == self.symbol_text(),
    {
        match self {
            ClassicalOperator::And => "∧",
            ClassicalOperator::Or => "∨",
            ClassicalOperator::Implies => "->",
            ClassicalOperator::Not => "¬",
            ClassicalOperator::Iff => "<->",
            ClassicalOperator::Forall => "∀",
            ClassicalOperator::Exists => "∃",
            ClassicalOperator::Equals => "=",
        }
    }

    pub fn arity(&self) -> (n: usize)
        ensures
            n == self.operand_count(),
    {
        match self {
            ClassicalOperator::Not => 1,
            ClassicalOperator::Forall => 1,
            ClassicalOperator::Exists => 1,
            _ => 2,
        }
    }

    /// The symbol as an owned text.
    pub fn to_string(&self) -> (text: String)
        ensures
            text@ == self.symbol_text(),
    {
        self.symbol().to_owned()
    }
}

impl<T: TruthValue + Copy> LogicalOperator<T> for ClassicalOperator {
    open spec fn spec_symbol(&self) -> Seq<char> {
        self.symbol_text()
    }

    open spec fn spec_arity(&self) -> nat {
        self.operand_count()
    }

    /// A quantifier leaves the truth value of its body as it is.
    open spec fn spec_apply(&self, operands: Seq<T>) -> T {
        match self {
            ClassicalOperator::And => operands[0].spec_and(&operands[1]),
            ClassicalOperator::Or => operands[0].spec_or(&operands[1]),
            ClassicalOperator::Implies => operands[0].spec_implies(&operands[1]),
            ClassicalOperator::Iff => operands[0].spec_implies(&operands[1]).spec_and(
                &operands[1].spec_implies(&operands[0]),
            ),
            ClassicalOperator::Equals => operands[0].spec_implies(&operands[1]).spec_and(
                &operands[1].spec_implies(&operands[0]),
            ),
            ClassicalOperator::Not => operands[0].spec_not(),
            ClassicalOperator::Forall => operands[0],
            ClassicalOperator::Exists => operands[0],
        }
    }

    fn symbol(&self) -> (s: &'static str) {
        ClassicalOperator::symbol(self)
    }

    fn arity(&self) -> (n: usize) {
        ClassicalOperator::arity(self)
    }

    fn apply(&self, operands: &[T]) -> (t: T) {
        match self {
            ClassicalOperator::And => operands[0].and(&operands[1]),
            ClassicalOperator::Or => operands[0].or(&operands[1]),
            ClassicalOperator::Implies => operands[0].implies(&operands[1]),
            ClassicalOperator::Iff => operands[0].implies(&operands[1]).and(
                &operands[1].implies(&operands[0]),
            ),
            ClassicalOperator::Equals => operands[0].implies(&operands[1]).and(
                &operands[1].implies(&operands[0]),
            ),
            ClassicalOperator::Not => operands[0].not(),
            ClassicalOperator::Forall => operands[0],
            ClassicalOperator::Exists => operands[0],
        }
    }
}

impl HashNodeInner for ClassicalOperator {
    open spec fn spec_hash(&self) -> u64 {
        self.opcode()
    }

    open spec fn spec_size(&self) -> nat {
        1
    }

    proof fn lemma_size_positive(&self) {
    }

    fn hash(&self) -> (h: u64) {
        match self {
            ClassicalOperator::And => 1,
            ClassicalOperator::Or => 2,
            ClassicalOperator::Implies => 3,
            ClassicalOperator::Not => 4,
            ClassicalOperator::Iff => 5,
            ClassicalOperator::Forall => 6,
            ClassicalOperator::Exists => 7,
            ClassicalOperator::Equals => 8,
        }
    }

    fn size(&self) -> (s: u64) {
        1
    }

    fn same(&self, other: &Self) -> (b: bool) {
        *self == *other
    }

    fn duplicate(&self) -> (copy: Self) {
        *self
    }

    open spec fn spec_decompose(&self) -> Option<(u64, Seq<HashNode<Self>>)> {
        None
    }

    open spec fn spec_construct(opcode: u64, children: Seq<HashNode<Self>>) -> Option<Self> {
        None
    }

    proof fn lemma_decompose_construct(&self) {
    }

    proof fn lemma_construct_decompose(opcode: u64, children: Seq<HashNode<Self>>) {
    }

    proof fn lemma_construct_congruent(
        opcode: u64,
        left: Seq<HashNode<Self>>,
        right: Seq<HashNode<Self>>,
    ) {
    }

    fn decompose(&self) -> (parts: Option<(u64, Vec<HashNode<Self>>)>) {
        None
    }

    fn construct_from_parts(opcode: u64, children: Vec<HashNode<Self>>) -> (built: Option<Self>) {
        None
    }
}

/// The operator set of classical logic.
pub struct ClassicalLogicalSystem<T: TruthValue + Copy>(pub LogicalOperatorSet<T, ClassicalOperator>);

impl<T: TruthValue + Copy> ClassicalLogicalSystem<T> {
    /// The seven operators of classical logic, in a fixed order.
    pub fn with_classical_operators() -> (system: Self)
        ensures
            system.0@ == seq![
                ClassicalOperator::And,
                ClassicalOperator::Or,
                ClassicalOperator::Implies,
                ClassicalOperator::Iff,
                ClassicalOperator::Not,
                ClassicalOperator::Forall,
                ClassicalOperator::Exists,
            ],
    {
        let mut system: LogicalOperatorSet<T, ClassicalOperator> = LogicalOperatorSet::new();
        system.add_operator(ClassicalOperator::And);
        system.add_operator(ClassicalOperator::Or);
        system.add_operator(ClassicalOperator::Implies);
        system.add_operator(ClassicalOperator::Iff);
        system.add_operator(ClassicalOperator::Not);
        system.add_operator(ClassicalOperator::Forall);
        system.add_operator(ClassicalOperator::Exists);
        proof {
            assert(system@ =~= seq![
                ClassicalOperator::And,
                ClassicalOperator::Or,
                ClassicalOperator::Implies,
                ClassicalOperator::Iff,
                ClassicalOperator::Not,
                ClassicalOperator::Forall,
                ClassicalOperator::Exists,
            ]);
        }
        ClassicalLogicalSystem(system)
    }
}

} // verus!
