//! Peano arithmetic, the reference domain.

pub mod axioms;
pub mod display;
pub mod goal;
pub mod laws;
pub mod lexing;
pub mod opcodes;
pub mod parsing;
pub mod prover;
pub mod quantifiers;
pub mod rewrite;
pub mod syntax;

use crate::classical::expression::{ClassicalLogicalExpression, LogicalStorage};
use crate::nodes::HashNode;
use crate::peano::syntax::{
    PeanoArithmeticExpression, PeanoDomainExpression, PeanoLogicalNode, PeanoStorage,
};
use crate::truth::BinaryTruth;
use vstd::prelude::*;

verus! {

/// The term that is a number.
pub open spec fn num(n: u64) -> HashNode<PeanoArithmeticExpression> {
    HashNode::of(PeanoArithmeticExpression::Number(n))
}

/// The term that is the variable of an index.
pub open spec fn var(index: u32) -> HashNode<PeanoArithmeticExpression> {
    HashNode::of(PeanoArithmeticExpression::DeBruijn(index))
}

/// The sum of two terms.
pub open spec fn plus(
    left: HashNode<PeanoArithmeticExpression>,
    right: HashNode<PeanoArithmeticExpression>,
) -> HashNode<PeanoArithmeticExpression> {
    HashNode::of(PeanoArithmeticExpression::Add(left, right))
}

/// The successor of a term.
pub open spec fn succ(inner: HashNode<PeanoArithmeticExpression>) -> HashNode<
    PeanoArithmeticExpression,
> {
    HashNode::of(PeanoArithmeticExpression::Successor(inner))
}

/// The formula that equates two terms.
pub open spec fn eq(
    left: HashNode<PeanoArithmeticExpression>,
    right: HashNode<PeanoArithmeticExpression>,
) -> PeanoLogicalNode {
    HashNode::of(
        ClassicalLogicalExpression::DomainContent(
            HashNode::of(PeanoDomainExpression::Equality(left, right)),
        ),
    )
}

/// The universal closure of a formula over one more variable.
pub open spec fn all(body: PeanoLogicalNode) -> PeanoLogicalNode {
    HashNode::of(ClassicalLogicalExpression::ForAll(body))
}

/// The existential closure of a formula over one more variable.
pub open spec fn some(body: PeanoLogicalNode) -> PeanoLogicalNode {
    HashNode::of(ClassicalLogicalExpression::Exists(body))
}

/// The implication of two formulas.
pub open spec fn entails(left: PeanoLogicalNode, right: PeanoLogicalNode) -> PeanoLogicalNode {
    HashNode::of(ClassicalLogicalExpression::Imply(left, right))
}

/// The biconditional of two formulas.
pub open spec fn iff(left: PeanoLogicalNode, right: PeanoLogicalNode) -> PeanoLogicalNode {
    HashNode::of(ClassicalLogicalExpression::Iff(left, right))
}

/// The conjunction of two formulas.
pub open spec fn both(left: PeanoLogicalNode, right: PeanoLogicalNode) -> PeanoLogicalNode {
    HashNode::of(ClassicalLogicalExpression::And(left, right))
}

/// The disjunction of two formulas.
pub open spec fn either(left: PeanoLogicalNode, right: PeanoLogicalNode) -> PeanoLogicalNode {
    HashNode::of(ClassicalLogicalExpression::Or(left, right))
}

/// The negation of a formula.
pub open spec fn negation(inner: PeanoLogicalNode) -> PeanoLogicalNode {
    HashNode::of(ClassicalLogicalExpression::Not(inner))
}

/// The formula that is a truth constant.
pub open spec fn constant(truth: BinaryTruth) -> PeanoLogicalNode {
    HashNode::of(ClassicalLogicalExpression::BooleanConstant(truth))
}

/// The stores of a session over Peano arithmetic.
pub struct PeanoStores {
    pub storage: LogicalStorage<PeanoDomainExpression>,
}

impl PeanoStores {
    /// `after` holds everything `before` holds.
    pub open spec fn extends(before: PeanoStores, after: PeanoStores) -> bool {
        LogicalStorage::<PeanoDomainExpression>::extends(before.storage, after.storage)
    }

    /// A session extends itself, and extending twice extends.
    pub proof fn lemma_extends(a: PeanoStores, b: PeanoStores, c: PeanoStores)
        ensures
            Self::extends(a, a),
            Self::extends(a, b) && Self::extends(b, c) ==> Self::extends(a, c),
    {
        LogicalStorage::<PeanoDomainExpression>::lemma_extends(a.storage, b.storage, c.storage);
    }

    /// Fresh, empty stores.
    pub fn new() -> (stores: Self)
        ensures
            stores.storage.logical_storage@ == Map::<
                u64,
                HashNode<ClassicalLogicalExpression<PeanoDomainExpression>>,
            >::empty(),
            stores.storage.domain_storage.arithmetic_storage@ == Map::<
                u64,
                HashNode<PeanoArithmeticExpression>,
            >::empty(),
            stores.storage.domain_storage.domain_content_storage@ == Map::<
                u64,
                HashNode<PeanoDomainExpression>,
            >::empty(),
    {
        Self { storage: LogicalStorage::new(PeanoStorage::new()) }
    }

    /// The stores of the domain.
    pub fn pa_storage(&self) -> (storage: &PeanoStorage)
        ensures
            *storage == self.storage.domain_storage,
    {
        &self.storage.domain_storage
    }

    /// The stores of the domain, to be changed.
    pub fn pa_storage_mut(&mut self) -> (storage: &mut PeanoStorage)
        ensures
            *storage == old(self).storage.domain_storage,
            final(self).storage.domain_storage == *final(storage),
            final(self).storage.logical_storage == old(self).storage.logical_storage,
    {
        &mut self.storage.domain_storage
    }

    /// Interns a term.
    pub fn term(&mut self, value: PeanoArithmeticExpression) -> (node: HashNode<
        PeanoArithmeticExpression,
    >)
        ensures
            node == HashNode::of(value),
            Self::extends(*old(self), *final(self)),
    {
        proof {
            Self::lemma_extends(*self, *self, *self);
        }
        HashNode::from_store(value, &mut self.storage.domain_storage.arithmetic_storage)
    }

    /// Interns a formula.
    pub fn formula(&mut self, value: ClassicalLogicalExpression<PeanoDomainExpression>) -> (node:
        PeanoLogicalNode)
        ensures
            node == HashNode::of(value),
            Self::extends(*old(self), *final(self)),
    {
        proof {
            Self::lemma_extends(*self, *self, *self);
        }
        HashNode::from_store(value, &mut self.storage.logical_storage)
    }

    pub fn number(&mut self, n: u64) -> (node: HashNode<PeanoArithmeticExpression>)
        ensures
            node == num(n),
            Self::extends(*old(self), *final(self)),
    {
        self.term(PeanoArithmeticExpression::Number(n))
    }

    pub fn variable(&mut self, index: u32) -> (node: HashNode<PeanoArithmeticExpression>)
        ensures
            node == var(index),
            Self::extends(*old(self), *final(self)),
    {
        self.term(PeanoArithmeticExpression::DeBruijn(index))
    }

    pub fn add(
        &mut self,
        left: HashNode<PeanoArithmeticExpression>,
        right: HashNode<PeanoArithmeticExpression>,
    ) -> (node: HashNode<PeanoArithmeticExpression>)
        ensures
            node == plus(left, right),
            Self::extends(*old(self), *final(self)),
    {
        self.term(PeanoArithmeticExpression::Add(left, right))
    }

    pub fn successor(&mut self, inner: HashNode<PeanoArithmeticExpression>) -> (node: HashNode<
        PeanoArithmeticExpression,
    >)
        ensures
            node == succ(inner),
            Self::extends(*old(self), *final(self)),
    {
        self.term(PeanoArithmeticExpression::Successor(inner))
    }

    pub fn equals(
        &mut self,
        left: HashNode<PeanoArithmeticExpression>,
        right: HashNode<PeanoArithmeticExpression>,
    ) -> (node: PeanoLogicalNode)
        ensures
            node == eq(left, right),
            Self::extends(*old(self), *final(self)),
    {
        let ghost start = *self;
        proof {
            Self::lemma_extends(start, start, start);
        }
        let statement = HashNode::from_store(
            PeanoDomainExpression::Equality(left, right),
            &mut self.storage.domain_storage.domain_content_storage,
        );
        let ghost middle = *self;
        let node = self.formula(ClassicalLogicalExpression::DomainContent(statement));
        proof {
            Self::lemma_extends(start, middle, *self);
        }
        node
    }

    pub fn for_all(&mut self, body: PeanoLogicalNode) -> (node: PeanoLogicalNode)
        ensures
            node == all(body),
            Self::extends(*old(self), *final(self)),
    {
        self.formula(ClassicalLogicalExpression::ForAll(body))
    }

    pub fn there_exists(&mut self, body: PeanoLogicalNode) -> (node: PeanoLogicalNode)
        ensures
            node == some(body),
            Self::extends(*old(self), *final(self)),
    {
        self.formula(ClassicalLogicalExpression::Exists(body))
    }

    pub fn imply(&mut self, left: PeanoLogicalNode, right: PeanoLogicalNode) -> (node:
        PeanoLogicalNode)
        ensures
            node == entails(left, right),
            Self::extends(*old(self), *final(self)),
    {
        self.formula(ClassicalLogicalExpression::Imply(left, right))
    }

    pub fn iff(&mut self, left: PeanoLogicalNode, right: PeanoLogicalNode) -> (node:
        PeanoLogicalNode)
        ensures
            node == iff(left, right),
            Self::extends(*old(self), *final(self)),
    {
        self.formula(ClassicalLogicalExpression::Iff(left, right))
    }

    pub fn and(&mut self, left: PeanoLogicalNode, right: PeanoLogicalNode) -> (node:
        PeanoLogicalNode)
        ensures
            node == both(left, right),
            Self::extends(*old(self), *final(self)),
    {
        self.formula(ClassicalLogicalExpression::And(left, right))
    }

    pub fn or(&mut self, left: PeanoLogicalNode, right: PeanoLogicalNode) -> (node: PeanoLogicalNode)
        ensures
            node == either(left, right),
            Self::extends(*old(self), *final(self)),
    {
        self.formula(ClassicalLogicalExpression::Or(left, right))
    }

    pub fn not(&mut self, inner: PeanoLogicalNode) -> (node: PeanoLogicalNode)
        ensures
            node == negation(inner),
            Self::extends(*old(self), *final(self)),
    {
        self.formula(ClassicalLogicalExpression::Not(inner))
    }

    pub fn truth(&mut self, value: BinaryTruth) -> (node: PeanoLogicalNode)
        ensures
            node == constant(value),
            Self::extends(*old(self), *final(self)),
    {
        self.formula(ClassicalLogicalExpression::BooleanConstant(value))
    }
}

} // verus!
