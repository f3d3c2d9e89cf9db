//! Looking into the shape of expressions of a domain.

use crate::nodes::{HashNode, HashNodeInner};
use crate::peano::syntax::{PeanoArithmeticExpression, PeanoDomainExpression};
use vstd::prelude::*;

verus! {

/// Statements that may be equalities.
pub trait EqualityExtractable: HashNodeInner {
    /// The kind of expression on each side of an equality.
    type SubExpr: HashNodeInner;

    /// The two sides, where the statement is an equality.
    spec fn spec_as_equals(&self) -> Option<(HashNode<Self::SubExpr>, HashNode<Self::SubExpr>)>;

    fn as_equals(&self) -> (sides: Option<(&HashNode<Self::SubExpr>, &HashNode<Self::SubExpr>)>)
        ensures
            match sides {
                Some((left, right)) => self.spec_as_equals() == Some((*left, *right)),
                None => self.spec_as_equals() is None,
            },
    ;
}

/// Expressions that may be successors.
pub trait SuccessorExtractable: HashNodeInner {
    type SubExpr: HashNodeInner;

    /// What the expression is the successor of, where it is a successor.
    spec fn spec_as_successor(&self) -> Option<HashNode<Self::SubExpr>>;

    fn as_successor(&self) -> (inner: Option<&HashNode<Self::SubExpr>>)
        ensures
            match inner {
                Some(found) => self.spec_as_successor() == Some(*found),
                None => self.spec_as_successor() is None,
            },
    ;
}

/// Expressions that may be sums.
pub trait AddExtractable: HashNodeInner {
    type SubExpr: HashNodeInner;

    /// The two summands, where the expression is a sum.
    spec fn spec_as_add(&self) -> Option<(HashNode<Self::SubExpr>, HashNode<Self::SubExpr>)>;

    fn as_add(&self) -> (summands: Option<(&HashNode<Self::SubExpr>, &HashNode<Self::SubExpr>)>)
        ensures
            match summands {
                Some((left, right)) => self.spec_as_add() == Some((*left, *right)),
                None => self.spec_as_add() is None,
            },
    ;
}

impl EqualityExtractable for PeanoDomainExpression {
    type SubExpr = PeanoArithmeticExpression;

    open spec fn spec_as_equals(&self) -> Option<
        (HashNode<PeanoArithmeticExpression>, HashNode<PeanoArithmeticExpression>),
    > {
        match self {
            PeanoDomainExpression::Equality(left, right) => Some((*left, *right)),
        }
    }

    fn as_equals(&self) -> (sides: Option<
        (&HashNode<PeanoArithmeticExpression>, &HashNode<PeanoArithmeticExpression>),
    >) {
        match self {
            PeanoDomainExpression::Equality(left, right) => Some((left, right)),
        }
    }
}

impl SuccessorExtractable for PeanoArithmeticExpression {
    type SubExpr = PeanoArithmeticExpression;

    open spec fn spec_as_successor(&self) -> Option<HashNode<PeanoArithmeticExpression>> {
        match self {
            PeanoArithmeticExpression::Successor(inner) => Some(*inner),
            _ => None,
        }
    }

    fn as_successor(&self) -> (inner: Option<&HashNode<PeanoArithmeticExpression>>) {
        match self {
            PeanoArithmeticExpression::Successor(inner) => Some(inner),
            _ => None,
        }
    }
}

impl AddExtractable for PeanoArithmeticExpression {
    type SubExpr = PeanoArithmeticExpression;

    open spec fn spec_as_add(&self) -> Option<
        (HashNode<PeanoArithmeticExpression>, HashNode<PeanoArithmeticExpression>),
    > {
        match self {
            PeanoArithmeticExpression::Add(left, right) => Some((*left, *right)),
            _ => None,
        }
    }

    fn as_add(&self) -> (summands: Option<
        (&HashNode<PeanoArithmeticExpression>, &HashNode<PeanoArithmeticExpression>),
    >) {
        match self {
            PeanoArithmeticExpression::Add(left, right) => Some((left, right)),
            _ => None,
        }
    }
}

} // verus!
