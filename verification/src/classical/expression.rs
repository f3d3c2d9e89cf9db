//! The expressions of classical logic over a domain of discourse.

use crate::nodes::{lemma_saturated_add, HashNode, HashNodeInner, Hashing, NodeStorage};
use crate::opcodes::{
    OPCODE_AND, OPCODE_BOOLEAN_CONSTANT, OPCODE_DOMAIN_CONTENT, OPCODE_EXISTS, OPCODE_FORALL,
    OPCODE_IFF, OPCODE_IMPLY, OPCODE_NOT, OPCODE_OR,
};
use crate::operators::ClassicalOperator;
use crate::rewriting::patterns::Rewritable;
use crate::truth::BinaryTruth;
use vstd::prelude::*;

verus! {

/// What a domain of discourse offers to the logical layer above it.
pub trait DomainContent: Rewritable {
    /// For a statement that equates two terms, the patterns that rewrite
    /// the one term into the other inside any statement.
    spec fn spec_equation_sides(&self) -> Option<
        (<Self::AsPattern as View>::V, <Self::AsPattern as View>::V),
    >;

    fn equation_sides(&self, store: &Self::Storage) -> (sides: Option<
        (Self::AsPattern, Self::AsPattern),
    >)
        ensures
            sides is Some == self.spec_equation_sides() is Some,
            sides matches Some((left, right)) ==> self.spec_equation_sides() == Some(
                (left@, right@),
            ),
    ;
}

/// A formula: connectives and quantifiers over statements of the domain `D`
/// and the two truth constants. Variables inside a quantified body are
/// nameless: index 0 is the innermost quantifier.
#[derive(Debug)]
pub enum ClassicalLogicalExpression<D> {
    And(HashNode<ClassicalLogicalExpression<D>>, HashNode<ClassicalLogicalExpression<D>>),
    Or(HashNode<ClassicalLogicalExpression<D>>, HashNode<ClassicalLogicalExpression<D>>),
    Not(HashNode<ClassicalLogicalExpression<D>>),
    Imply(HashNode<ClassicalLogicalExpression<D>>, HashNode<ClassicalLogicalExpression<D>>),
    Iff(HashNode<ClassicalLogicalExpression<D>>, HashNode<ClassicalLogicalExpression<D>>),
    ForAll(HashNode<ClassicalLogicalExpression<D>>),
    Exists(HashNode<ClassicalLogicalExpression<D>>),
    DomainContent(HashNode<D>),
    BooleanConstant(BinaryTruth),
}

/// The stores of the logical layer: one for formulas, and those of the domain.
pub struct LogicalStorage<D: DomainContent> {
    pub logical_storage: NodeStorage<ClassicalLogicalExpression<D>>,
    pub domain_storage: D::Storage,
}

impl<D: DomainContent> LogicalStorage<D> {
    /// Both parts of `after` extend those of `before`.
    pub open spec fn extends(before: Self, after: Self) -> bool {
        &&& NodeStorage::<ClassicalLogicalExpression<D>>::extends(
            before.logical_storage@,
            after.logical_storage@,
        )
        &&& D::storage_extends(before.domain_storage, after.domain_storage)
    }

    /// A storage extends itself, and extending twice extends.
    pub proof fn lemma_extends(a: Self, b: Self, c: Self)
        ensures
            Self::extends(a, a),
            Self::extends(a, b) && Self::extends(b, c) ==> Self::extends(a, c),
    {
        NodeStorage::<ClassicalLogicalExpression<D>>::lemma_extends_chain(
            a.logical_storage@,
            b.logical_storage@,
            c.logical_storage@,
        );
        D::lemma_storage_extends(a.domain_storage, a.domain_storage, a.domain_storage);
        D::lemma_storage_extends(a.domain_storage, b.domain_storage, c.domain_storage);
    }

    /// A storage for formulas over the given storage of the domain.
    pub fn new(domain_storage: D::Storage) -> (storage: Self)
        ensures
            storage.logical_storage@ == Map::<
                u64,
                HashNode<ClassicalLogicalExpression<D>>,
            >::empty(),
            storage.domain_storage == domain_storage,
    {
        LogicalStorage { logical_storage: NodeStorage::new(), domain_storage }
    }
}

impl<D: HashNodeInner> ClassicalLogicalExpression<D> {
    /// The opcode of a connective or quantifier, with its operands; `None` for an atom.
    pub open spec fn parts(&self) -> Option<(u64, Seq<HashNode<Self>>)> {
        match self {
            ClassicalLogicalExpression::And(l, r) => Some((OPCODE_AND, seq![*l, *r])),
            ClassicalLogicalExpression::Or(l, r) => Some((OPCODE_OR, seq![*l, *r])),
            ClassicalLogicalExpression::Not(x) => Some((OPCODE_NOT, seq![*x])),
            ClassicalLogicalExpression::Imply(l, r) => Some((OPCODE_IMPLY, seq![*l, *r])),
            ClassicalLogicalExpression::Iff(l, r) => Some((OPCODE_IFF, seq![*l, *r])),
            ClassicalLogicalExpression::ForAll(x) => Some((OPCODE_FORALL, seq![*x])),
            ClassicalLogicalExpression::Exists(x) => Some((OPCODE_EXISTS, seq![*x])),
            ClassicalLogicalExpression::DomainContent(_) => None,
            ClassicalLogicalExpression::BooleanConstant(_) => None,
        }
    }

    /// The formula with this opcode over these operands.
    pub open spec fn from_parts(opcode: u64, operands: Seq<HashNode<Self>>) -> Option<Self> {
        if operands.len() == 2 {
            if opcode == OPCODE_AND {
                Some(ClassicalLogicalExpression::And(operands[0], operands[1]))
            } else if opcode == OPCODE_OR {
                Some(ClassicalLogicalExpression::Or(operands[0], operands[1]))
            } else if opcode == OPCODE_IMPLY {
                Some(ClassicalLogicalExpression::Imply(operands[0], operands[1]))
            } else if opcode == OPCODE_IFF {
                Some(ClassicalLogicalExpression::Iff(operands[0], operands[1]))
            } else {
                None
            }
        } else if operands.len() == 1 {
            if opcode == OPCODE_NOT {
                Some(ClassicalLogicalExpression::Not(operands[0]))
            } else if opcode == OPCODE_FORALL {
                Some(ClassicalLogicalExpression::ForAll(operands[0]))
            } else if opcode == OPCODE_EXISTS {
                Some(ClassicalLogicalExpression::Exists(operands[0]))
            } else {
                None
            }
        } else {
            None
        }
    }

    /// The fingerprint of a formula.
    pub open spec fn tree_hash(&self) -> u64
        decreases self,
    {
        match self {
            ClassicalLogicalExpression::And(l, r) => Hashing::spec_hash2(
                OPCODE_AND,
                l.value.tree_hash(),
                r.value.tree_hash(),
            ),
            ClassicalLogicalExpression::Or(l, r) => Hashing::spec_hash2(
                OPCODE_OR,
                l.value.tree_hash(),
                r.value.tree_hash(),
            ),
            ClassicalLogicalExpression::Not(x) => Hashing::spec_hash1(
                OPCODE_NOT,
                x.value.tree_hash(),
            ),
            ClassicalLogicalExpression::Imply(l, r) => Hashing::spec_hash2(
                OPCODE_IMPLY,
                l.value.tree_hash(),
                r.value.tree_hash(),
            ),
            ClassicalLogicalExpression::Iff(l, r) => Hashing::spec_hash2(
                OPCODE_IFF,
                l.value.tree_hash(),
                r.value.tree_hash(),
            ),
            ClassicalLogicalExpression::ForAll(x) => Hashing::spec_hash1(
                OPCODE_FORALL,
                x.value.tree_hash(),
            ),
            ClassicalLogicalExpression::Exists(x) => Hashing::spec_hash1(
                OPCODE_EXISTS,
                x.value.tree_hash(),
            ),
            ClassicalLogicalExpression::DomainContent(d) => Hashing::spec_hash1(
                OPCODE_DOMAIN_CONTENT,
                d.value.spec_hash(),
            ),
            ClassicalLogicalExpression::BooleanConstant(b) => Hashing::spec_hash1(
                OPCODE_BOOLEAN_CONSTANT,
                b.spec_hash(),
            ),
        }
    }

    /// The number of nodes of a formula, those of its statements included.
    pub open spec fn tree_size(&self) -> nat
        decreases self,
    {
        match self {
            ClassicalLogicalExpression::And(l, r) => 1 + l.value.tree_size() + r.value.tree_size(),
            ClassicalLogicalExpression::Or(l, r) => 1 + l.value.tree_size() + r.value.tree_size(),
            ClassicalLogicalExpression::Not(x) => 1 + x.value.tree_size(),
            ClassicalLogicalExpression::Imply(l, r) => 1 + l.value.tree_size()
                + r.value.tree_size(),
            ClassicalLogicalExpression::Iff(l, r) => 1 + l.value.tree_size() + r.value.tree_size(),
            ClassicalLogicalExpression::ForAll(x) => 1 + x.value.tree_size(),
            ClassicalLogicalExpression::Exists(x) => 1 + x.value.tree_size(),
            ClassicalLogicalExpression::DomainContent(d) => 1 + d.value.spec_size(),
            ClassicalLogicalExpression::BooleanConstant(_) => 1,
        }
    }

    /// The operator of a connective or quantifier.
    pub open spec fn spec_operator(&self) -> Option<ClassicalOperator> {
        match self {
            ClassicalLogicalExpression::And(..) => Some(ClassicalOperator::And),
            ClassicalLogicalExpression::Or(..) => Some(ClassicalOperator::Or),
            ClassicalLogicalExpression::Not(..) => Some(ClassicalOperator::Not),
            ClassicalLogicalExpression::Imply(..) => Some(ClassicalOperator::Implies),
            ClassicalLogicalExpression::Iff(..) => Some(ClassicalOperator::Iff),
            ClassicalLogicalExpression::ForAll(..) => Some(ClassicalOperator::Forall),
            ClassicalLogicalExpression::Exists(..) => Some(ClassicalOperator::Exists),
            ClassicalLogicalExpression::DomainContent(_) => None,
            ClassicalLogicalExpression::BooleanConstant(_) => None,
        }
    }

    /// The formula that is one statement of the domain.
    pub fn atomic(value: HashNode<D>) -> (formula: Self)
        ensures
            formula == ClassicalLogicalExpression::DomainContent(value),
    {
        ClassicalLogicalExpression::DomainContent(value)
    }

    /// The formula of `operator` over `operands`; `None` where the operator
    /// takes another number of operands, or builds no formula.
    pub fn compound(operator: ClassicalOperator, operands: Vec<HashNode<Self>>) -> (formula: Option<
        Self,
    >)
        ensures
            formula == Self::from_parts(operator.opcode(), operands@),
    {
        Self::construct_from_parts(operator.hash(), operands)
    }

    /// Whether the formula is one statement of the domain.
    pub fn is_atomic(&self) -> (b: bool)
        ensures
            b == (self is DomainContent),
    {
        matches!(self, ClassicalLogicalExpression::DomainContent(_))
    }

    /// Whether a connective or quantifier stands at the top of the formula.
    pub fn is_compound(&self) -> (b: bool)
        ensures
            b == self.spec_operator() is Some,
    {
        self.operator().is_some()
    }

    pub fn operator(&self) -> (op: Option<ClassicalOperator>)
        ensures
            op == self.spec_operator(),
    {
        match self {
            ClassicalLogicalExpression::And(..) => Some(ClassicalOperator::And),
            ClassicalLogicalExpression::Or(..) => Some(ClassicalOperator::Or),
            ClassicalLogicalExpression::Not(..) => Some(ClassicalOperator::Not),
            ClassicalLogicalExpression::Imply(..) => Some(ClassicalOperator::Implies),
            ClassicalLogicalExpression::Iff(..) => Some(ClassicalOperator::Iff),
            ClassicalLogicalExpression::ForAll(..) => Some(ClassicalOperator::Forall),
            ClassicalLogicalExpression::Exists(..) => Some(ClassicalOperator::Exists),
            ClassicalLogicalExpression::DomainContent(_) => None,
            ClassicalLogicalExpression::BooleanConstant(_) => None,
        }
    }

    pub fn operands(&self) -> (operands: Option<Vec<HashNode<Self>>>)
        ensures
            operands is Some == self.parts() is Some,
            operands matches Some(children) ==> children@ == self.parts().unwrap().1,
    {
        match self.decompose() {
            Some((_, children)) => Some(children),
            None => None,
        }
    }
}

/// Two nodes, shared, as a vector.
pub fn pair_of<T>(first: &HashNode<T>, second: &HashNode<T>) -> (both: Vec<HashNode<T>>)
    ensures
        both@ == seq![*first, *second],
{
    let mut both: Vec<HashNode<T>> = Vec::new();
    both.push(first.clone());
    both.push(second.clone());
    proof {
        assert(both@ =~= seq![*first, *second]);
    }
    both
}

/// One node, shared, as a vector.
pub fn single_of<T>(only: &HashNode<T>) -> (one: Vec<HashNode<T>>)
    ensures
        one@ == seq![*only],
{
    let mut one: Vec<HashNode<T>> = Vec::new();
    one.push(only.clone());
    proof {
        assert(one@ =~= seq![*only]);
    }
    one
}

impl<D: HashNodeInner> Clone for ClassicalLogicalExpression<D> {
    fn clone(&self) -> (copy: Self)
        ensures
            copy == *self,
    {
        match self {
            ClassicalLogicalExpression::And(l, r) => ClassicalLogicalExpression::And(
                l.clone(),
                r.clone(),
            ),
            ClassicalLogicalExpression::Or(l, r) => ClassicalLogicalExpression::Or(
                l.clone(),
                r.clone(),
            ),
            ClassicalLogicalExpression::Not(x) => ClassicalLogicalExpression::Not(x.clone()),
            ClassicalLogicalExpression::Imply(l, r) => ClassicalLogicalExpression::Imply(
                l.clone(),
                r.clone(),
            ),
            ClassicalLogicalExpression::Iff(l, r) => ClassicalLogicalExpression::Iff(
                l.clone(),
                r.clone(),
            ),
            ClassicalLogicalExpression::ForAll(x) => ClassicalLogicalExpression::ForAll(x.clone()),
            ClassicalLogicalExpression::Exists(x) => ClassicalLogicalExpression::Exists(x.clone()),
            ClassicalLogicalExpression::DomainContent(d) => ClassicalLogicalExpression::DomainContent(
                d.clone(),
            ),
            ClassicalLogicalExpression::BooleanConstant(b) => ClassicalLogicalExpression::BooleanConstant(
                *b,
            ),
        }
    }
}

impl<D: HashNodeInner> HashNodeInner for ClassicalLogicalExpression<D> {
    open spec fn spec_hash(&self) -> u64 {
        self.tree_hash()
    }

    open spec fn spec_size(&self) -> nat {
        self.tree_size()
    }

    proof fn lemma_size_positive(&self) {
    }

    fn hash(&self) -> (h: u64)
        decreases self,
    {
        match self {
            ClassicalLogicalExpression::And(l, r) => Hashing::hash2(
                OPCODE_AND,
                l.value.hash(),
                r.value.hash(),
            ),
            ClassicalLogicalExpression::Or(l, r) => Hashing::hash2(
                OPCODE_OR,
                l.value.hash(),
                r.value.hash(),
            ),
            ClassicalLogicalExpression::Not(x) => Hashing::hash1(OPCODE_NOT, x.value.hash()),
            ClassicalLogicalExpression::Imply(l, r) => Hashing::hash2(
                OPCODE_IMPLY,
                l.value.hash(),
                r.value.hash(),
            ),
            ClassicalLogicalExpression::Iff(l, r) => Hashing::hash2(
                OPCODE_IFF,
                l.value.hash(),
                r.value.hash(),
            ),
            ClassicalLogicalExpression::ForAll(x) => Hashing::hash1(OPCODE_FORALL, x.value.hash()),
            ClassicalLogicalExpression::Exists(x) => Hashing::hash1(OPCODE_EXISTS, x.value.hash()),
            ClassicalLogicalExpression::DomainContent(d) => Hashing::hash1(
                OPCODE_DOMAIN_CONTENT,
                d.value.hash(),
            ),
            ClassicalLogicalExpression::BooleanConstant(b) => Hashing::hash1(
                OPCODE_BOOLEAN_CONSTANT,
                b.hash(),
            ),
        }
    }

    fn size(&self) -> (s: u64)
        decreases self,
    {
        match self {
            ClassicalLogicalExpression::And(l, r)
            | ClassicalLogicalExpression::Or(l, r)
            | ClassicalLogicalExpression::Imply(l, r)
            | ClassicalLogicalExpression::Iff(l, r) => {
                let a = l.value.size();
                let b = r.value.size();
                proof {
                    lemma_saturated_add(l.value.tree_size(), r.value.tree_size());
                    lemma_saturated_add(1, l.value.tree_size() + r.value.tree_size());
                }
                1u64.saturating_add(a.saturating_add(b))
            },
            ClassicalLogicalExpression::Not(x)
            | ClassicalLogicalExpression::ForAll(x)
            | ClassicalLogicalExpression::Exists(x) => {
                let a = x.value.size();
                proof {
                    lemma_saturated_add(1, x.value.tree_size());
                }
                1u64.saturating_add(a)
            },
            ClassicalLogicalExpression::DomainContent(d) => {
                let a = d.value.size();
                proof {
                    lemma_saturated_add(1, d.value.spec_size());
                }
                1u64.saturating_add(a)
            },
            ClassicalLogicalExpression::BooleanConstant(_) => 1,
        }
    }

    fn same(&self, other: &Self) -> (b: bool)
        decreases self,
    {
        match (self, other) {
            (ClassicalLogicalExpression::And(l, r), ClassicalLogicalExpression::And(ol, or)) => {
                l.value.same(&ol.value) && r.value.same(&or.value)
            },
            (ClassicalLogicalExpression::Or(l, r), ClassicalLogicalExpression::Or(ol, or)) => {
                l.value.same(&ol.value) && r.value.same(&or.value)
            },
            (ClassicalLogicalExpression::Imply(l, r), ClassicalLogicalExpression::Imply(ol, or)) => {
                l.value.same(&ol.value) && r.value.same(&or.value)
            },
            (ClassicalLogicalExpression::Iff(l, r), ClassicalLogicalExpression::Iff(ol, or)) => {
                l.value.same(&ol.value) && r.value.same(&or.value)
            },
            (ClassicalLogicalExpression::Not(x), ClassicalLogicalExpression::Not(ox)) => {
                x.value.same(&ox.value)
            },
            (ClassicalLogicalExpression::ForAll(x), ClassicalLogicalExpression::ForAll(ox)) => {
                x.value.same(&ox.value)
            },
            (ClassicalLogicalExpression::Exists(x), ClassicalLogicalExpression::Exists(ox)) => {
                x.value.same(&ox.value)
            },
            (
                ClassicalLogicalExpression::DomainContent(d),
                ClassicalLogicalExpression::DomainContent(od),
            ) => d.value.same(&od.value),
            (
                ClassicalLogicalExpression::BooleanConstant(b),
                ClassicalLogicalExpression::BooleanConstant(ob),
            ) => *b == *ob,
            _ => false,
        }
    }

    fn duplicate(&self) -> (copy: Self) {
        self.clone()
    }

    open spec fn spec_decompose(&self) -> Option<(u64, Seq<HashNode<Self>>)> {
        self.parts()
    }

    open spec fn spec_construct(opcode: u64, children: Seq<HashNode<Self>>) -> Option<Self> {
        Self::from_parts(opcode, children)
    }

    proof fn lemma_decompose_construct(&self) {
    }

    proof fn lemma_construct_decompose(opcode: u64, children: Seq<HashNode<Self>>) {
        if let Some(built) = Self::spec_construct(opcode, children) {
            assert(built.spec_decompose().unwrap().1 =~= children);
        }
    }

    proof fn lemma_construct_congruent(
        opcode: u64,
        left: Seq<HashNode<Self>>,
        right: Seq<HashNode<Self>>,
    ) {
    }

    fn decompose(&self) -> (parts: Option<(u64, Vec<HashNode<Self>>)>) {
        match self {
            ClassicalLogicalExpression::And(l, r) => Some((OPCODE_AND, pair_of(l, r))),
            ClassicalLogicalExpression::Or(l, r) => Some((OPCODE_OR, pair_of(l, r))),
            ClassicalLogicalExpression::Not(x) => Some((OPCODE_NOT, single_of(x))),
            ClassicalLogicalExpression::Imply(l, r) => Some((OPCODE_IMPLY, pair_of(l, r))),
            ClassicalLogicalExpression::Iff(l, r) => Some((OPCODE_IFF, pair_of(l, r))),
            ClassicalLogicalExpression::ForAll(x) => Some((OPCODE_FORALL, single_of(x))),
            ClassicalLogicalExpression::Exists(x) => Some((OPCODE_EXISTS, single_of(x))),
            ClassicalLogicalExpression::DomainContent(_) => None,
            ClassicalLogicalExpression::BooleanConstant(_) => None,
        }
    }

    fn construct_from_parts(opcode: u64, children: Vec<HashNode<Self>>) -> (built: Option<Self>) {
        if children.len() == 2 {
            if opcode == OPCODE_AND {
                Some(ClassicalLogicalExpression::And(children[0].clone(), children[1].clone()))
            } else if opcode == OPCODE_OR {
                Some(ClassicalLogicalExpression::Or(children[0].clone(), children[1].clone()))
            } else if opcode == OPCODE_IMPLY {
                Some(ClassicalLogicalExpression::Imply(children[0].clone(), children[1].clone()))
            } else if opcode == OPCODE_IFF {
                Some(ClassicalLogicalExpression::Iff(children[0].clone(), children[1].clone()))
            } else {
                None
            }
        } else if children.len() == 1 {
            if opcode == OPCODE_NOT {
                Some(ClassicalLogicalExpression::Not(children[0].clone()))
            } else if opcode == OPCODE_FORALL {
                Some(ClassicalLogicalExpression::ForAll(children[0].clone()))
            } else if opcode == OPCODE_EXISTS {
                Some(ClassicalLogicalExpression::Exists(children[0].clone()))
            } else {
                None
            }
        } else {
            None
        }
    }
}

} // verus!
