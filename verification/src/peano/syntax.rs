//! The expressions and patterns of Peano arithmetic.

use crate::nodes::{lemma_saturated_add, HashNode, HashNodeInner, Hashing, NodeStorage};
use crate::opcodes::{
    OPCODE_ADD, OPCODE_DEBRUIJN, OPCODE_EQUALITY, OPCODE_NUMBER, OPCODE_SUCCESSOR,
};
use crate::rewriting::pattern::{clipped, pattern_trees, spec_merge, Pattern, PatternTree};
use crate::classical::expression::{ClassicalLogicalExpression, DomainContent};
use crate::rewriting::laws::{
    lemma_apply_congruent, lemma_apply_then_match, lemma_match_then_apply, lemma_rewrite_back,
    lemma_unify_extends,
};
use crate::rewriting::patterns::Rewritable;
use crate::rewriting::substitution::Substitution;
use crate::rewriting::unifiable::{spec_unify, unify_into};
use crate::rewriting::{
    apply_substitution_to_pattern, optional, rewrite_everywhere, rewrite_root, spec_apply,
    spec_rewrite_everywhere, spec_rewrite_root,
};
use vstd::prelude::*;

verus! {

/// A formula over Peano arithmetic.
pub type PeanoLogicalExpression = ClassicalLogicalExpression<PeanoDomainExpression>;

/// A node that holds a formula over Peano arithmetic.
pub type PeanoLogicalNode = HashNode<PeanoLogicalExpression>;

/// A term of arithmetic.
#[derive(Debug)]
pub enum PeanoArithmeticExpression {
    Add(HashNode<PeanoArithmeticExpression>, HashNode<PeanoArithmeticExpression>),
    Successor(HashNode<PeanoArithmeticExpression>),
    Number(u64),
    /// A variable, named by the number of quantifiers between it and its binder.
    DeBruijn(u32),
}

/// A statement of arithmetic.
#[derive(Debug)]
pub enum PeanoDomainExpression {
    Equality(HashNode<PeanoArithmeticExpression>, HashNode<PeanoArithmeticExpression>),
}

impl PeanoArithmeticExpression {
    /// The fingerprint of a term.
    pub open spec fn tree_hash(&self) -> u64
        decreases self,
    {
        match self {
            PeanoArithmeticExpression::Add(left, right) => Hashing::spec_hash2(
                OPCODE_ADD,
                left.value.tree_hash(),
                right.value.tree_hash(),
            ),
            PeanoArithmeticExpression::Successor(inner) => Hashing::spec_hash1(
                OPCODE_SUCCESSOR,
                inner.value.tree_hash(),
            ),
            PeanoArithmeticExpression::Number(n) => Hashing::spec_hash1(OPCODE_NUMBER, *n),
            PeanoArithmeticExpression::DeBruijn(index) => Hashing::spec_hash1(
                OPCODE_DEBRUIJN,
                *index as u64,
            ),
        }
    }

    /// The number of nodes of a term.
    pub open spec fn tree_size(&self) -> nat
        decreases self,
    {
        match self {
            PeanoArithmeticExpression::Add(left, right) => 1 + left.value.tree_size()
                + right.value.tree_size(),
            PeanoArithmeticExpression::Successor(inner) => 1 + inner.value.tree_size(),
            PeanoArithmeticExpression::Number(_) => 1,
            PeanoArithmeticExpression::DeBruijn(_) => 1,
        }
    }

    /// The pattern that mirrors a term: numbers as literals, variables as
    /// pattern variables.
    pub open spec fn tree_pattern(&self) -> PatternTree<PeanoArithmeticExpression>
        decreases self,
    {
        match self {
            PeanoArithmeticExpression::Add(left, right) => PatternTree::Compound(
                OPCODE_ADD,
                seq![left.value.tree_pattern(), right.value.tree_pattern()],
            ),
            PeanoArithmeticExpression::Successor(inner) => PatternTree::Compound(
                OPCODE_SUCCESSOR,
                seq![inner.value.tree_pattern()],
            ),
            PeanoArithmeticExpression::Number(n) => PatternTree::Constant(
                PeanoArithmeticExpression::Number(*n),
            ),
            PeanoArithmeticExpression::DeBruijn(index) => PatternTree::Variable(*index),
        }
    }
}

impl Clone for PeanoArithmeticExpression {
    fn clone(&self) -> (copy: Self)
        ensures
            copy == *self,
    {
        match self {
            PeanoArithmeticExpression::Add(left, right) => PeanoArithmeticExpression::Add(
                left.clone(),
                right.clone(),
            ),
            PeanoArithmeticExpression::Successor(inner) => PeanoArithmeticExpression::Successor(
                inner.clone(),
            ),
            PeanoArithmeticExpression::Number(n) => PeanoArithmeticExpression::Number(*n),
            PeanoArithmeticExpression::DeBruijn(index) => PeanoArithmeticExpression::DeBruijn(
                *index,
            ),
        }
    }
}

impl HashNodeInner for PeanoArithmeticExpression {
    open spec fn spec_hash(&self) -> u64 {
        self.tree_hash()
    }

    open spec fn spec_size(&self) -> nat {
        self.tree_size()
    }

    proof fn lemma_size_positive(&self) {
    }

    fn hash(&self) -> (h: u64)
        decreases self,
    {
        match self {
            PeanoArithmeticExpression::Add(left, right) => Hashing::hash2(
                OPCODE_ADD,
                left.value.hash(),
                right.value.hash(),
            ),
            PeanoArithmeticExpression::Successor(inner) => Hashing::hash1(
                OPCODE_SUCCESSOR,
                inner.value.hash(),
            ),
            PeanoArithmeticExpression::Number(n) => Hashing::hash1(OPCODE_NUMBER, *n),
            PeanoArithmeticExpression::DeBruijn(index) => Hashing::hash1(
                OPCODE_DEBRUIJN,
                *index as u64,
            ),
        }
    }

    fn size(&self) -> (s: u64)
        decreases self,
    {
        match self {
            PeanoArithmeticExpression::Add(left, right) => {
                let l = left.value.size();
                let r = right.value.size();
                proof {
                    lemma_saturated_add(left.value.tree_size(), right.value.tree_size());
                    lemma_saturated_add(1, left.value.tree_size() + right.value.tree_size());
                }
                1u64.saturating_add(l.saturating_add(r))
            },
            PeanoArithmeticExpression::Successor(inner) => {
                let i = inner.value.size();
                proof {
                    lemma_saturated_add(1, inner.value.tree_size());
                }
                1u64.saturating_add(i)
            },
            PeanoArithmeticExpression::Number(_) => 1,
            PeanoArithmeticExpression::DeBruijn(_) => 1,
        }
    }

    fn same(&self, other: &Self) -> (b: bool)
        decreases self,
    {
        match (self, other) {
            (
                PeanoArithmeticExpression::Add(left, right),
                PeanoArithmeticExpression::Add(other_left, other_right),
            ) => left.value.same(&other_left.value) && right.value.same(&other_right.value),
            (
                PeanoArithmeticExpression::Successor(inner),
                PeanoArithmeticExpression::Successor(other_inner),
            ) => inner.value.same(&other_inner.value),
            (PeanoArithmeticExpression::Number(n), PeanoArithmeticExpression::Number(m)) => *n
                == *m,
            (PeanoArithmeticExpression::DeBruijn(i), PeanoArithmeticExpression::DeBruijn(j)) => *i
                == *j,
            _ => false,
        }
    }

    fn duplicate(&self) -> (copy: Self) {
        self.clone()
    }

    open spec fn spec_decompose(&self) -> Option<(u64, Seq<HashNode<Self>>)> {
        match self {
            PeanoArithmeticExpression::Add(left, right) => Some((OPCODE_ADD, seq![*left, *right])),
            PeanoArithmeticExpression::Successor(inner) => Some((OPCODE_SUCCESSOR, seq![*inner])),
            _ => None,
        }
    }

    open spec fn spec_construct(opcode: u64, children: Seq<HashNode<Self>>) -> Option<Self> {
        if opcode == OPCODE_ADD && children.len() == 2 {
            Some(PeanoArithmeticExpression::Add(children[0], children[1]))
        } else if opcode == OPCODE_SUCCESSOR && children.len() == 1 {
            Some(PeanoArithmeticExpression::Successor(children[0]))
        } else {
            None
        }
    }

    proof fn lemma_decompose_construct(&self) {
    }

    proof fn lemma_construct_decompose(opcode: u64, children: Seq<HashNode<Self>>) {
        if let Some(built) = Self::spec_construct(opcode, children) {
            assert(built.spec_decompose().unwrap().1 =~= children);
        }
    }

    proof fn lemma_construct_congruent(
        opcode: u64,
        left: Seq<HashNode<Self>>,
        right: Seq<HashNode<Self>>,
    ) {
    }

    fn decompose(&self) -> (parts: Option<(u64, Vec<HashNode<Self>>)>) {
        match self {
            PeanoArithmeticExpression::Add(left, right) => {
                let mut children: Vec<HashNode<Self>> = Vec::new();
                children.push(left.clone());
                children.push(right.clone());
                proof {
                    assert(children@ =~= seq![*left, *right]);
                }
                Some((OPCODE_ADD, children))
            },
            PeanoArithmeticExpression::Successor(inner) => {
                let mut children: Vec<HashNode<Self>> = Vec::new();
                children.push(inner.clone());
                proof {
                    assert(children@ =~= seq![*inner]);
                }
                Some((OPCODE_SUCCESSOR, children))
            },
            _ => None,
        }
    }

    fn construct_from_parts(opcode: u64, children: Vec<HashNode<Self>>) -> (built: Option<Self>) {
        if opcode == OPCODE_ADD && children.len() == 2 {
            Some(PeanoArithmeticExpression::Add(children[0].clone(), children[1].clone()))
        } else if opcode == OPCODE_SUCCESSOR && children.len() == 1 {
            Some(PeanoArithmeticExpression::Successor(children[0].clone()))
        } else {
            None
        }
    }
}

impl PeanoDomainExpression {
    /// The fingerprint of a statement.
    pub open spec fn tree_hash(&self) -> u64 {
        match self {
            PeanoDomainExpression::Equality(left, right) => Hashing::spec_hash3(
                1,
                OPCODE_EQUALITY,
                left.value.tree_hash(),
                right.value.tree_hash(),
            ),
        }
    }

    /// The number of nodes of a statement.
    pub open spec fn tree_size(&self) -> nat {
        match self {
            PeanoDomainExpression::Equality(left, right) => 1 + left.value.tree_size()
                + right.value.tree_size(),
        }
    }
}

impl PeanoDomainExpression {
    /// The truth value of the statement taken alone: an equality between
    /// terms has none before it is proved.
    pub fn evaluate(&self) -> (truth: Option<crate::truth::BinaryTruth>)
        ensures
            truth is None,
    {
        None
    }
}

impl Clone for PeanoDomainExpression {
    fn clone(&self) -> (copy: Self)
        ensures
            copy == *self,
    {
        match self {
            PeanoDomainExpression::Equality(left, right) => PeanoDomainExpression::Equality(
                left.clone(),
                right.clone(),
            ),
        }
    }
}

impl HashNodeInner for PeanoDomainExpression {
    open spec fn spec_hash(&self) -> u64 {
        self.tree_hash()
    }

    open spec fn spec_size(&self) -> nat {
        self.tree_size()
    }

    proof fn lemma_size_positive(&self) {
    }

    fn hash(&self) -> (h: u64) {
        match self {
            PeanoDomainExpression::Equality(left, right) => Hashing::hash3(
                1,
                OPCODE_EQUALITY,
                left.hash(),
                right.hash(),
            ),
        }
    }

    fn size(&self) -> (s: u64) {
        match self {
            PeanoDomainExpression::Equality(left, right) => {
                let l = left.size();
                let r = right.size();
                proof {
                    lemma_saturated_add(left.value.tree_size(), right.value.tree_size());
                    lemma_saturated_add(1, left.value.tree_size() + right.value.tree_size());
                }
                1u64.saturating_add(l.saturating_add(r))
            },
        }
    }

    fn same(&self, other: &Self) -> (b: bool) {
        match (self, other) {
            (
                PeanoDomainExpression::Equality(left, right),
                PeanoDomainExpression::Equality(other_left, other_right),
            ) => left.value.same(&other_left.value) && right.value.same(&other_right.value),
        }
    }

    fn duplicate(&self) -> (copy: Self) {
        self.clone()
    }

    open spec fn spec_decompose(&self) -> Option<(u64, Seq<HashNode<Self>>)> {
        None
    }

    open spec fn spec_construct(opcode: u64, children: Seq<HashNode<Self>>) -> Option<Self> {
        None
    }

    proof fn lemma_decompose_construct(&self) {
    }

    proof fn lemma_construct_decompose(opcode: u64, children: Seq<HashNode<Self>>) {
    }

    proof fn lemma_construct_congruent(
        opcode: u64,
        left: Seq<HashNode<Self>>,
        right: Seq<HashNode<Self>>,
    ) {
    }

    fn decompose(&self) -> (parts: Option<(u64, Vec<HashNode<Self>>)>) {
        None
    }

    fn construct_from_parts(opcode: u64, children: Vec<HashNode<Self>>) -> (built: Option<Self>) {
        None
    }
}

/// A pattern over terms of arithmetic.
#[derive(Debug)]
pub enum PeanoArithmeticPattern {
    Variable(u32),
    Wildcard,
    Literal(u64),
    Compound { opcode: u64, args: Vec<PeanoArithmeticPattern> },
}

/// A pattern over statements of arithmetic, or over the terms inside them.
#[derive(Debug)]
pub enum PeanoDomainPattern {
    /// Matches an equality, side by side.
    Equality(PeanoArithmeticPattern, PeanoArithmeticPattern),
    /// Matches terms inside a statement.
    Arithmetic(PeanoArithmeticPattern),
}

/// A pattern of the domain as a mathematical tree.
pub enum PeanoDomainPatternTree {
    Equality(PatternTree<PeanoArithmeticExpression>, PatternTree<PeanoArithmeticExpression>),
    Arithmetic(PatternTree<PeanoArithmeticExpression>),
}

/// The tree of a pattern over terms; a literal is the constant of its number.
pub open spec fn arithmetic_pattern_tree(pattern: &PeanoArithmeticPattern) -> PatternTree<
    PeanoArithmeticExpression,
>
    decreases pattern,
{
    match pattern {
        PeanoArithmeticPattern::Variable(index) => PatternTree::Variable(*index),
        PeanoArithmeticPattern::Wildcard => PatternTree::Wildcard,
        PeanoArithmeticPattern::Literal(n) => PatternTree::Constant(
            PeanoArithmeticExpression::Number(*n),
        ),
        PeanoArithmeticPattern::Compound { opcode, args } => PatternTree::Compound(
            *opcode,
            Seq::new(
                args.len() as nat,
                |i: int|
                    if 0 <= i < args.len() {
                        arithmetic_pattern_tree(&args[i])
                    } else {
                        PatternTree::Wildcard
                    },
            ),
        ),
    }
}

impl View for PeanoArithmeticPattern {
    type V = PatternTree<PeanoArithmeticExpression>;

    open spec fn view(&self) -> PatternTree<PeanoArithmeticExpression> {
        arithmetic_pattern_tree(self)
    }
}

impl View for PeanoDomainPattern {
    type V = PeanoDomainPatternTree;

    open spec fn view(&self) -> PeanoDomainPatternTree {
        match self {
            PeanoDomainPattern::Equality(left, right) => PeanoDomainPatternTree::Equality(
                left@,
                right@,
            ),
            PeanoDomainPattern::Arithmetic(inner) => PeanoDomainPatternTree::Arithmetic(inner@),
        }
    }
}

impl PeanoDomainPatternTree {
    /// The fingerprint of a pattern: an equality mixes the opcode of
    /// equalities and the fingerprints of its sides into 1; a pattern over
    /// terms has the fingerprint of that pattern.
    pub open spec fn hash(self) -> u64 {
        match self {
            PeanoDomainPatternTree::Equality(left, right) => Hashing::spec_hash3(
                1,
                OPCODE_EQUALITY,
                left.hash(),
                right.hash(),
            ),
            PeanoDomainPatternTree::Arithmetic(inner) => inner.hash(),
        }
    }

    /// The number of nodes of a pattern.
    pub open spec fn size(self) -> nat {
        match self {
            PeanoDomainPatternTree::Equality(left, right) => 1 + left.size() + right.size(),
            PeanoDomainPatternTree::Arithmetic(inner) => inner.size(),
        }
    }

    /// Whether variable `index` occurs in the pattern.
    pub open spec fn mentions(self, index: u32) -> bool {
        match self {
            PeanoDomainPatternTree::Equality(left, right) => left.mentions(index) || right.mentions(
                index,
            ),
            PeanoDomainPatternTree::Arithmetic(inner) => inner.mentions(index),
        }
    }

    /// The variables of the pattern, each once: those of the left side in
    /// the order of their first occurrence, then those that the right side
    /// adds in theirs.
    pub open spec fn vars(self) -> Seq<u32> {
        match self {
            PeanoDomainPatternTree::Equality(left, right) => spec_merge(
                left.vars(),
                right.vars(),
                right.vars().len(),
            ),
            PeanoDomainPatternTree::Arithmetic(inner) => inner.vars(),
        }
    }

    /// Whether a wildcard occurs in the pattern.
    pub open spec fn has_wildcard(self) -> bool {
        match self {
            PeanoDomainPatternTree::Equality(left, right) => left.has_wildcard()
                || right.has_wildcard(),
            PeanoDomainPatternTree::Arithmetic(inner) => inner.has_wildcard(),
        }
    }
}

impl PeanoArithmeticPattern {
    /// The same pattern in the general pattern language.
    pub fn to_pattern(&self) -> (pattern: Pattern<PeanoArithmeticExpression>)
        ensures
            pattern@ == self@,
        decreases self,
    {
        match self {
            PeanoArithmeticPattern::Variable(index) => Pattern::Variable(*index),
            PeanoArithmeticPattern::Wildcard => Pattern::Wildcard,
            PeanoArithmeticPattern::Literal(n) => Pattern::Constant(
                PeanoArithmeticExpression::Number(*n),
            ),
            PeanoArithmeticPattern::Compound { opcode, args } => {
                let ghost trees = self@->Compound_1;
                let mut converted: Vec<Pattern<PeanoArithmeticExpression>> = Vec::new();
                let mut i: usize = 0;
                while i < args.len()
                    invariant
                        i <= args.len(),
                        self is Compound,
                        self->args == *args,
                        self@ == PatternTree::Compound(*opcode, trees),
                        trees.len() == args.len(),
                        converted@.len() == i,
                        forall|k: int| 0 <= k < i ==> (#[trigger] converted@[k])@ == trees[k],
                    decreases args.len() - i,
                {
                    proof {
                        assert(decreases_to!(self => self->args));
                        assert(decreases_to!(self => args[i as int]));
                        assert(trees[i as int] == args[i as int]@);
                    }
                    converted.push(args[i].to_pattern());
                    i += 1;
                }
                let pattern = Pattern::compound(*opcode, converted);
                proof {
                    assert(pattern_trees(converted@) =~= trees);
                }
                pattern
            },
        }
    }

    /// The fingerprint of the pattern.
    pub fn hash(&self) -> (h: u64)
        ensures
            h == self@.hash(),
    {
        self.to_pattern().hash()
    }

    /// The number of nodes of the pattern, held at `usize::MAX` beyond that.
    pub fn size(&self) -> (n: usize)
        ensures
            n == clipped(self@.size()),
    {
        self.to_pattern().size()
    }

    /// The variables of the pattern, each once, in the order of their first occurrence.
    pub fn vars(&self) -> (vars: Vec<u32>)
        ensures
            vars@ == self@.vars(),
            vars@.no_duplicates(),
            forall|i: u32| vars@.contains(i) <==> self@.mentions(i),
    {
        self.to_pattern().vars()
    }
}

impl PeanoDomainPattern {
    /// The fingerprint of the pattern.
    pub fn hash(&self) -> (h: u64)
        ensures
            h == self@.hash(),
    {
        match self {
            PeanoDomainPattern::Equality(left, right) => Hashing::hash3(
                1,
                OPCODE_EQUALITY,
                left.hash(),
                right.hash(),
            ),
            PeanoDomainPattern::Arithmetic(inner) => inner.hash(),
        }
    }

    /// The number of nodes of the pattern, held at `usize::MAX` beyond that.
    pub fn size(&self) -> (n: usize)
        ensures
            n == clipped(self@.size()),
    {
        match self {
            PeanoDomainPattern::Equality(left, right) => {
                left.size().saturating_add(right.size()).saturating_add(1)
            },
            PeanoDomainPattern::Arithmetic(inner) => inner.size(),
        }
    }

    /// The variables of the pattern, each once, in the order of their
    /// first occurrence from the left.
    pub fn vars(&self) -> (vars: Vec<u32>)
        ensures
            vars@ == self@.vars(),
            vars@.no_duplicates(),
            forall|i: u32| vars@.contains(i) <==> self@.mentions(i),
    {
        match self {
            PeanoDomainPattern::Arithmetic(inner) => inner.vars(),
            PeanoDomainPattern::Equality(left, right) => {
                let others = right.vars();
                crate::rewriting::pattern::merge_distinct(left.vars(), &others)
            },
        }
    }
}

/// The stores of the domain: one for terms, one for statements.
pub struct PeanoStorage {
    pub arithmetic_storage: NodeStorage<PeanoArithmeticExpression>,
    pub domain_content_storage: NodeStorage<PeanoDomainExpression>,
}

impl PeanoStorage {
    /// Both stores of `after` extend those of `before`.
    pub open spec fn extends(before: PeanoStorage, after: PeanoStorage) -> bool {
        &&& NodeStorage::<PeanoArithmeticExpression>::extends(
            before.arithmetic_storage@,
            after.arithmetic_storage@,
        )
        &&& NodeStorage::<PeanoDomainExpression>::extends(
            before.domain_content_storage@,
            after.domain_content_storage@,
        )
    }

    pub fn new() -> (storage: Self)
        ensures
            storage.arithmetic_storage@ == Map::<u64, HashNode<PeanoArithmeticExpression>>::empty(),
            storage.domain_content_storage@ == Map::<u64, HashNode<PeanoDomainExpression>>::empty(),
    {
        PeanoStorage {
            arithmetic_storage: NodeStorage::new(),
            domain_content_storage: NodeStorage::new(),
        }
    }
}

impl Default for PeanoStorage {
    fn default() -> (storage: Self)
        ensures
            storage.arithmetic_storage@ == Map::<u64, HashNode<PeanoArithmeticExpression>>::empty(),
            storage.domain_content_storage@ == Map::<u64, HashNode<PeanoDomainExpression>>::empty(),
    {
        Self::new()
    }
}

/// The pattern that mirrors a term.
pub fn arithmetic_to_pattern(term: &PeanoArithmeticExpression) -> (pattern: PeanoArithmeticPattern)
    ensures
        pattern@ == term.tree_pattern(),
    decreases term,
{
    match term {
        PeanoArithmeticExpression::Add(left, right) => {
            let l = arithmetic_to_pattern(&left.value);
            let r = arithmetic_to_pattern(&right.value);
            let mut args: Vec<PeanoArithmeticPattern> = Vec::new();
            args.push(l);
            args.push(r);
            let pattern = PeanoArithmeticPattern::Compound { opcode: OPCODE_ADD, args };
            proof {
                assert(pattern@->Compound_1 =~= seq![
                    left.value.tree_pattern(),
                    right.value.tree_pattern(),
                ]);
            }
            pattern
        },
        PeanoArithmeticExpression::Successor(inner) => {
            let i = arithmetic_to_pattern(&inner.value);
            let mut args: Vec<PeanoArithmeticPattern> = Vec::new();
            args.push(i);
            let pattern = PeanoArithmeticPattern::Compound { opcode: OPCODE_SUCCESSOR, args };
            proof {
                assert(pattern@->Compound_1 =~= seq![inner.value.tree_pattern()]);
            }
            pattern
        },
        PeanoArithmeticExpression::Number(n) => PeanoArithmeticPattern::Literal(*n),
        PeanoArithmeticExpression::DeBruijn(index) => PeanoArithmeticPattern::Variable(*index),
    }
}

impl Rewritable for PeanoArithmeticExpression {
    type AsPattern = PeanoArithmeticPattern;

    type Storage = NodeStorage<PeanoArithmeticExpression>;

    open spec fn storage_extends(before: Self::Storage, after: Self::Storage) -> bool {
        NodeStorage::<PeanoArithmeticExpression>::extends(before@, after@)
    }

    proof fn lemma_storage_extends(a: Self::Storage, b: Self::Storage, c: Self::Storage) {
        NodeStorage::<PeanoArithmeticExpression>::lemma_extends_chain(a@, b@, c@);
    }

    open spec fn pattern_mentions(pattern: PatternTree<PeanoArithmeticExpression>, index: u32) -> bool {
        pattern.mentions(index)
    }

    open spec fn spec_decompose_to_pattern(&self) -> PatternTree<PeanoArithmeticExpression> {
        self.tree_pattern()
    }

    open spec fn spec_try_rewrite(
        &self,
        from: PatternTree<PeanoArithmeticExpression>,
        to: PatternTree<PeanoArithmeticExpression>,
    ) -> Option<HashNode<Self>> {
        spec_rewrite_root(HashNode::of(*self), from, to)
    }

    open spec fn spec_recursive_rewrites(
        &self,
        from: PatternTree<PeanoArithmeticExpression>,
        to: PatternTree<PeanoArithmeticExpression>,
    ) -> Seq<HashNode<Self>> {
        spec_rewrite_everywhere(HashNode::of(*self), from, to)
    }

    fn decompose_to_pattern(&self, store: &Self::Storage) -> (pattern: PeanoArithmeticPattern) {
        arithmetic_to_pattern(self)
    }

    fn try_rewrite(
        &self,
        from: &PeanoArithmeticPattern,
        to: &PeanoArithmeticPattern,
        store: &mut Self::Storage,
    ) -> (rewritten: Option<HashNode<Self>>) {
        let ghost start = store@;
        let node = HashNode::from_store(self.clone(), store);
        let ghost middle = store@;
        let rewritten = rewrite_root(&node, &from.to_pattern(), &to.to_pattern(), store);
        proof {
            NodeStorage::<PeanoArithmeticExpression>::lemma_extends_chain(start, middle, store@);
        }
        rewritten
    }

    fn get_recursive_rewrites(
        &self,
        from: &PeanoArithmeticPattern,
        to: &PeanoArithmeticPattern,
        store: &mut Self::Storage,
    ) -> (rewrites: Vec<HashNode<Self>>) {
        let ghost start = store@;
        let node = HashNode::from_store(self.clone(), store);
        let ghost middle = store@;
        let rewrites = rewrite_everywhere(&node, &from.to_pattern(), &to.to_pattern(), store);
        proof {
            NodeStorage::<PeanoArithmeticExpression>::lemma_extends_chain(start, middle, store@);
        }
        rewrites
    }

    open spec fn spec_pattern_hash(pattern: PatternTree<PeanoArithmeticExpression>) -> u64 {
        pattern.hash()
    }

    fn pattern_hash(pattern: &PeanoArithmeticPattern) -> (h: u64) {
        pattern.hash()
    }

    open spec fn pattern_has_wildcard(pattern: PatternTree<PeanoArithmeticExpression>) -> bool {
        pattern.has_wildcard()
    }

    open spec fn reads_backward(
        from: PatternTree<PeanoArithmeticExpression>,
        to: PatternTree<PeanoArithmeticExpression>,
    ) -> bool {
        true
    }

    proof fn lemma_rewrite_back(
        &self,
        from: PatternTree<PeanoArithmeticExpression>,
        to: PatternTree<PeanoArithmeticExpression>,
    ) {
        let a = HashNode::of(*self);
        let b = spec_rewrite_root(a, from, to).unwrap();
        assert(HashNode::of(*b.value) == b);
        assert forall|i: u32| from.mentions(i) implies to.mentions(i) by {
            assert(Self::pattern_mentions(from, i));
        }
        lemma_rewrite_back(from, to, a);
    }

    open spec fn spec_pattern_vars(pattern: PatternTree<PeanoArithmeticExpression>) -> Seq<u32> {
        pattern.vars()
    }

    fn pattern_vars(pattern: &PeanoArithmeticPattern) -> (vars: Vec<u32>) {
        pattern.vars()
    }
}

impl PeanoDomainExpression {
    /// An equality rewritten by a pair of equality patterns: the left
    /// patterns against the left side, then the right ones against the right
    /// side under the same bindings.
    pub open spec fn rewrite_equation(
        &self,
        from_left: PatternTree<PeanoArithmeticExpression>,
        from_right: PatternTree<PeanoArithmeticExpression>,
        to_left: PatternTree<PeanoArithmeticExpression>,
        to_right: PatternTree<PeanoArithmeticExpression>,
    ) -> Option<HashNode<PeanoDomainExpression>> {
        match self {
            PeanoDomainExpression::Equality(left, right) => match spec_unify(
                from_left,
                *left,
                Map::empty(),
            ) {
                Err(_) => None,
                Ok(left_bound) => match spec_unify(from_right, *right, left_bound) {
                    Err(_) => None,
                    Ok(bound) => match (spec_apply(to_left, bound), spec_apply(to_right, bound)) {
                        (Some(new_left), Some(new_right)) => Some(
                            HashNode::of(PeanoDomainExpression::Equality(new_left, new_right)),
                        ),
                        _ => None,
                    },
                },
            },
        }
    }

    /// Each of `rewrites` as the left side of an equality with `right`.
    pub open spec fn with_left(
        rewrites: Seq<HashNode<PeanoArithmeticExpression>>,
        right: HashNode<PeanoArithmeticExpression>,
    ) -> Seq<HashNode<PeanoDomainExpression>> {
        Seq::new(
            rewrites.len(),
            |i: int| HashNode::of(PeanoDomainExpression::Equality(rewrites[i], right)),
        )
    }

    /// Each of `rewrites` as the right side of an equality with `left`.
    pub open spec fn with_right(
        left: HashNode<PeanoArithmeticExpression>,
        rewrites: Seq<HashNode<PeanoArithmeticExpression>>,
    ) -> Seq<HashNode<PeanoDomainExpression>> {
        Seq::new(
            rewrites.len(),
            |i: int| HashNode::of(PeanoDomainExpression::Equality(left, rewrites[i])),
        )
    }
}

impl Rewritable for PeanoDomainExpression {
    type AsPattern = PeanoDomainPattern;

    type Storage = PeanoStorage;

    open spec fn storage_extends(before: PeanoStorage, after: PeanoStorage) -> bool {
        PeanoStorage::extends(before, after)
    }

    proof fn lemma_storage_extends(a: PeanoStorage, b: PeanoStorage, c: PeanoStorage) {
        NodeStorage::<PeanoArithmeticExpression>::lemma_extends_chain(
            a.arithmetic_storage@,
            b.arithmetic_storage@,
            c.arithmetic_storage@,
        );
        NodeStorage::<PeanoDomainExpression>::lemma_extends_chain(
            a.domain_content_storage@,
            b.domain_content_storage@,
            c.domain_content_storage@,
        );
    }

    open spec fn pattern_mentions(pattern: PeanoDomainPatternTree, index: u32) -> bool {
        pattern.mentions(index)
    }

    open spec fn spec_decompose_to_pattern(&self) -> PeanoDomainPatternTree {
        match self {
            PeanoDomainExpression::Equality(left, right) => PeanoDomainPatternTree::Equality(
                left.value.tree_pattern(),
                right.value.tree_pattern(),
            ),
        }
    }

    open spec fn spec_try_rewrite(
        &self,
        from: PeanoDomainPatternTree,
        to: PeanoDomainPatternTree,
    ) -> Option<HashNode<Self>> {
        match (from, to) {
            (
                PeanoDomainPatternTree::Equality(from_left, from_right),
                PeanoDomainPatternTree::Equality(to_left, to_right),
            ) => self.rewrite_equation(from_left, from_right, to_left, to_right),
            _ => None,
        }
    }

    open spec fn spec_recursive_rewrites(
        &self,
        from: PeanoDomainPatternTree,
        to: PeanoDomainPatternTree,
    ) -> Seq<HashNode<Self>> {
        match (from, to) {
            (
                PeanoDomainPatternTree::Arithmetic(inner_from),
                PeanoDomainPatternTree::Arithmetic(inner_to),
            ) => match self {
                PeanoDomainExpression::Equality(left, right) => Self::with_left(
                    spec_rewrite_everywhere(*left, inner_from, inner_to),
                    *right,
                ) + Self::with_right(*left, spec_rewrite_everywhere(*right, inner_from, inner_to)),
            },
            _ => optional(self.spec_try_rewrite(from, to)),
        }
    }

    fn decompose_to_pattern(&self, store: &PeanoStorage) -> (pattern: PeanoDomainPattern) {
        match self {
            PeanoDomainExpression::Equality(left, right) => PeanoDomainPattern::Equality(
                arithmetic_to_pattern(&left.value),
                arithmetic_to_pattern(&right.value),
            ),
        }
    }

    fn try_rewrite(&self, from: &PeanoDomainPattern, to: &PeanoDomainPattern, store: &mut PeanoStorage) -> (rewritten:
        Option<HashNode<Self>>) {
        let ghost start = *store;
        proof {
            Self::lemma_storage_extends(start, start, start);
        }
        match (from, to) {
            (
                PeanoDomainPattern::Equality(from_l, from_r),
                PeanoDomainPattern::Equality(to_l, to_r),
            ) => {
                match self {
                    PeanoDomainExpression::Equality(l, r) => {
                        let l_subst = match unify_into(&from_l.to_pattern(), l, Substitution::new()) {
                            Ok(bound) => bound,
                            Err(_) => {
                                return None;
                            },
                        };
                        let subst = match unify_into(&from_r.to_pattern(), r, l_subst) {
                            Ok(bound) => bound,
                            Err(_) => {
                                return None;
                            },
                        };
                        let new_l = apply_substitution_to_pattern(
                            &to_l.to_pattern(),
                            &subst,
                            &mut store.arithmetic_storage,
                        );
                        let ghost middle = *store;
                        let new_r = apply_substitution_to_pattern(
                            &to_r.to_pattern(),
                            &subst,
                            &mut store.arithmetic_storage,
                        );
                        let ghost late = *store;
                        proof {
                            Self::lemma_storage_extends(start, middle, late);
                        }
                        match (new_l, new_r) {
                            (Some(new_left), Some(new_right)) => {
                                let node = HashNode::from_store(
                                    PeanoDomainExpression::Equality(new_left, new_right),
                                    &mut store.domain_content_storage,
                                );
                                proof {
                                    Self::lemma_storage_extends(start, late, *store);
                                }
                                Some(node)
                            },
                            _ => None,
                        }
                    },
                }
            },
            _ => None,
        }
    }

    fn get_recursive_rewrites(
        &self,
        from: &PeanoDomainPattern,
        to: &PeanoDomainPattern,
        store: &mut PeanoStorage,
    ) -> (rewrites: Vec<HashNode<Self>>) {
        let ghost start = *store;
        proof {
            Self::lemma_storage_extends(start, start, start);
        }
        match (from, to) {
            (PeanoDomainPattern::Arithmetic(inner_from), PeanoDomainPattern::Arithmetic(inner_to)) => {
                let PeanoDomainExpression::Equality(l, r) = self;
                let from_pattern = inner_from.to_pattern();
                let to_pattern = inner_to.to_pattern();
                let mut results: Vec<HashNode<Self>> = Vec::new();
                let lefts = rewrite_everywhere(
                    l,
                    &from_pattern,
                    &to_pattern,
                    &mut store.arithmetic_storage,
                );
                let mut i: usize = 0;
                while i < lefts.len()
                    invariant
                        i <= lefts.len(),
                        results@ == Self::with_left(lefts@, *r).take(i as int),
                        PeanoStorage::extends(start, *store),
                    decreases lefts.len() - i,
                {
                    let ghost before = *store;
                    let node = HashNode::from_store(
                        PeanoDomainExpression::Equality(lefts[i].clone(), r.clone()),
                        &mut store.domain_content_storage,
                    );
                    results.push(node);
                    proof {
                        Self::lemma_storage_extends(start, before, *store);
                        assert(results@ =~= Self::with_left(lefts@, *r).take(i + 1));
                    }
                    i += 1;
                }
                let ghost left_part = results@;
                let ghost middle = *store;
                proof {
                    assert(Self::with_left(lefts@, *r).take(i as int) =~= Self::with_left(lefts@, *r));
                }
                let rights = rewrite_everywhere(
                    r,
                    &from_pattern,
                    &to_pattern,
                    &mut store.arithmetic_storage,
                );
                proof {
                    Self::lemma_storage_extends(start, middle, *store);
                }
                let mut j: usize = 0;
                while j < rights.len()
                    invariant
                        j <= rights.len(),
                        results@ == left_part + Self::with_right(*l, rights@).take(j as int),
                        PeanoStorage::extends(start, *store),
                    decreases rights.len() - j,
                {
                    let ghost before = *store;
                    let node = HashNode::from_store(
                        PeanoDomainExpression::Equality(l.clone(), rights[j].clone()),
                        &mut store.domain_content_storage,
                    );
                    results.push(node);
                    proof {
                        Self::lemma_storage_extends(start, before, *store);
                        assert(results@ =~= left_part + Self::with_right(*l, rights@).take(j + 1));
                    }
                    j += 1;
                }
                proof {
                    assert(Self::with_right(*l, rights@).take(j as int) =~= Self::with_right(
                        *l,
                        rights@,
                    ));
                }
                results
            },
            _ => {
                let mut results: Vec<HashNode<Self>> = Vec::new();
                if let Some(rewrite) = self.try_rewrite(from, to, store) {
                    results.push(rewrite);
                }
                proof {
                    assert(results@ =~= optional(self.spec_try_rewrite(from@, to@)));
                }
                results
            },
        }
    }

    open spec fn spec_pattern_hash(pattern: PeanoDomainPatternTree) -> u64 {
        pattern.hash()
    }

    fn pattern_hash(pattern: &PeanoDomainPattern) -> (h: u64) {
        pattern.hash()
    }

    open spec fn pattern_has_wildcard(pattern: PeanoDomainPatternTree) -> bool {
        pattern.has_wildcard()
    }

    open spec fn reads_backward(from: PeanoDomainPatternTree, to: PeanoDomainPatternTree) -> bool {
        true
    }

    proof fn lemma_rewrite_back(&self, from: PeanoDomainPatternTree, to: PeanoDomainPatternTree) {
        match (self, from, to) {
            (
                PeanoDomainExpression::Equality(left, right),
                PeanoDomainPatternTree::Equality(from_left, from_right),
                PeanoDomainPatternTree::Equality(to_left, to_right),
            ) => {
                let empty = Map::<u32, HashNode<PeanoArithmeticExpression>>::empty();
                let left_bound = spec_unify(from_left, *left, empty)->Ok_0;
                let bound = spec_unify(from_right, *right, left_bound)->Ok_0;
                let new_left = spec_apply(to_left, bound).unwrap();
                let new_right = spec_apply(to_right, bound).unwrap();
                lemma_apply_then_match(to_left, bound, empty);
                let back_left = spec_unify(to_left, new_left, empty)->Ok_0;
                lemma_apply_then_match(to_right, bound, back_left);
                let back = spec_unify(to_right, new_right, back_left)->Ok_0;
                lemma_unify_extends(from_right, *right, left_bound);
                lemma_match_then_apply(from_left, *left, empty, bound);
                lemma_match_then_apply(from_right, *right, left_bound, bound);
                assert forall|i: u32|
                    from.mentions(i) implies #[trigger] back.contains_key(i) && back[i].spec_hash()
                    == bound[i].spec_hash() by {
                    assert(Self::pattern_mentions(from, i));
                    assert(to.mentions(i));
                    if to_left.mentions(i) {
                        assert(back_left.contains_key(i));
                    }
                }
                lemma_apply_congruent(from_left, bound, back);
                lemma_apply_congruent(from_right, bound, back);
            },
            _ => {},
        }
    }

    open spec fn spec_pattern_vars(pattern: PeanoDomainPatternTree) -> Seq<u32> {
        pattern.vars()
    }

    fn pattern_vars(pattern: &PeanoDomainPattern) -> (vars: Vec<u32>) {
        pattern.vars()
    }
}

impl crate::expression::DomainContent<crate::truth::BinaryTruth> for PeanoDomainExpression {
    type Operator = crate::operators::ClassicalOperator;
}

impl DomainContent for PeanoDomainExpression {
    /// An equality rewrites its left term into its right term.
    open spec fn spec_equation_sides(&self) -> Option<
        (PeanoDomainPatternTree, PeanoDomainPatternTree),
    > {
        match self {
            PeanoDomainExpression::Equality(left, right) => Some(
                (
                    PeanoDomainPatternTree::Arithmetic(left.value.tree_pattern()),
                    PeanoDomainPatternTree::Arithmetic(right.value.tree_pattern()),
                ),
            ),
        }
    }

    fn equation_sides(&self, store: &PeanoStorage) -> (sides: Option<
        (PeanoDomainPattern, PeanoDomainPattern),
    >) {
        match self {
            PeanoDomainExpression::Equality(left, right) => Some(
                (
                    PeanoDomainPattern::Arithmetic(arithmetic_to_pattern(&left.value)),
                    PeanoDomainPattern::Arithmetic(arithmetic_to_pattern(&right.value)),
                ),
            ),
        }
    }
}

} // verus!
