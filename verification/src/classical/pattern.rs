//! The patterns of the logical layer, and rewriting of formulas by them.

use crate::classical::expression::{
    ClassicalLogicalExpression, DomainContent, LogicalStorage,
};
use crate::nodes::{lemma_saturated_add, saturated, HashNode, HashNodeInner, Hashing};
use crate::opcodes::{
    OPCODE_AND, OPCODE_BOOLEAN_CONSTANT, OPCODE_DOMAIN_PATTERN, OPCODE_EXISTS, OPCODE_FORALL,
    OPCODE_IFF, OPCODE_IMPLY, OPCODE_NOT, OPCODE_OR, OPCODE_VARIABLE, OPCODE_WILDCARD,
};
use crate::rewriting::laws::lemma_rewrite_back;
use crate::rewriting::pattern::{merge_distinct, pattern_trees, spec_merge, Pattern, PatternTree};
use crate::rewriting::patterns::{AsRewriteRules, Rewritable};
use crate::rewriting::{
    accept_rules, all_named, optional, rebuild_into, rewrite_root, shapes_of, spec_rebuild, spec_rewrite_root,
    RewriteDirection, RewriteRule, RuleShape,
};
use crate::truth::BinaryTruth;
use std::rc::Rc;
use vstd::prelude::*;

verus! {

/// A pattern over formulas.
pub enum ClassicalLogicPattern<D: DomainContent> {
    /// Matches any formula and binds the index to it.
    Variable(u32),
    /// Matches any formula and binds nothing.
    Wildcard,
    /// Matches the connective or quantifier named by the opcode, operand by operand.
    Compound { opcode: u64, operands: Vec<ClassicalLogicPattern<D>> },
    /// Matches the truth constant.
    BooleanConstant(BinaryTruth),
    /// Matches a statement of the domain by a pattern of the domain.
    DomainPattern(D::AsPattern),
}

/// A pattern over formulas as a mathematical tree.
pub enum LogicPatternTree<D: DomainContent> {
    Variable(u32),
    Wildcard,
    Compound(u64, Seq<LogicPatternTree<D>>),
    BooleanConstant(BinaryTruth),
    DomainPattern(<D::AsPattern as View>::V),
}

/// The tree of a pattern over formulas.
pub open spec fn logic_pattern_tree<D: DomainContent>(
    pattern: &ClassicalLogicPattern<D>,
) -> LogicPatternTree<D>
    decreases pattern,
{
    match pattern {
        ClassicalLogicPattern::Variable(index) => LogicPatternTree::Variable(*index),
        ClassicalLogicPattern::Wildcard => LogicPatternTree::Wildcard,
        ClassicalLogicPattern::Compound { opcode, operands } => LogicPatternTree::Compound(
            *opcode,
            Seq::new(
                operands.len() as nat,
                |i: int|
                    if 0 <= i < operands.len() {
                        logic_pattern_tree(&operands[i])
                    } else {
                        LogicPatternTree::Wildcard
                    },
            ),
        ),
        ClassicalLogicPattern::BooleanConstant(b) => LogicPatternTree::BooleanConstant(*b),
        ClassicalLogicPattern::DomainPattern(inner) => LogicPatternTree::DomainPattern(inner@),
    }
}

impl<D: DomainContent> View for ClassicalLogicPattern<D> {
    type V = LogicPatternTree<D>;

    open spec fn view(&self) -> LogicPatternTree<D> {
        logic_pattern_tree(self)
    }
}

impl<D: DomainContent> LogicPatternTree<D> {
    /// Whether variable `index` occurs in the pattern, the patterns of the
    /// domain inside it included.
    pub open spec fn mentions(self, index: u32) -> bool
        decreases self,
    {
        match self {
            LogicPatternTree::Variable(i) => i == index,
            LogicPatternTree::Wildcard => false,
            LogicPatternTree::Compound(_, operands) => exists|k: int|
                0 <= k < operands.len() && (#[trigger] operands[k]).mentions(index),
            LogicPatternTree::BooleanConstant(_) => false,
            LogicPatternTree::DomainPattern(inner) => D::pattern_mentions(inner, index),
        }
    }

    /// The variables of the pattern, each once, in the order of their first
    /// occurrence from the left; a pattern of the domain lists its own.
    pub open spec fn vars(self) -> Seq<u32>
        decreases self, 0nat,
    {
        match self {
            LogicPatternTree::Variable(i) => seq![i],
            LogicPatternTree::Wildcard => Seq::empty(),
            LogicPatternTree::Compound(_, operands) => Self::vars_of(operands, operands.len()),
            LogicPatternTree::BooleanConstant(_) => Seq::empty(),
            LogicPatternTree::DomainPattern(inner) => D::spec_pattern_vars(inner),
        }
    }

    /// The variables of the first `n` of `operands`, each once.
    pub open spec fn vars_of(operands: Seq<LogicPatternTree<D>>, n: nat) -> Seq<u32>
        decreases operands, n,
    {
        if n == 0 || n > operands.len() {
            Seq::empty()
        } else {
            let later = operands[n - 1].vars();
            spec_merge(Self::vars_of(operands, (n - 1) as nat), later, later.len())
        }
    }

    /// Whether a wildcard occurs in the pattern, the patterns of the domain
    /// inside it included.
    pub open spec fn has_wildcard(self) -> bool
        decreases self,
    {
        match self {
            LogicPatternTree::Variable(_) => false,
            LogicPatternTree::Wildcard => true,
            LogicPatternTree::Compound(_, operands) => exists|k: int|
                0 <= k < operands.len() && (#[trigger] operands[k]).has_wildcard(),
            LogicPatternTree::BooleanConstant(_) => false,
            LogicPatternTree::DomainPattern(inner) => D::pattern_has_wildcard(inner),
        }
    }

    /// The fingerprint of a pattern: a compound mixes its opcode and the
    /// fingerprints of its operands into 1, a truth constant the opcode of
    /// truth constants and its fingerprint, a pattern of the domain the
    /// opcode of such patterns and its fingerprint; a variable mixes its
    /// index into the opcode of variables, a wildcard has the opcode of
    /// wildcards.
    pub open spec fn hash(self) -> u64
        decreases self, 0nat,
    {
        match self {
            LogicPatternTree::Variable(index) => Hashing::spec_hash1(OPCODE_VARIABLE, index as u64),
            LogicPatternTree::Wildcard => OPCODE_WILDCARD,
            LogicPatternTree::Compound(opcode, operands) => Hashing::spec_root_hash(
                1,
                seq![opcode] + Self::hashes_of(operands, operands.len()),
            ),
            LogicPatternTree::BooleanConstant(truth) => Hashing::spec_hash2(
                1,
                OPCODE_BOOLEAN_CONSTANT,
                truth.spec_hash(),
            ),
            LogicPatternTree::DomainPattern(inner) => Hashing::spec_hash2(
                1,
                OPCODE_DOMAIN_PATTERN,
                D::spec_pattern_hash(inner),
            ),
        }
    }

    /// The fingerprints of the first `n` of `operands`.
    pub open spec fn hashes_of(operands: Seq<LogicPatternTree<D>>, n: nat) -> Seq<u64>
        decreases operands, n,
    {
        if n == 0 || n > operands.len() {
            Seq::empty()
        } else {
            Self::hashes_of(operands, (n - 1) as nat).push(operands[n - 1].hash())
        }
    }

    /// The number of nodes of a pattern; a pattern of the domain counts as one.
    pub open spec fn size(self) -> nat
        decreases self, 0nat,
    {
        match self {
            LogicPatternTree::Compound(_, operands) => 1 + Self::size_of(operands, operands.len()),
            _ => 1,
        }
    }

    /// The sizes of the first `n` of `operands`, added up.
    pub open spec fn size_of(operands: Seq<LogicPatternTree<D>>, n: nat) -> nat
        decreases operands, n,
    {
        if n == 0 || n > operands.len() {
            0
        } else {
            Self::size_of(operands, (n - 1) as nat) + operands[n - 1].size()
        }
    }

    /// The pattern in the general pattern language; `None` where a pattern
    /// of the domain occurs in it.
    pub open spec fn general(self) -> Option<PatternTree<ClassicalLogicalExpression<D>>>
        decreases self, 0nat,
    {
        match self {
            LogicPatternTree::Variable(i) => Some(PatternTree::Variable(i)),
            LogicPatternTree::Wildcard => Some(PatternTree::Wildcard),
            LogicPatternTree::Compound(opcode, operands) => match Self::general_all(
                operands,
                operands.len(),
            ) {
                Some(args) => Some(PatternTree::Compound(opcode, args)),
                None => None,
            },
            LogicPatternTree::BooleanConstant(b) => Some(
                PatternTree::Constant(ClassicalLogicalExpression::BooleanConstant(b)),
            ),
            LogicPatternTree::DomainPattern(_) => None,
        }
    }

    /// `general` of the first `n` of `operands`.
    pub open spec fn general_all(operands: Seq<LogicPatternTree<D>>, n: nat) -> Option<
        Seq<PatternTree<ClassicalLogicalExpression<D>>>,
    >
        decreases operands, n,
    {
        if n == 0 || n > operands.len() {
            Some(Seq::empty())
        } else {
            match (Self::general_all(operands, (n - 1) as nat), operands[n - 1].general()) {
                (Some(before), Some(last)) => Some(before.push(last)),
                _ => None,
            }
        }
    }

    /// The general form of a row of patterns holds the general form of each.
    pub proof fn lemma_general_all(operands: Seq<LogicPatternTree<D>>, n: nat)
        requires
            n <= operands.len(),
            Self::general_all(operands, n) is Some,
        ensures
            Self::general_all(operands, n).unwrap().len() == n,
            forall|k: int|
                0 <= k < n ==> (#[trigger] operands[k]).general() == Some(
                    Self::general_all(operands, n).unwrap()[k],
                ),
        decreases n,
    {
        if n > 0 {
            Self::lemma_general_all(operands, (n - 1) as nat);
        }
    }

    /// The general form of a pattern has the variables of the pattern, and
    /// a wildcard where the pattern has one.
    pub proof fn lemma_general_keeps(self)
        requires
            self.general() is Some,
        ensures
            self.general().unwrap().has_wildcard() == self.has_wildcard(),
            forall|i: u32| self.general().unwrap().mentions(i) == self.mentions(i),
        decreases self,
    {
        match self {
            LogicPatternTree::Compound(opcode, operands) => {
                let args = Self::general_all(operands, operands.len()).unwrap();
                Self::lemma_general_all(operands, operands.len());
                assert forall|k: int| 0 <= k < operands.len() implies (#[trigger] args[k]).has_wildcard()
                    == operands[k].has_wildcard() && (forall|i: u32|
                    args[k].mentions(i) == operands[k].mentions(i)) by {
                    operands[k].lemma_general_keeps();
                }
                let general = PatternTree::Compound(opcode, args);
                assert(self.general() == Some(general));
                if self.has_wildcard() {
                    let k = choose|k: int|
                        0 <= k < operands.len() && (#[trigger] operands[k]).has_wildcard();
                    assert(general->Compound_1[k].has_wildcard());
                }
                if general.has_wildcard() {
                    let k = choose|k: int| 0 <= k < args.len() && (#[trigger] args[k]).has_wildcard();
                    assert(operands[k].has_wildcard());
                }
                assert forall|i: u32| general.mentions(i) == self.mentions(i) by {
                    if self.mentions(i) {
                        let k = choose|k: int|
                            0 <= k < operands.len() && (#[trigger] operands[k]).mentions(i);
                        assert(general->Compound_1[k].mentions(i));
                    }
                    if general.mentions(i) {
                        let k = choose|k: int| 0 <= k < args.len() && (#[trigger] args[k]).mentions(i);
                        assert(operands[k].mentions(i));
                    }
                }
            },
            _ => {},
        }
    }

    /// Once a prefix has no general form, no longer prefix has one.
    pub proof fn lemma_general_all_fails(operands: Seq<LogicPatternTree<D>>, failed: nat, n: nat)
        requires
            failed <= n <= operands.len(),
            Self::general_all(operands, failed) is None,
        ensures
            Self::general_all(operands, n) is None,
        decreases n,
    {
        if failed < n {
            Self::lemma_general_all_fails(operands, failed, (n - 1) as nat);
        }
    }
}

impl<D: DomainContent> ClassicalLogicPattern<D> {
    /// The pattern in the general pattern language; `None` where a pattern
    /// of the domain occurs in it.
    pub fn to_pattern(&self) -> (pattern: Option<Pattern<ClassicalLogicalExpression<D>>>)
        ensures
            pattern is Some == self@.general() is Some,
            pattern matches Some(p) ==> self@.general() == Some(p@),
        decreases self,
    {
        match self {
            ClassicalLogicPattern::Variable(index) => Some(Pattern::Variable(*index)),
            ClassicalLogicPattern::Wildcard => Some(Pattern::Wildcard),
            ClassicalLogicPattern::BooleanConstant(b) => Some(
                Pattern::Constant(ClassicalLogicalExpression::BooleanConstant(*b)),
            ),
            ClassicalLogicPattern::DomainPattern(_) => None,
            ClassicalLogicPattern::Compound { opcode, operands } => {
                let ghost trees = self@->Compound_1;
                let mut converted: Vec<Pattern<ClassicalLogicalExpression<D>>> = Vec::new();
                let mut i: usize = 0;
                while i < operands.len()
                    invariant
                        i <= operands.len(),
                        self is Compound,
                        self->operands == *operands,
                        self@ == LogicPatternTree::Compound(*opcode, trees),
                        trees.len() == operands.len(),
                        LogicPatternTree::general_all(trees, i as nat) == Some(
                            pattern_trees(converted@),
                        ),
                    decreases operands.len() - i,
                {
                    proof {
                        assert(decreases_to!(self => self->operands));
                        assert(decreases_to!(self => operands[i as int]));
                        assert(trees[i as int] == operands[i as int]@);
                    }
                    match operands[i].to_pattern() {
                        Some(p) => {
                            let ghost before = converted@;
                            converted.push(p);
                            proof {
                                assert(pattern_trees(converted@) =~= pattern_trees(before).push(p@));
                            }
                        },
                        None => {
                            proof {
                                LogicPatternTree::lemma_general_all_fails(
                                    trees,
                                    (i + 1) as nat,
                                    operands.len() as nat,
                                );
                            }
                            return None;
                        },
                    }
                    i += 1;
                }
                Some(Pattern::compound(*opcode, converted))
            },
        }
    }

    /// The fingerprint of the pattern.
    pub fn hash(&self) -> (h: u64)
        ensures
            h == self@.hash(),
        decreases self,
    {
        match self {
            ClassicalLogicPattern::Variable(index) => Hashing::hash1(OPCODE_VARIABLE, *index as u64),
            ClassicalLogicPattern::Wildcard => OPCODE_WILDCARD,
            ClassicalLogicPattern::BooleanConstant(truth) => Hashing::hash2(
                1,
                OPCODE_BOOLEAN_CONSTANT,
                truth.hash(),
            ),
            ClassicalLogicPattern::DomainPattern(inner) => Hashing::hash2(
                1,
                OPCODE_DOMAIN_PATTERN,
                D::pattern_hash(inner),
            ),
            ClassicalLogicPattern::Compound { opcode, operands } => {
                let ghost trees = self@->Compound_1;
                let mut all: Vec<u64> = Vec::new();
                all.push(*opcode);
                let mut i: usize = 0;
                proof {
                    assert(all@ =~= seq![*opcode] + LogicPatternTree::<D>::hashes_of(trees, 0));
                }
                while i < operands.len()
                    invariant
                        i <= operands.len(),
                        self is Compound,
                        self->operands == *operands,
                        self@ == LogicPatternTree::Compound(*opcode, trees),
                        trees.len() == operands.len(),
                        all@ == seq![*opcode] + LogicPatternTree::<D>::hashes_of(trees, i as nat),
                    decreases operands.len() - i,
                {
                    proof {
                        assert(decreases_to!(self => self->operands));
                        assert(decreases_to!(self => operands[i as int]));
                        assert(trees[i as int] == operands[i as int]@);
                    }
                    let h = operands[i].hash();
                    all.push(h);
                    proof {
                        assert(all@ =~= seq![*opcode] + LogicPatternTree::<D>::hashes_of(
                            trees,
                            (i + 1) as nat,
                        ));
                    }
                    i += 1;
                }
                Hashing::root_hash(1, all.as_slice())
            },
        }
    }

    /// The number of nodes of the pattern, held at `u64::MAX` beyond that.
    pub fn size(&self) -> (n: u64)
        ensures
            n == saturated(self@.size()),
        decreases self,
    {
        match self {
            ClassicalLogicPattern::Compound { opcode, operands } => {
                let ghost trees = self@->Compound_1;
                let mut total: u64 = 0;
                let mut i: usize = 0;
                while i < operands.len()
                    invariant
                        i <= operands.len(),
                        self is Compound,
                        self->operands == *operands,
                        self@ == LogicPatternTree::Compound(*opcode, trees),
                        trees.len() == operands.len(),
                        total == saturated(LogicPatternTree::<D>::size_of(trees, i as nat)),
                    decreases operands.len() - i,
                {
                    proof {
                        assert(decreases_to!(self => self->operands));
                        assert(decreases_to!(self => operands[i as int]));
                        assert(trees[i as int] == operands[i as int]@);
                        lemma_saturated_add(
                            LogicPatternTree::<D>::size_of(trees, i as nat),
                            trees[i as int].size(),
                        );
                    }
                    let s = operands[i].size();
                    total = total.saturating_add(s);
                    i += 1;
                }
                proof {
                    lemma_saturated_add(1, LogicPatternTree::<D>::size_of(trees, trees.len()));
                }
                1u64.saturating_add(total)
            },
            _ => 1,
        }
    }

    /// The variables of the pattern, each once, in the order of their
    /// first occurrence from the left.
    pub fn vars(&self) -> (vars: Vec<u32>)
        ensures
            vars@ == self@.vars(),
            vars@.no_duplicates(),
            forall|i: u32| vars@.contains(i) <==> self@.mentions(i),
        decreases self,
    {
        match self {
            ClassicalLogicPattern::Variable(index) => {
                let mut vars: Vec<u32> = Vec::new();
                vars.push(*index);
                proof {
                    assert(vars@ =~= seq![*index]);
                    assert(vars@[0] == *index);
                }
                vars
            },
            ClassicalLogicPattern::Wildcard => Vec::new(),
            ClassicalLogicPattern::BooleanConstant(_) => Vec::new(),
            ClassicalLogicPattern::DomainPattern(inner) => D::pattern_vars(inner),
            ClassicalLogicPattern::Compound { opcode, operands } => {
                let ghost trees = self@->Compound_1;
                let mut vars: Vec<u32> = Vec::new();
                let mut i: usize = 0;
                while i < operands.len()
                    invariant
                        i <= operands.len(),
                        self is Compound,
                        self->operands == *operands,
                        self@ == LogicPatternTree::Compound(*opcode, trees),
                        trees.len() == operands.len(),
                        vars@ == LogicPatternTree::vars_of(trees, i as nat),
                        vars@.no_duplicates(),
                        forall|x: u32|
                            #[trigger] vars@.contains(x) <==> exists|k: int|
                                0 <= k < i && (#[trigger] trees[k]).mentions(x),
                    decreases operands.len() - i,
                {
                    proof {
                        assert(decreases_to!(self => self->operands));
                        assert(decreases_to!(self => operands[i as int]));
                        assert(trees[i as int] == operands[i as int]@);
                    }
                    let ghost before = vars@;
                    let inner = operands[i].vars();
                    vars = merge_distinct(vars, &inner);
                    proof {
                        assert forall|x: u32|
                            #[trigger] vars@.contains(x) <==> exists|k: int|
                                0 <= k < i + 1 && (#[trigger] trees[k]).mentions(x) by {
                            if before.contains(x) {
                                let k = choose|k: int|
                                    0 <= k < i && (#[trigger] trees[k]).mentions(x);
                                assert(trees[k].mentions(x));
                            }
                            if inner@.contains(x) {
                                assert(trees[i as int].mentions(x));
                            }
                            if exists|k: int| 0 <= k < i + 1 && (#[trigger] trees[k]).mentions(x) {
                                let k = choose|k: int|
                                    0 <= k < i + 1 && (#[trigger] trees[k]).mentions(x);
                                if k < i {
                                    assert(trees[k].mentions(x));
                                    assert(before.contains(x));
                                } else {
                                    assert(inner@.contains(x));
                                }
                            }
                        }
                    }
                    i += 1;
                }
                vars
            },
        }
    }
}

/// Each statement of `rewrites` as a formula.
pub open spec fn wrap_statements<D: DomainContent>(rewrites: Seq<HashNode<D>>) -> Seq<
    HashNode<ClassicalLogicalExpression<D>>,
> {
    Seq::new(
        rewrites.len(),
        |i: int| HashNode::of(ClassicalLogicalExpression::DomainContent(rewrites[i])),
    )
}

/// A formula rewritten at its root. A pair of patterns of the domain
/// rewrites a statement by the domain's own rewriter; a pattern of the
/// domain and a truth constant turn a statement that the pattern matches
/// into the constant; every other pair matches and applies by the shape of
/// the formula.
pub open spec fn spec_logic_try_rewrite<D: DomainContent>(
    expr: ClassicalLogicalExpression<D>,
    from: LogicPatternTree<D>,
    to: LogicPatternTree<D>,
) -> Option<HashNode<ClassicalLogicalExpression<D>>> {
    match (from, to) {
        (LogicPatternTree::DomainPattern(inner_from), LogicPatternTree::DomainPattern(inner_to)) => {
            match expr {
                ClassicalLogicalExpression::DomainContent(statement) => {
                    match statement.value.spec_try_rewrite(inner_from, inner_to) {
                        Some(rewritten) => Some(
                            HashNode::of(ClassicalLogicalExpression::DomainContent(rewritten)),
                        ),
                        None => None,
                    }
                },
                _ => None,
            }
        },
        (LogicPatternTree::DomainPattern(inner_from), LogicPatternTree::BooleanConstant(b)) => {
            match expr {
                ClassicalLogicalExpression::DomainContent(statement) => {
                    if statement.value.spec_try_rewrite(inner_from, inner_from) is Some {
                        Some(HashNode::of(ClassicalLogicalExpression::BooleanConstant(b)))
                    } else {
                        None
                    }
                },
                _ => None,
            }
        },
        _ => match (from.general(), to.general()) {
            (Some(general_from), Some(general_to)) => spec_rewrite_root(
                HashNode::of(expr),
                general_from,
                general_to,
            ),
            _ => None,
        },
    }
}

/// The rewrite of a formula at its root, as a sequence of none or one.
pub open spec fn spec_logic_root<D: DomainContent>(
    expr: HashNode<ClassicalLogicalExpression<D>>,
    from: LogicPatternTree<D>,
    to: LogicPatternTree<D>,
) -> Seq<HashNode<ClassicalLogicalExpression<D>>> {
    optional(spec_logic_try_rewrite(*expr.value, from, to))
}

/// Every rewrite of a formula at one position: the root first, then the
/// positions inside each operand in the order of the operands. A statement
/// of the domain under a pair of patterns of the domain is rewritten at every
/// position by the domain.
pub open spec fn spec_logic_rewrites<D: DomainContent>(
    expr: HashNode<ClassicalLogicalExpression<D>>,
    from: LogicPatternTree<D>,
    to: LogicPatternTree<D>,
) -> Seq<HashNode<ClassicalLogicalExpression<D>>>
    decreases expr.spec_size(), 1nat, 0nat,
{
    let at_root = spec_logic_root(expr, from, to);
    match expr.value.parts() {
        Some((opcode, operands)) => at_root + spec_logic_rewrites_inside(
            expr,
            opcode,
            operands,
            operands.len(),
            from,
            to,
        ),
        None => match (*expr.value, from, to) {
            (
                ClassicalLogicalExpression::DomainContent(statement),
                LogicPatternTree::DomainPattern(inner_from),
                LogicPatternTree::DomainPattern(inner_to),
            ) => wrap_statements(statement.value.spec_recursive_rewrites(inner_from, inner_to)),
            _ => at_root,
        },
    }
}

/// The rewrites of `parent` inside its first `n` operands.
pub open spec fn spec_logic_rewrites_inside<D: DomainContent>(
    parent: HashNode<ClassicalLogicalExpression<D>>,
    opcode: u64,
    operands: Seq<HashNode<ClassicalLogicalExpression<D>>>,
    n: nat,
    from: LogicPatternTree<D>,
    to: LogicPatternTree<D>,
) -> Seq<HashNode<ClassicalLogicalExpression<D>>>
    decreases parent.spec_size(), 0nat, n,
{
    if n == 0 || n > operands.len() {
        Seq::empty()
    } else {
        let inner = if operands[n - 1].spec_size() < parent.spec_size() {
            spec_logic_rewrites(operands[n - 1], from, to)
        } else {
            Seq::empty()
        };
        spec_logic_rewrites_inside(parent, opcode, operands, (n - 1) as nat, from, to)
            + spec_rebuild(opcode, operands, n - 1, inner, inner.len())
    }
}

/// Rewrites a formula at its root.
pub fn logic_try_rewrite<D: DomainContent>(
    expr: &ClassicalLogicalExpression<D>,
    from: &ClassicalLogicPattern<D>,
    to: &ClassicalLogicPattern<D>,
    store: &mut LogicalStorage<D>,
) -> (rewritten: Option<HashNode<ClassicalLogicalExpression<D>>>)
    ensures
        rewritten == spec_logic_try_rewrite(*expr, from@, to@),
        LogicalStorage::<D>::extends(*old(store), *final(store)),
{
    let ghost start = *store;
    proof {
        LogicalStorage::<D>::lemma_extends(start, start, start);
    }
    match (from, to) {
        (ClassicalLogicPattern::DomainPattern(inner_from), ClassicalLogicPattern::DomainPattern(inner_to)) => {
            match expr {
                ClassicalLogicalExpression::DomainContent(statement) => {
                    match statement.value.try_rewrite(inner_from, inner_to, &mut store.domain_storage) {
                        Some(rewritten) => {
                            let ghost middle = *store;
                            let node = HashNode::from_store(
                                ClassicalLogicalExpression::DomainContent(rewritten),
                                &mut store.logical_storage,
                            );
                            proof {
                                LogicalStorage::<D>::lemma_extends(middle, middle, middle);
                                LogicalStorage::<D>::lemma_extends(start, middle, *store);
                            }
                            Some(node)
                        },
                        None => None,
                    }
                },
                _ => None,
            }
        },
        (ClassicalLogicPattern::DomainPattern(inner_from), ClassicalLogicPattern::BooleanConstant(b)) => {
            match expr {
                ClassicalLogicalExpression::DomainContent(statement) => {
                    if statement.value.try_rewrite(
                        inner_from,
                        inner_from,
                        &mut store.domain_storage,
                    ).is_some() {
                        let ghost middle = *store;
                        let node = HashNode::from_store(
                            ClassicalLogicalExpression::BooleanConstant(*b),
                            &mut store.logical_storage,
                        );
                        proof {
                            LogicalStorage::<D>::lemma_extends(middle, middle, middle);
                            LogicalStorage::<D>::lemma_extends(start, middle, *store);
                        }
                        Some(node)
                    } else {
                        None
                    }
                },
                _ => None,
            }
        },
        _ => {
            let general_from = match from.to_pattern() {
                Some(p) => p,
                None => {
                    return None;
                },
            };
            let general_to = match to.to_pattern() {
                Some(p) => p,
                None => {
                    return None;
                },
            };
            let node = HashNode::from_store(expr.clone(), &mut store.logical_storage);
            let ghost middle = *store;
            let rewritten = rewrite_root(&node, &general_from, &general_to, &mut store.logical_storage);
            proof {
                D::lemma_storage_extends(
                    start.domain_storage,
                    start.domain_storage,
                    start.domain_storage,
                );
                LogicalStorage::<D>::lemma_extends(start, middle, *store);
            }
            rewritten
        },
    }
}

/// Rewrites a formula at every position, one position at a time.
pub fn logic_rewrites<D: DomainContent>(
    expr: &HashNode<ClassicalLogicalExpression<D>>,
    from: &ClassicalLogicPattern<D>,
    to: &ClassicalLogicPattern<D>,
    store: &mut LogicalStorage<D>,
) -> (rewrites: Vec<HashNode<ClassicalLogicalExpression<D>>>)
    ensures
        rewrites@ == spec_logic_rewrites(*expr, from@, to@),
        LogicalStorage::<D>::extends(*old(store), *final(store)),
    decreases expr.spec_size(),
{
    let ghost start = *store;
    proof {
        LogicalStorage::<D>::lemma_extends(start, start, start);
    }
    match expr.value.decompose() {
        Some((opcode, operands)) => {
            let mut rewrites: Vec<HashNode<ClassicalLogicalExpression<D>>> = Vec::new();
            if let Some(at_root) = logic_try_rewrite(&expr.value, from, to, store) {
                rewrites.push(at_root);
            }
            let ghost at_root = spec_logic_root(*expr, from@, to@);
            proof {
                assert(rewrites@ =~= at_root);
                expr.value.lemma_decompose_construct();
            }
            let mut i: usize = 0;
            while i < operands.len()
                invariant
                    i <= operands.len(),
                    expr.value.parts() == Some((opcode, operands@)),
                    forall|k: int|
                        0 <= k < operands@.len() ==> (#[trigger] operands@[k]).value.spec_size()
                            < expr.value.spec_size(),
                    rewrites@ == at_root + spec_logic_rewrites_inside(
                        *expr,
                        opcode,
                        operands@,
                        i as nat,
                        from@,
                        to@,
                    ),
                    LogicalStorage::<D>::extends(start, *store),
                decreases operands.len() - i,
            {
                let ghost before = *store;
                let inner = logic_rewrites(&operands[i], from, to, store);
                let ghost middle = *store;
                rebuild_into(opcode, &operands, i, &inner, &mut rewrites, &mut store.logical_storage);
                proof {
                    D::lemma_storage_extends(
                        middle.domain_storage,
                        middle.domain_storage,
                        middle.domain_storage,
                    );
                    LogicalStorage::<D>::lemma_extends(before, middle, *store);
                    LogicalStorage::<D>::lemma_extends(start, before, *store);
                    assert(rewrites@ =~= at_root + spec_logic_rewrites_inside(
                        *expr,
                        opcode,
                        operands@,
                        (i + 1) as nat,
                        from@,
                        to@,
                    ));
                }
                i += 1;
            }
            rewrites
        },
        None => {
            match (&*expr.value, from, to) {
                (
                    ClassicalLogicalExpression::DomainContent(statement),
                    ClassicalLogicPattern::DomainPattern(inner_from),
                    ClassicalLogicPattern::DomainPattern(inner_to),
                ) => {
                    let inner = statement.value.get_recursive_rewrites(
                        inner_from,
                        inner_to,
                        &mut store.domain_storage,
                    );
                    let ghost wrapped = wrap_statements(inner@);
                    let mut rewrites: Vec<HashNode<ClassicalLogicalExpression<D>>> = Vec::new();
                    let mut j: usize = 0;
                    while j < inner.len()
                        invariant
                            j <= inner.len(),
                            wrapped == wrap_statements(inner@),
                            rewrites@ == wrapped.take(j as int),
                            LogicalStorage::<D>::extends(start, *store),
                        decreases inner.len() - j,
                    {
                        let ghost before = *store;
                        let node = HashNode::from_store(
                            ClassicalLogicalExpression::DomainContent(inner[j].clone()),
                            &mut store.logical_storage,
                        );
                        rewrites.push(node);
                        proof {
                            D::lemma_storage_extends(
                                before.domain_storage,
                                before.domain_storage,
                                before.domain_storage,
                            );
                            LogicalStorage::<D>::lemma_extends(start, before, *store);
                            assert(rewrites@ =~= wrapped.take(j + 1));
                        }
                        j += 1;
                    }
                    proof {
                        assert(wrapped.take(j as int) =~= wrapped);
                    }
                    rewrites
                },
                _ => {
                    let mut rewrites: Vec<HashNode<ClassicalLogicalExpression<D>>> = Vec::new();
                    if let Some(at_root) = logic_try_rewrite(&expr.value, from, to, store) {
                        rewrites.push(at_root);
                    }
                    proof {
                        assert(rewrites@ =~= spec_logic_root(*expr, from@, to@));
                    }
                    rewrites
                },
            }
        },
    }
}

/// The pattern that mirrors a formula: each connective and quantifier a
/// compound of its opcode, each statement the pattern of the domain, each
/// truth constant itself.
pub open spec fn spec_logic_pattern<D: DomainContent>(
    expr: ClassicalLogicalExpression<D>,
) -> LogicPatternTree<D>
    decreases expr,
{
    match expr {
        ClassicalLogicalExpression::And(l, r) => LogicPatternTree::Compound(
            OPCODE_AND,
            seq![spec_logic_pattern(*l.value), spec_logic_pattern(*r.value)],
        ),
        ClassicalLogicalExpression::Or(l, r) => LogicPatternTree::Compound(
            OPCODE_OR,
            seq![spec_logic_pattern(*l.value), spec_logic_pattern(*r.value)],
        ),
        ClassicalLogicalExpression::Not(x) => LogicPatternTree::Compound(
            OPCODE_NOT,
            seq![spec_logic_pattern(*x.value)],
        ),
        ClassicalLogicalExpression::Imply(l, r) => LogicPatternTree::Compound(
            OPCODE_IMPLY,
            seq![spec_logic_pattern(*l.value), spec_logic_pattern(*r.value)],
        ),
        ClassicalLogicalExpression::Iff(l, r) => LogicPatternTree::Compound(
            OPCODE_IFF,
            seq![spec_logic_pattern(*l.value), spec_logic_pattern(*r.value)],
        ),
        ClassicalLogicalExpression::ForAll(x) => LogicPatternTree::Compound(
            OPCODE_FORALL,
            seq![spec_logic_pattern(*x.value)],
        ),
        ClassicalLogicalExpression::Exists(x) => LogicPatternTree::Compound(
            OPCODE_EXISTS,
            seq![spec_logic_pattern(*x.value)],
        ),
        ClassicalLogicalExpression::DomainContent(statement) => LogicPatternTree::DomainPattern(
            statement.value.spec_decompose_to_pattern(),
        ),
        ClassicalLogicalExpression::BooleanConstant(b) => LogicPatternTree::BooleanConstant(b),
    }
}

/// The compound pattern of two operands.
pub fn binary_pattern<D: DomainContent>(
    opcode: u64,
    left: ClassicalLogicPattern<D>,
    right: ClassicalLogicPattern<D>,
) -> (pattern: ClassicalLogicPattern<D>)
    ensures
        pattern@ == LogicPatternTree::Compound(opcode, seq![left@, right@]),
{
    let mut operands: Vec<ClassicalLogicPattern<D>> = Vec::new();
    operands.push(left);
    operands.push(right);
    let pattern = ClassicalLogicPattern::Compound { opcode, operands };
    proof {
        assert(pattern@->Compound_1 =~= seq![left@, right@]);
    }
    pattern
}

/// The compound pattern of one operand.
pub fn unary_pattern<D: DomainContent>(opcode: u64, inner: ClassicalLogicPattern<D>) -> (pattern:
    ClassicalLogicPattern<D>)
    ensures
        pattern@ == LogicPatternTree::Compound(opcode, seq![inner@]),
{
    let mut operands: Vec<ClassicalLogicPattern<D>> = Vec::new();
    operands.push(inner);
    let pattern = ClassicalLogicPattern::Compound { opcode, operands };
    proof {
        assert(pattern@->Compound_1 =~= seq![inner@]);
    }
    pattern
}

/// The pattern that mirrors a formula.
pub fn logic_to_pattern<D: DomainContent>(
    expr: &ClassicalLogicalExpression<D>,
    store: &LogicalStorage<D>,
) -> (pattern: ClassicalLogicPattern<D>)
    ensures
        pattern@ == spec_logic_pattern(*expr),
    decreases expr,
{
    match expr {
        ClassicalLogicalExpression::And(l, r) => binary_pattern(
            OPCODE_AND,
            logic_to_pattern(&l.value, store),
            logic_to_pattern(&r.value, store),
        ),
        ClassicalLogicalExpression::Or(l, r) => binary_pattern(
            OPCODE_OR,
            logic_to_pattern(&l.value, store),
            logic_to_pattern(&r.value, store),
        ),
        ClassicalLogicalExpression::Not(x) => unary_pattern(
            OPCODE_NOT,
            logic_to_pattern(&x.value, store),
        ),
        ClassicalLogicalExpression::Imply(l, r) => binary_pattern(
            OPCODE_IMPLY,
            logic_to_pattern(&l.value, store),
            logic_to_pattern(&r.value, store),
        ),
        ClassicalLogicalExpression::Iff(l, r) => binary_pattern(
            OPCODE_IFF,
            logic_to_pattern(&l.value, store),
            logic_to_pattern(&r.value, store),
        ),
        ClassicalLogicalExpression::ForAll(x) => unary_pattern(
            OPCODE_FORALL,
            logic_to_pattern(&x.value, store),
        ),
        ClassicalLogicalExpression::Exists(x) => unary_pattern(
            OPCODE_EXISTS,
            logic_to_pattern(&x.value, store),
        ),
        ClassicalLogicalExpression::DomainContent(statement) => ClassicalLogicPattern::DomainPattern(
            statement.value.decompose_to_pattern(&store.domain_storage),
        ),
        ClassicalLogicalExpression::BooleanConstant(b) => ClassicalLogicPattern::BooleanConstant(*b),
    }
}

impl<D: DomainContent> Rewritable for ClassicalLogicalExpression<D> {
    type AsPattern = ClassicalLogicPattern<D>;

    type Storage = LogicalStorage<D>;

    open spec fn storage_extends(before: LogicalStorage<D>, after: LogicalStorage<D>) -> bool {
        LogicalStorage::<D>::extends(before, after)
    }

    proof fn lemma_storage_extends(a: LogicalStorage<D>, b: LogicalStorage<D>, c: LogicalStorage<D>) {
        LogicalStorage::<D>::lemma_extends(a, b, c);
    }

    open spec fn pattern_mentions(pattern: LogicPatternTree<D>, index: u32) -> bool {
        pattern.mentions(index)
    }

    open spec fn spec_decompose_to_pattern(&self) -> LogicPatternTree<D> {
        spec_logic_pattern(*self)
    }

    open spec fn spec_try_rewrite(&self, from: LogicPatternTree<D>, to: LogicPatternTree<D>) -> Option<
        HashNode<Self>,
    > {
        spec_logic_try_rewrite(*self, from, to)
    }

    open spec fn spec_recursive_rewrites(
        &self,
        from: LogicPatternTree<D>,
        to: LogicPatternTree<D>,
    ) -> Seq<HashNode<Self>> {
        spec_logic_rewrites(HashNode::of(*self), from, to)
    }

    fn decompose_to_pattern(&self, store: &LogicalStorage<D>) -> (pattern: ClassicalLogicPattern<D>) {
        logic_to_pattern(self, store)
    }

    fn try_rewrite(
        &self,
        from: &ClassicalLogicPattern<D>,
        to: &ClassicalLogicPattern<D>,
        store: &mut LogicalStorage<D>,
    ) -> (rewritten: Option<HashNode<Self>>) {
        logic_try_rewrite(self, from, to, store)
    }

    fn get_recursive_rewrites(
        &self,
        from: &ClassicalLogicPattern<D>,
        to: &ClassicalLogicPattern<D>,
        store: &mut LogicalStorage<D>,
    ) -> (rewrites: Vec<HashNode<Self>>) {
        let node = HashNode { value: Rc::new(self.clone()) };
        logic_rewrites(&node, from, to, store)
    }

    open spec fn spec_pattern_hash(pattern: LogicPatternTree<D>) -> u64 {
        pattern.hash()
    }

    fn pattern_hash(pattern: &ClassicalLogicPattern<D>) -> (h: u64) {
        pattern.hash()
    }

    open spec fn pattern_has_wildcard(pattern: LogicPatternTree<D>) -> bool {
        pattern.has_wildcard()
    }

    /// A pattern of the domain rewrites into a truth constant, and no truth
    /// constant into a pattern of the domain: that pair is not read backward.
    open spec fn reads_backward(from: LogicPatternTree<D>, to: LogicPatternTree<D>) -> bool {
        match (from, to) {
            (
                LogicPatternTree::DomainPattern(inner_from),
                LogicPatternTree::DomainPattern(inner_to),
            ) => D::reads_backward(inner_from, inner_to),
            (LogicPatternTree::DomainPattern(_), LogicPatternTree::BooleanConstant(_)) => false,
            _ => true,
        }
    }

    proof fn lemma_rewrite_back(&self, from: LogicPatternTree<D>, to: LogicPatternTree<D>) {
        match (from, to) {
            (
                LogicPatternTree::DomainPattern(inner_from),
                LogicPatternTree::DomainPattern(inner_to),
            ) => {
                match self {
                    ClassicalLogicalExpression::DomainContent(statement) => {
                        assert forall|i: u32|
                            D::pattern_mentions(inner_from, i) implies D::pattern_mentions(
                            inner_to,
                            i,
                        ) by {
                            assert(Self::pattern_mentions(from, i));
                        }
                        statement.value.lemma_rewrite_back(inner_from, inner_to);
                    },
                    _ => {},
                }
            },
            (LogicPatternTree::DomainPattern(_), LogicPatternTree::BooleanConstant(_)) => {},
            _ => {
                let general_from = from.general().unwrap();
                let general_to = to.general().unwrap();
                from.lemma_general_keeps();
                to.lemma_general_keeps();
                let a = HashNode::of(*self);
                let b = spec_rewrite_root(a, general_from, general_to).unwrap();
                assert(HashNode::of(*b.value) == b);
                assert forall|i: u32| general_from.mentions(i) implies general_to.mentions(i) by {
                    assert(Self::pattern_mentions(from, i));
                }
                lemma_rewrite_back(general_from, general_to, a);
            },
        }
    }

    open spec fn spec_pattern_vars(pattern: LogicPatternTree<D>) -> Seq<u32> {
        pattern.vars()
    }

    fn pattern_vars(pattern: &ClassicalLogicPattern<D>) -> (vars: Vec<u32>) {
        pattern.vars()
    }
}

/// The rules that a formula lowers into as an axiom. Universal quantifiers
/// are stripped and the indices they bound become the variables of the rules.
/// A biconditional gives one rule in both directions; an implication gives
/// one forward rule; a negation gives one forward rule from its operand to
/// false; a statement of the domain gives, where it equates two terms, one
/// rule in both directions between the terms, and one forward rule from the
/// statement to true; an existential gives nothing; a conjunction and a
/// disjunction give the rules of their operands.
pub open spec fn spec_logic_rules<D: DomainContent>(expr: ClassicalLogicalExpression<D>) -> Seq<
    RuleShape<LogicPatternTree<D>>,
>
    decreases expr,
{
    match expr {
        ClassicalLogicalExpression::ForAll(body) => spec_logic_rules(*body.value),
        ClassicalLogicalExpression::Iff(l, r) => seq![
            RuleShape {
                pattern: spec_logic_pattern(*l.value),
                replacement: spec_logic_pattern(*r.value),
                direction: RewriteDirection::Both,
            },
        ],
        ClassicalLogicalExpression::Imply(l, r) => seq![
            RuleShape {
                pattern: spec_logic_pattern(*l.value),
                replacement: spec_logic_pattern(*r.value),
                direction: RewriteDirection::Forward,
            },
        ],
        ClassicalLogicalExpression::Not(x) => seq![
            RuleShape {
                pattern: spec_logic_pattern(*x.value),
                replacement: LogicPatternTree::BooleanConstant(BinaryTruth::False),
                direction: RewriteDirection::Forward,
            },
        ],
        ClassicalLogicalExpression::DomainContent(statement) => {
            let truth = RuleShape {
                pattern: LogicPatternTree::DomainPattern(
                    statement.value.spec_decompose_to_pattern(),
                ),
                replacement: LogicPatternTree::BooleanConstant(BinaryTruth::True),
                direction: RewriteDirection::Forward,
            };
            match statement.value.spec_equation_sides() {
                Some((left, right)) => seq![
                    RuleShape {
                        pattern: LogicPatternTree::DomainPattern(left),
                        replacement: LogicPatternTree::DomainPattern(right),
                        direction: RewriteDirection::Both,
                    },
                    truth,
                ],
                None => seq![truth],
            }
        },
        ClassicalLogicalExpression::Exists(_) => Seq::empty(),
        ClassicalLogicalExpression::And(l, r) => spec_logic_rules(*l.value) + spec_logic_rules(
            *r.value,
        ),
        ClassicalLogicalExpression::Or(l, r) => spec_logic_rules(*l.value) + spec_logic_rules(
            *r.value,
        ),
        ClassicalLogicalExpression::BooleanConstant(_) => Seq::empty(),
    }
}

/// Appends the rules of a formula to `rules`, before any of them is held
/// to the rule-variable invariant.
pub(crate) fn collect_rules<D: DomainContent>(
    expr: &ClassicalLogicalExpression<D>,
    name: &str,
    store: &LogicalStorage<D>,
    rules: &mut Vec<RewriteRule<ClassicalLogicalExpression<D>>>,
)
    ensures
        shapes_of(final(rules)@) == shapes_of(old(rules)@) + spec_logic_rules(*expr),
        all_named(old(rules)@, name@) ==> all_named(final(rules)@, name@),
    decreases expr,
{
    let ghost before = rules@;
    match expr {
        ClassicalLogicalExpression::ForAll(body) => {
            collect_rules(&body.value, name, store, rules);
        },
        ClassicalLogicalExpression::Iff(l, r) => {
            let rule = RewriteRule::new(
                name,
                logic_to_pattern(&l.value, store),
                logic_to_pattern(&r.value, store),
                RewriteDirection::Both,
            );
            rules.push(rule);
            proof {
                assert(shapes_of(rules@) =~= shapes_of(before) + spec_logic_rules(*expr));
            }
        },
        ClassicalLogicalExpression::Imply(l, r) => {
            let rule = RewriteRule::new(
                name,
                logic_to_pattern(&l.value, store),
                logic_to_pattern(&r.value, store),
                RewriteDirection::Forward,
            );
            rules.push(rule);
            proof {
                assert(shapes_of(rules@) =~= shapes_of(before) + spec_logic_rules(*expr));
            }
        },
        ClassicalLogicalExpression::Not(x) => {
            let rule = RewriteRule::new(
                name,
                logic_to_pattern(&x.value, store),
                ClassicalLogicPattern::BooleanConstant(BinaryTruth::False),
                RewriteDirection::Forward,
            );
            rules.push(rule);
            proof {
                assert(shapes_of(rules@) =~= shapes_of(before) + spec_logic_rules(*expr));
            }
        },
        ClassicalLogicalExpression::DomainContent(statement) => {
            if let Some((left, right)) = statement.value.equation_sides(&store.domain_storage) {
                let rule = RewriteRule::new(
                    name,
                    ClassicalLogicPattern::DomainPattern(left),
                    ClassicalLogicPattern::DomainPattern(right),
                    RewriteDirection::Both,
                );
                rules.push(rule);
            }
            let truth = RewriteRule::new(
                name,
                ClassicalLogicPattern::DomainPattern(
                    statement.value.decompose_to_pattern(&store.domain_storage),
                ),
                ClassicalLogicPattern::BooleanConstant(BinaryTruth::True),
                RewriteDirection::Forward,
            );
            rules.push(truth);
            proof {
                assert(shapes_of(rules@) =~= shapes_of(before) + spec_logic_rules(*expr));
            }
        },
        ClassicalLogicalExpression::Exists(_) => {
            proof {
                assert(shapes_of(rules@) =~= shapes_of(before) + spec_logic_rules(*expr));
            }
        },
        ClassicalLogicalExpression::And(l, r) => {
            collect_rules(&l.value, name, store, rules);
            collect_rules(&r.value, name, store, rules);
            proof {
                assert(shapes_of(rules@) =~= shapes_of(before) + spec_logic_rules(*expr));
            }
        },
        ClassicalLogicalExpression::Or(l, r) => {
            collect_rules(&l.value, name, store, rules);
            collect_rules(&r.value, name, store, rules);
            proof {
                assert(shapes_of(rules@) =~= shapes_of(before) + spec_logic_rules(*expr));
            }
        },
        ClassicalLogicalExpression::BooleanConstant(_) => {
            proof {
                assert(shapes_of(rules@) =~= shapes_of(before) + spec_logic_rules(*expr));
            }
        },
    }
}

impl<D: DomainContent> AsRewriteRules for ClassicalLogicalExpression<D> {
    open spec fn spec_rewrite_rules(&self) -> Seq<RuleShape<LogicPatternTree<D>>> {
        spec_logic_rules(*self)
    }

    fn decompose_to_rewrite_rules(&self, name: &str, store: &LogicalStorage<D>) -> (rules: Vec<
        RewriteRule<Self>,
    >) {
        let mut rules: Vec<RewriteRule<Self>> = Vec::new();
        collect_rules(self, name, store, &mut rules);
        proof {
            assert(shapes_of(Seq::<RewriteRule<Self>>::empty()) =~= Seq::empty());
            assert(shapes_of(rules@) =~= spec_logic_rules(*self));
        }
        match accept_rules(rules) {
            Ok(kept) => kept,
            Err(_) => {
                let none: Vec<RewriteRule<Self>> = Vec::new();
                proof {
                    assert(shapes_of(none@) =~= Seq::empty());
                }
                none
            },
        }
    }
}

} // verus!
