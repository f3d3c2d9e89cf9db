//! Formulas over the content of a domain: operators over operands, with
//! content of the domain at the leaves.

use crate::logic::LogicalOperator;
use crate::nodes::{lemma_saturated_add, saturated, HashNode, HashNodeInner, Hashing, NodeStorage};
use crate::truth::TruthValue;
use std::marker::PhantomData;
use vstd::prelude::*;

verus! {

/// The operands of a compound, first to last. Two rows are equal exactly
/// when they hold equal operands in the same order.
pub enum Operands<E> {
    End,
    More(HashNode<E>, Box<Operands<E>>),
}

impl<E> Operands<E> {
    /// The operands as a sequence.
    pub open spec fn seq(self) -> Seq<HashNode<E>>
        decreases self,
    {
        match self {
            Operands::End => Seq::empty(),
            Operands::More(first, rest) => seq![first] + rest.seq(),
        }
    }

    /// The row of the operands of a vector.
    pub fn from_vec(items: Vec<HashNode<E>>) -> (row: Self)
        ensures
            row.seq() == items@,
    {
        let mut row: Operands<E> = Operands::End;
        let mut i: usize = items.len();
        proof {
            assert(items@.subrange(i as int, items@.len() as int) =~= Seq::empty());
        }
        while i > 0
            invariant
                i <= items.len(),
                row.seq() == items@.subrange(i as int, items@.len() as int),
            decreases i,
        {
            i -= 1;
            let ghost rest = row.seq();
            row = Operands::More(items[i].clone(), Box::new(row));
            proof {
                assert(row.seq() =~= items@.subrange(i as int, items@.len() as int));
            }
        }
        proof {
            assert(items@.subrange(0, items@.len() as int) =~= items@);
        }
        row
    }

    /// The operands as a vector, shared.
    pub fn to_vec(&self) -> (items: Vec<HashNode<E>>)
        ensures
            items@ == self.seq(),
        decreases self,
    {
        match self {
            Operands::End => Vec::new(),
            Operands::More(first, rest) => {
                let mut items: Vec<HashNode<E>> = Vec::new();
                items.push(first.clone());
                let mut others = rest.to_vec();
                items.append(&mut others);
                proof {
                    assert(items@ =~= seq![*first] + rest.seq());
                }
                items
            },
        }
    }

    /// A copy of the row that shares the operands.
    pub fn duplicate(&self) -> (copy: Self)
        ensures
            copy == *self,
        decreases self,
    {
        match self {
            Operands::End => Operands::End,
            Operands::More(first, rest) => Operands::More(first.clone(), Box::new(rest.duplicate())),
        }
    }
}

/// A formula: content of the domain `D`, or an operator over operands.
pub enum LogicalExpression<T, D, Op> {
    Atomic(HashNode<D>),
    Compound { operator: Op, operands: Operands<LogicalExpression<T, D, Op>>, _phantom: PhantomData<T> },
}

/// A domain that names the operators of its logic.
pub trait DomainContent<T: TruthValue>: HashNodeInner {
    type Operator: LogicalOperator<T> + HashNodeInner;
}

/// Content of a domain, or a formula over it.
pub enum DomainExpression<T: TruthValue, D: DomainContent<T>> {
    Domain(HashNode<D>),
    Logical(HashNode<LogicalExpression<T, D, D::Operator>>),
}

/// The fingerprint of a formula: an atom mixes the fingerprint of its
/// content into 0, a compound mixes the fingerprints of its operator and of
/// its operands into 1.
pub open spec fn formula_hash<T, D: HashNodeInner, Op: HashNodeInner>(
    formula: LogicalExpression<T, D, Op>,
) -> u64
    decreases formula,
{
    match formula {
        LogicalExpression::Atomic(value) => Hashing::spec_hash1(0, value.spec_hash()),
        LogicalExpression::Compound { operator, operands, .. } => Hashing::spec_root_hash(
            1,
            seq![operator.spec_hash()] + formula_hashes(operands),
        ),
    }
}

/// The fingerprints of the operands of a row.
pub open spec fn formula_hashes<T, D: HashNodeInner, Op: HashNodeInner>(
    operands: Operands<LogicalExpression<T, D, Op>>,
) -> Seq<u64>
    decreases operands,
{
    match operands {
        Operands::End => Seq::empty(),
        Operands::More(first, rest) => seq![formula_hash(*first.value)] + formula_hashes(*rest),
    }
}

/// The number of nodes of a formula: one, those of its content or
/// operator, and those of its operands.
pub open spec fn formula_size<T, D: HashNodeInner, Op: HashNodeInner>(
    formula: LogicalExpression<T, D, Op>,
) -> nat
    decreases formula,
{
    match formula {
        LogicalExpression::Atomic(value) => 1 + value.spec_size(),
        LogicalExpression::Compound { operator, operands, .. } => 1 + operator.spec_size()
            + formula_sizes(operands),
    }
}

/// The sizes of the operands of a row, added up.
pub open spec fn formula_sizes<T, D: HashNodeInner, Op: HashNodeInner>(
    operands: Operands<LogicalExpression<T, D, Op>>,
) -> nat
    decreases operands,
{
    match operands {
        Operands::End => 0,
        Operands::More(first, rest) => formula_size(*first.value) + formula_sizes(*rest),
    }
}

/// The number of nodes of the formula of a node.
pub open spec fn node_size<T, D: HashNodeInner, Op: HashNodeInner>(
    node: HashNode<LogicalExpression<T, D, Op>>,
) -> nat {
    formula_size(*node.value)
}

/// Appends the fingerprints of the operands of a row to `out`.
fn push_hashes<T, D: HashNodeInner, Op: HashNodeInner>(
    operands: &Operands<LogicalExpression<T, D, Op>>,
    out: &mut Vec<u64>,
)
    ensures
        final(out)@ == old(out)@ + formula_hashes(*operands),
    decreases operands,
{
    match operands {
        Operands::End => {
            proof {
                assert(out@ =~= old(out)@ + formula_hashes(*operands));
            }
        },
        Operands::More(first, rest) => {
            let h = hash_formula(&first.value);
            out.push(h);
            push_hashes(rest, out);
            proof {
                assert(out@ =~= old(out)@ + formula_hashes(*operands));
            }
        },
    }
}

/// The fingerprint of a formula.
fn hash_formula<T, D: HashNodeInner, Op: HashNodeInner>(formula: &LogicalExpression<T, D, Op>) -> (h:
    u64)
    ensures
        h == formula_hash(*formula),
    decreases formula,
{
    match formula {
        LogicalExpression::Atomic(value) => Hashing::hash1(0, value.hash()),
        LogicalExpression::Compound { operator, operands, .. } => {
            let mut all: Vec<u64> = Vec::new();
            all.push(operator.hash());
            proof {
                assert(all@ =~= seq![operator.spec_hash()]);
            }
            push_hashes(operands, &mut all);
            Hashing::root_hash(1, all.as_slice())
        },
    }
}

/// The sizes of the operands of a row, added up and held at `u64::MAX`.
fn add_sizes<T, D: HashNodeInner, Op: HashNodeInner>(
    operands: &Operands<LogicalExpression<T, D, Op>>,
) -> (n: u64)
    ensures
        n == saturated(formula_sizes(*operands)),
    decreases operands,
{
    match operands {
        Operands::End => 0,
        Operands::More(first, rest) => {
            proof {
                lemma_saturated_add(node_size(*first), formula_sizes(**rest));
            }
            size_formula(&first.value).saturating_add(add_sizes(rest))
        },
    }
}

/// The number of nodes of a formula, held at `u64::MAX`.
fn size_formula<T, D: HashNodeInner, Op: HashNodeInner>(formula: &LogicalExpression<T, D, Op>) -> (n:
    u64)
    ensures
        n == saturated(formula_size(*formula)),
    decreases formula,
{
    match formula {
        LogicalExpression::Atomic(value) => {
            proof {
                lemma_saturated_add(1, value.spec_size());
            }
            1u64.saturating_add(value.size())
        },
        LogicalExpression::Compound { operator, operands, .. } => {
            proof {
                lemma_saturated_add(operator.spec_size(), formula_sizes(*operands));
                lemma_saturated_add(1, operator.spec_size() + formula_sizes(*operands));
            }
            1u64.saturating_add(operator.size().saturating_add(add_sizes(operands)))
        },
    }
}

/// Whether two rows hold the same operands.
fn same_operands<T, D: HashNodeInner, Op: HashNodeInner>(
    left: &Operands<LogicalExpression<T, D, Op>>,
    right: &Operands<LogicalExpression<T, D, Op>>,
) -> (b: bool)
    ensures
        b == (*left == *right),
    decreases left,
{
    match (left, right) {
        (Operands::End, Operands::End) => true,
        (Operands::More(first, rest), Operands::More(other_first, other_rest)) => {
            same_formula(&first.value, &other_first.value) && same_operands(rest, other_rest)
        },
        _ => false,
    }
}

/// Whether two formulas are the same formula.
fn same_formula<T, D: HashNodeInner, Op: HashNodeInner>(
    left: &LogicalExpression<T, D, Op>,
    right: &LogicalExpression<T, D, Op>,
) -> (b: bool)
    ensures
        b == (*left == *right),
    decreases left,
{
    match (left, right) {
        (LogicalExpression::Atomic(value), LogicalExpression::Atomic(other)) => value.value.same(
            &other.value,
        ),
        (
            LogicalExpression::Compound { operator, operands, .. },
            LogicalExpression::Compound { operator: other_operator, operands: other_operands, .. },
        ) => operator.same(other_operator) && same_operands(operands, other_operands),
        _ => false,
    }
}

impl<T, D, Op> LogicalExpression<T, D, Op> {
    /// The formula that is content of the domain.
    pub fn atomic(value: HashNode<D>) -> (formula: Self)
        ensures
            formula == LogicalExpression::<T, D, Op>::Atomic(value),
    {
        LogicalExpression::Atomic(value)
    }

    /// The formula of an operator over operands.
    pub fn compound(operator: Op, operands: Vec<HashNode<Self>>) -> (formula: Self)
        ensures
            formula is Compound,
            formula->operator == operator,
            formula->operands.seq() == operands@,
    {
        LogicalExpression::Compound {
            operator,
            operands: Operands::from_vec(operands),
            _phantom: PhantomData,
        }
    }

    pub fn is_atomic(&self) -> (b: bool)
        ensures
            b == (self is Atomic),
    {
        matches!(self, LogicalExpression::Atomic(_))
    }

    pub fn is_compound(&self) -> (b: bool)
        ensures
            b == (self is Compound),
    {
        matches!(self, LogicalExpression::Compound { .. })
    }

    pub fn operator(&self) -> (op: Option<&Op>)
        ensures
            match op {
                Some(found) => self is Compound && self->operator == *found,
                None => self is Atomic,
            },
    {
        match self {
            LogicalExpression::Compound { operator, .. } => Some(operator),
            _ => None,
        }
    }

    /// The operands of a compound, first to last.
    pub fn operands(&self) -> (found: Option<Vec<HashNode<Self>>>)
        ensures
            match found {
                Some(operands) => self is Compound && self->operands.seq() == operands@,
                None => self is Atomic,
            },
    {
        match self {
            LogicalExpression::Compound { operands, .. } => Some(operands.to_vec()),
            _ => None,
        }
    }
}

impl<T, D: HashNodeInner, Op: HashNodeInner + Copy> Clone for LogicalExpression<T, D, Op> {
    fn clone(&self) -> (copy: Self)
        ensures
            copy == *self,
    {
        match self {
            LogicalExpression::Atomic(value) => LogicalExpression::Atomic(value.clone()),
            LogicalExpression::Compound { operator, operands, .. } => LogicalExpression::Compound {
                operator: *operator,
                operands: operands.duplicate(),
                _phantom: PhantomData,
            },
        }
    }
}

impl<T, D: HashNodeInner, Op: HashNodeInner + Copy> HashNodeInner for LogicalExpression<T, D, Op> {
    open spec fn spec_hash(&self) -> u64 {
        formula_hash(*self)
    }

    open spec fn spec_size(&self) -> nat {
        formula_size(*self)
    }

    proof fn lemma_size_positive(&self) {
    }

    fn hash(&self) -> (h: u64) {
        hash_formula(self)
    }

    fn size(&self) -> (s: u64) {
        size_formula(self)
    }

    fn same(&self, other: &Self) -> (b: bool) {
        same_formula(self, other)
    }

    fn duplicate(&self) -> (copy: Self) {
        self.clone()
    }

    /// A formula does not come apart by opcode: its operator is no number.
    open spec fn spec_decompose(&self) -> Option<(u64, Seq<HashNode<Self>>)> {
        None
    }

    open spec fn spec_construct(opcode: u64, children: Seq<HashNode<Self>>) -> Option<Self> {
        None
    }

    proof fn lemma_decompose_construct(&self) {
    }

    proof fn lemma_construct_decompose(opcode: u64, children: Seq<HashNode<Self>>) {
    }

    proof fn lemma_construct_congruent(
        opcode: u64,
        left: Seq<HashNode<Self>>,
        right: Seq<HashNode<Self>>,
    ) {
    }

    fn decompose(&self) -> (parts: Option<(u64, Vec<HashNode<Self>>)>) {
        None
    }

    fn construct_from_parts(opcode: u64, children: Vec<HashNode<Self>>) -> (built: Option<Self>) {
        None
    }
}

/// Every operator in the formula has as many operands as it takes.
pub open spec fn formula_wf<T: TruthValue, Op: LogicalOperator<T>>(
    formula: LogicalExpression<T, T, Op>,
) -> bool
    decreases formula,
{
    match formula {
        LogicalExpression::Atomic(_) => true,
        LogicalExpression::Compound { operator, operands, .. } => operands.seq().len()
            == operator.spec_arity() && formulas_wf(operands),
    }
}

/// Every formula of a row is well formed.
pub open spec fn formulas_wf<T: TruthValue, Op: LogicalOperator<T>>(
    operands: Operands<LogicalExpression<T, T, Op>>,
) -> bool
    decreases operands,
{
    match operands {
        Operands::End => true,
        Operands::More(first, rest) => formula_wf(*first.value) && formulas_wf(*rest),
    }
}

/// The truth value of a formula whose atoms are truth values: an atom has
/// its own, a compound has what its operator makes of the truth values of
/// its operands.
pub open spec fn formula_value<T: TruthValue, Op: LogicalOperator<T>>(
    formula: LogicalExpression<T, T, Op>,
) -> T
    decreases formula,
{
    match formula {
        LogicalExpression::Atomic(value) => *value.value,
        LogicalExpression::Compound { operator, operands, .. } => operator.spec_apply(
            formula_values(operands),
        ),
    }
}

/// The truth values of the formulas of a row.
pub open spec fn formula_values<T: TruthValue, Op: LogicalOperator<T>>(
    operands: Operands<LogicalExpression<T, T, Op>>,
) -> Seq<T>
    decreases operands,
{
    match operands {
        Operands::End => Seq::empty(),
        Operands::More(first, rest) => seq![formula_value(*first.value)] + formula_values(*rest),
    }
}

/// One truth value for each operand.
pub proof fn lemma_formula_values_len<T: TruthValue, Op: LogicalOperator<T>>(
    operands: Operands<LogicalExpression<T, T, Op>>,
)
    ensures
        formula_values(operands).len() == operands.seq().len(),
    decreases operands,
{
    match operands {
        Operands::End => {},
        Operands::More(first, rest) => {
            lemma_formula_values_len(*rest);
        },
    }
}

/// Appends the truth values of the formulas of a row to `out`.
fn push_values<T: TruthValue + Copy, Op: LogicalOperator<T>>(
    operands: &Operands<LogicalExpression<T, T, Op>>,
    out: &mut Vec<T>,
)
    requires
        formulas_wf(*operands),
    ensures
        final(out)@ == old(out)@ + formula_values(*operands),
    decreases operands,
{
    match operands {
        Operands::End => {
            proof {
                assert(out@ =~= old(out)@ + formula_values(*operands));
            }
        },
        Operands::More(first, rest) => {
            let value = first.value.evaluate();
            out.push(value);
            push_values(rest, out);
            proof {
                assert(out@ =~= old(out)@ + formula_values(*operands));
            }
        },
    }
}

impl<T: TruthValue + Copy, Op: LogicalOperator<T>> LogicalExpression<T, T, Op> {
    /// The truth value of a formula whose atoms are truth values.
    pub fn evaluate(&self) -> (truth: T)
        requires
            formula_wf(*self),
        ensures
            truth == formula_value(*self),
        decreases self,
    {
        match self {
            LogicalExpression::Atomic(value) => *value.value,
            LogicalExpression::Compound { operator, operands, .. } => {
                let mut values: Vec<T> = Vec::new();
                push_values(operands, &mut values);
                proof {
                    assert(values@ =~= formula_values(*operands));
                    lemma_formula_values_len(*operands);
                }
                operator.apply(values.as_slice())
            },
        }
    }
}

impl<T: TruthValue, D: DomainContent<T>> DomainExpression<T, D> {
    /// The formula that stands for an expression: the formula itself, or
    /// the atom of the content of the domain.
    pub open spec fn spec_as_logical(&self) -> HashNode<LogicalExpression<T, D, D::Operator>> {
        match self {
            DomainExpression::Logical(formula) => *formula,
            DomainExpression::Domain(content) => HashNode::of(LogicalExpression::Atomic(*content)),
        }
    }

    /// The fingerprint of an expression: content of the domain mixes its
    /// fingerprint into 0, a formula mixes its fingerprint into 1.
    pub open spec fn tree_hash(&self) -> u64 {
        match self {
            DomainExpression::Domain(content) => Hashing::spec_hash1(0, content.spec_hash()),
            DomainExpression::Logical(formula) => Hashing::spec_hash1(
                1,
                formula_hash(*formula.value),
            ),
        }
    }

    /// The number of nodes of an expression: one more than what it holds.
    pub open spec fn tree_size(&self) -> nat {
        match self {
            DomainExpression::Domain(content) => 1 + content.spec_size(),
            DomainExpression::Logical(formula) => 1 + formula_size(*formula.value),
        }
    }

    pub fn domain(content: HashNode<D>) -> (expression: Self)
        ensures
            expression == DomainExpression::<T, D>::Domain(content),
    {
        DomainExpression::Domain(content)
    }

    pub fn logical(expr: HashNode<LogicalExpression<T, D, D::Operator>>) -> (expression: Self)
        ensures
            expression == DomainExpression::<T, D>::Logical(expr),
    {
        DomainExpression::Logical(expr)
    }

    pub fn is_domain(&self) -> (b: bool)
        ensures
            b == (self is Domain),
    {
        matches!(self, DomainExpression::Domain(_))
    }

    pub fn is_logical(&self) -> (b: bool)
        ensures
            b == (self is Logical),
    {
        matches!(self, DomainExpression::Logical(_))
    }

    pub fn as_domain(&self) -> (content: Option<&HashNode<D>>)
        ensures
            match content {
                Some(found) => *self == DomainExpression::<T, D>::Domain(*found),
                None => self is Logical,
            },
    {
        match self {
            DomainExpression::Domain(content) => Some(content),
            _ => None,
        }
    }
}

impl<T: TruthValue, D: DomainContent<T>> DomainExpression<T, D> where D::Operator: Copy {
    /// The expression as a formula: a formula is handed back as it is and
    /// the store is left alone; content of the domain becomes its atom,
    /// interned in the store.
    pub fn as_logical(&self, storage: &mut NodeStorage<LogicalExpression<T, D, D::Operator>>) -> (formula:
        HashNode<LogicalExpression<T, D, D::Operator>>)
        ensures
            formula == self.spec_as_logical(),
            self is Logical ==> final(storage)@ == old(storage)@,
            self is Domain ==> final(storage)@ == NodeStorage::<
                LogicalExpression<T, D, D::Operator>,
            >::spec_intern(old(storage)@, LogicalExpression::Atomic(self->Domain_0)),
            NodeStorage::<LogicalExpression<T, D, D::Operator>>::extends(
                old(storage)@,
                final(storage)@,
            ),
    {
        match self {
            DomainExpression::Logical(expr) => expr.clone(),
            DomainExpression::Domain(domain) => HashNode::from_store(
                LogicalExpression::atomic(domain.clone()),
                storage,
            ),
        }
    }

    /// The fingerprint of the expression.
    pub fn hash(&self) -> (h: u64)
        ensures
            h == self.tree_hash(),
    {
        match self {
            DomainExpression::Domain(content) => Hashing::hash1(0, content.hash()),
            DomainExpression::Logical(formula) => Hashing::hash1(1, formula.hash()),
        }
    }

    /// The number of nodes of the expression, held at `u64::MAX` beyond that.
    pub fn size(&self) -> (n: u64)
        ensures
            n == saturated(self.tree_size()),
    {
        match self {
            DomainExpression::Domain(content) => {
                proof {
                    lemma_saturated_add(1, content.spec_size());
                }
                1u64.saturating_add(content.size())
            },
            DomainExpression::Logical(formula) => {
                proof {
                    lemma_saturated_add(1, node_size(*formula));
                }
                1u64.saturating_add(formula.size())
            },
        }
    }
}

} // verus!
