//! Logical operators and sets of them.

use crate::truth::TruthValue;
use vstd::prelude::*;

verus! {

/// Whether two texts are the same.
pub fn same_text(a: &str, b: &str) -> (same: bool)
    ensures
        same == (a@ == b@),
{
    a.to_owned() == b.to_owned()
}

/// An operator of a logic over the truth values `T`.
pub trait LogicalOperator<T: TruthValue>: Sized {
    /// The symbol that the operator is written with.
    spec fn spec_symbol(&self) -> Seq<char>;

    /// The number of operands.
    spec fn spec_arity(&self) -> nat;

    /// The truth value of the operator applied to truth values.
    spec fn spec_apply(&self, operands: Seq<T>) -> T;

    fn symbol(&self) -> (s: &'static str)
        ensures
            s@ == self.spec_symbol(),
    ;

    fn arity(&self) -> (n: usize)
        ensures
            n == self.spec_arity(),
    ;

    fn apply(&self, operands: &[T]) -> (t: T)
        requires
            operands@.len() == self.spec_arity(),
        ensures
            t == self.spec_apply(operands@),
    ;

    fn is_unary(&self) -> (b: bool)
        ensures
            b == (self.spec_arity() == 1),
    {
        self.arity() == 1
    }

    fn is_binary(&self) -> (b: bool)
        ensures
            b == (self.spec_arity() == 2),
    {
        self.arity() == 2
    }

    fn is_nary(&self) -> (b: bool)
        ensures
            b == (self.spec_arity() > 2),
    {
        self.arity() > 2
    }
}

/// The operators of a logic, in the order in which they were added.
pub struct LogicalOperatorSet<T: TruthValue, Op: LogicalOperator<T>> {
    operators: Vec<Op>,
    _phantom: std::marker::PhantomData<T>,
}

impl<T: TruthValue, Op: LogicalOperator<T>> View for LogicalOperatorSet<T, Op> {
    type V = Seq<Op>;

    closed spec fn view(&self) -> Seq<Op> {
        self.operators@
    }
}

impl<T: TruthValue, Op: LogicalOperator<T>> LogicalOperatorSet<T, Op> {
    /// The first operator at or behind position `from` that is written with `symbol`.
    pub open spec fn spec_find(&self, symbol: Seq<char>, from: nat) -> Option<&Op>
        decreases self@.len() - from,
    {
        if from >= self@.len() {
            None
        } else if self@[from as int].spec_symbol() == symbol {
            Some(&self@[from as int])
        } else {
            self.spec_find(symbol, from + 1)
        }
    }

    pub fn new() -> (set: Self)
        ensures
            set@ == Seq::<Op>::empty(),
    {
        Self { operators: Vec::new(), _phantom: std::marker::PhantomData }
    }

    pub fn add_operator(&mut self, operator: Op)
        ensures
            final(self)@ == old(self)@.push(operator),
    {
        self.operators.push(operator);
    }

    /// The first operator written with `symbol`.
    pub fn find_operator(&self, symbol: &str) -> (found: Option<&Op>)
        ensures
            found == self.spec_find(symbol@, 0),
    {
        let mut i: usize = 0;
        while i < self.operators.len()
            invariant
                i <= self.operators.len(),
                self.spec_find(symbol@, 0) == self.spec_find(symbol@, i as nat),
            decreases self.operators.len() - i,
        {
            if same_text(self.operators[i].symbol(), symbol) {
                return Some(&self.operators[i]);
            }
            i += 1;
        }
        None
    }

    pub fn operators(&self) -> (all: &[Op])
        ensures
            all@ == self@,
    {
        self.operators.as_slice()
    }
}

impl<T: TruthValue, Op: LogicalOperator<T>> Default for LogicalOperatorSet<T, Op> {
    fn default() -> (set: Self)
        ensures
            set@ == Seq::<Op>::empty(),
    {
        Self::new()
    }
}

} // verus!
