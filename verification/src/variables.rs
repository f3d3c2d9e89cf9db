//! The variables of an expression.

use crate::nodes::{HashNode, HashNodeInner};
use crate::peano::syntax::PeanoArithmeticExpression;
use std::collections::HashSet;
use vstd::prelude::*;

verus! {

/// Finds the variables of the expressions of a domain.
pub trait VariableExtractor<T: HashNodeInner> {
    /// The indices of the variables of an expression.
    spec fn spec_variables(&self, expr: HashNode<T>) -> Set<u32>;

    fn extract_variables(&self, expr: &HashNode<T>) -> (vars: HashSet<u32>)
        ensures
            vars@ == self.spec_variables(*expr),
    ;

    /// The variables whose index is `depth` or more.
    fn extract_variables_at_depth(&self, expr: &HashNode<T>, depth: u32) -> (vars: HashSet<u32>)
        ensures
            vars@ == self.spec_variables(*expr).filter(|index: u32| index >= depth),
    ;

    /// The number of distinct variables.
    fn count_variables(&self, expr: &HashNode<T>) -> (count: usize)
        ensures
            count == self.spec_variables(*expr).len(),
    ;
}

/// The indices of the variables of a term whose index is `depth` or more.
pub open spec fn term_variables(expr: HashNode<PeanoArithmeticExpression>, depth: u32) -> Set<u32>
    decreases expr,
{
    match *expr.value {
        PeanoArithmeticExpression::Add(left, right) => term_variables(left, depth).union(
            term_variables(right, depth),
        ),
        PeanoArithmeticExpression::Successor(inner) => term_variables(inner, depth),
        PeanoArithmeticExpression::Number(_) => Set::empty(),
        PeanoArithmeticExpression::DeBruijn(index) => if index >= depth {
            Set::empty().insert(index)
        } else {
            Set::empty()
        },
    }
}

/// Filtering the variables of a term is collecting from the depth on.
pub proof fn lemma_term_variables_filter(expr: HashNode<PeanoArithmeticExpression>, depth: u32)
    ensures
        term_variables(expr, depth) == term_variables(expr, 0).filter(|index: u32| index >= depth),
    decreases expr,
{
    match *expr.value {
        PeanoArithmeticExpression::Add(left, right) => {
            lemma_term_variables_filter(left, depth);
            lemma_term_variables_filter(right, depth);
        },
        PeanoArithmeticExpression::Successor(inner) => {
            lemma_term_variables_filter(inner, depth);
        },
        _ => {},
    }
    assert(term_variables(expr, depth) =~= term_variables(expr, 0).filter(
        |index: u32| index >= depth,
    ));
}

/// Adds to `vars` the variables of a term whose index is `depth` or more.
pub fn collect_term_variables(
    expr: &HashNode<PeanoArithmeticExpression>,
    depth: u32,
    vars: &mut HashSet<u32>,
)
    ensures
        final(vars)@ == old(vars)@.union(term_variables(*expr, depth)),
    decreases expr,
{
    broadcast use vstd::std_specs::hash::group_hash_axioms;

    match &*expr.value {
        PeanoArithmeticExpression::Add(left, right) => {
            collect_term_variables(left, depth, vars);
            collect_term_variables(right, depth, vars);
            proof {
                assert(vars@ =~= old(vars)@.union(term_variables(*expr, depth)));
            }
        },
        PeanoArithmeticExpression::Successor(inner) => {
            collect_term_variables(inner, depth, vars);
        },
        PeanoArithmeticExpression::Number(_) => {
            proof {
                assert(vars@ =~= old(vars)@.union(term_variables(*expr, depth)));
            }
        },
        PeanoArithmeticExpression::DeBruijn(index) => {
            if *index >= depth {
                vars.insert(*index);
            }
            proof {
                assert(vars@ =~= old(vars)@.union(term_variables(*expr, depth)));
            }
        },
    }
}

/// Finds the variables of terms of arithmetic.
pub struct PeanoVariableExtractor;

impl VariableExtractor<PeanoArithmeticExpression> for PeanoVariableExtractor {
    open spec fn spec_variables(&self, expr: HashNode<PeanoArithmeticExpression>) -> Set<u32> {
        term_variables(expr, 0)
    }

    fn extract_variables(&self, expr: &HashNode<PeanoArithmeticExpression>) -> (vars: HashSet<u32>) {
        broadcast use vstd::std_specs::hash::group_hash_axioms;

        let mut vars: HashSet<u32> = HashSet::new();
        collect_term_variables(expr, 0, &mut vars);
        proof {
            assert(vars@ =~= term_variables(*expr, 0));
        }
        vars
    }

    fn extract_variables_at_depth(&self, expr: &HashNode<PeanoArithmeticExpression>, depth: u32) -> (vars:
        HashSet<u32>) {
        broadcast use vstd::std_specs::hash::group_hash_axioms;

        let mut vars: HashSet<u32> = HashSet::new();
        collect_term_variables(expr, depth, &mut vars);
        proof {
            lemma_term_variables_filter(*expr, depth);
            assert(vars@ =~= term_variables(*expr, depth));
        }
        vars
    }

    fn count_variables(&self, expr: &HashNode<PeanoArithmeticExpression>) -> (count: usize) {
        broadcast use vstd::std_specs::hash::group_hash_axioms;

        self.extract_variables(expr).len()
    }
}

} // verus!
