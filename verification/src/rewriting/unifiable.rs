//! Matching a pattern against an expression.

use crate::nodes::{HashNode, HashNodeInner, NodeStorage};
use crate::rewriting::pattern::{Pattern, PatternTree};
use crate::rewriting::substitution::Substitution;
use crate::text::{decimal, decimal_text};
use vstd::prelude::*;
use vstd::string::StringExecFns;

verus! {

/// Why a match failed.
#[derive(Debug, Clone, PartialEq)]
pub enum UnificationError {
    OccursCheck(u32, u64),
    TypeMismatch,
    CannotUnify(String),
}

/// Why a match fails, as the model sees it.
pub enum MatchFailure {
    /// A variable is bound already, to an expression with another fingerprint.
    Rebound(u32),
    /// A constant with another fingerprint than the expression.
    Constant,
    /// A compound pattern against a leaf.
    Leaf,
    /// A compound pattern against a compound of another opcode or arity.
    Structure,
}

impl UnificationError {
    /// The error that reports each failure.
    pub open spec fn reports(&self, failure: MatchFailure) -> bool {
        match failure {
            MatchFailure::Rebound(index) => *self matches UnificationError::CannotUnify(message)
                && message@ == "Variable /"@ + decimal_text(index as nat)
                + " bound to different term"@,
            MatchFailure::Constant => *self == UnificationError::TypeMismatch,
            MatchFailure::Leaf => *self == UnificationError::TypeMismatch,
            MatchFailure::Structure => *self matches UnificationError::CannotUnify(message)
                && message@ == "Structure mismatch"@,
        }
    }
}

/// Matching `pattern` against `term` under the bindings `subst`:
/// a variable binds itself to the expression, or checks that what it is bound
/// to has the expression's fingerprint; a wildcard matches; a constant
/// matches what has its fingerprint; a compound matches a compound of its
/// opcode and arity, child by child from the left.
pub open spec fn spec_unify<T: HashNodeInner>(
    pattern: PatternTree<T>,
    term: HashNode<T>,
    subst: Map<u32, HashNode<T>>,
) -> Result<Map<u32, HashNode<T>>, MatchFailure>
    decreases pattern, 0nat,
{
    match pattern {
        PatternTree::Variable(index) => {
            if subst.contains_key(index) {
                if subst[index].spec_hash() == term.spec_hash() {
                    Ok(subst)
                } else {
                    Err(MatchFailure::Rebound(index))
                }
            } else {
                Ok(subst.insert(index, term))
            }
        },
        PatternTree::Wildcard => Ok(subst),
        PatternTree::Constant(value) => {
            if value.spec_hash() == term.spec_hash() {
                Ok(subst)
            } else {
                Err(MatchFailure::Constant)
            }
        },
        PatternTree::Compound(opcode, args) => {
            match term.value.spec_decompose() {
                None => Err(MatchFailure::Leaf),
                Some((term_opcode, children)) => {
                    if opcode != term_opcode || args.len() != children.len() {
                        Err(MatchFailure::Structure)
                    } else {
                        spec_unify_all(args, children, args.len(), subst)
                    }
                },
            }
        },
    }
}

/// `spec_unify` of the first `n` patterns against the first `n` children,
/// handing the bindings on from each to the next.
pub open spec fn spec_unify_all<T: HashNodeInner>(
    args: Seq<PatternTree<T>>,
    children: Seq<HashNode<T>>,
    n: nat,
    subst: Map<u32, HashNode<T>>,
) -> Result<Map<u32, HashNode<T>>, MatchFailure>
    decreases args, n,
{
    if n == 0 || n > args.len() || n > children.len() {
        Ok(subst)
    } else {
        match spec_unify_all(args, children, (n - 1) as nat, subst) {
            Err(failure) => Err(failure),
            Ok(bound) => spec_unify(args[n - 1], children[n - 1], bound),
        }
    }
}

/// Whether an outcome of matching is the one that the model gives.
pub open spec fn unify_agrees<T>(
    outcome: Result<Substitution<T>, UnificationError>,
    model: Result<Map<u32, HashNode<T>>, MatchFailure>,
) -> bool {
    match (outcome, model) {
        (Ok(bound), Ok(map)) => bound@ == map,
        (Err(error), Err(failure)) => error.reports(failure),
        _ => false,
    }
}

/// Matching with the bindings owned.
pub fn unify_into<T: HashNodeInner>(
    pattern: &Pattern<T>,
    term: &HashNode<T>,
    subst: Substitution<T>,
) -> (outcome: Result<Substitution<T>, UnificationError>)
    ensures
        unify_agrees(outcome, spec_unify(pattern@, *term, subst@)),
    decreases pattern,
{
    match pattern {
        Pattern::Variable(idx) => {
            match subst.get(*idx) {
                Some(bound) => {
                    if bound.hash() == term.hash() {
                        Ok(subst)
                    } else {
                        Err(
                            UnificationError::CannotUnify(
                                "Variable /".to_owned().concat(decimal(*idx as u64).as_str()).concat(
                                    " bound to different term",
                                ),
                            ),
                        )
                    }
                },
                None => {
                    let mut new_subst = subst;
                    new_subst.bind(*idx, term.clone());
                    Ok(new_subst)
                },
            }
        },
        Pattern::Wildcard => Ok(subst),
        Pattern::Constant(c) => {
            if c.hash() == term.hash() {
                Ok(subst)
            } else {
                Err(UnificationError::TypeMismatch)
            }
        },
        Pattern::Compound { opcode, args } => {
            let ghost trees = pattern@->Compound_1;
            let ghost start = subst@;
            match term.value.decompose() {
                None => Err(UnificationError::TypeMismatch),
                Some((term_opcode, term_children)) => {
                    if *opcode != term_opcode || args.len() != term_children.len() {
                        return Err(UnificationError::CannotUnify("Structure mismatch".to_owned()));
                    }
                    let mut new_subst = subst;
                    let mut i: usize = 0;
                    while i < args.len()
                        invariant
                            i <= args.len(),
                            args.len() == term_children.len(),
                            pattern is Compound,
                            pattern->args == *args,
                            pattern@ == PatternTree::Compound(*opcode, trees),
                            trees.len() == args.len(),
                            term.value.spec_decompose() == Some((term_opcode, term_children@)),
                            *opcode == term_opcode,
                            start == subst@,
                            spec_unify_all(trees, term_children@, i as nat, start) == Ok::<
                                Map<u32, HashNode<T>>,
                                MatchFailure,
                            >(new_subst@),
                        decreases args.len() - i,
                    {
                        proof {
                            assert(decreases_to!(pattern => pattern->args));
                            assert(decreases_to!(pattern => args[i as int]));
                            assert(trees[i as int] == args[i as int]@);
                        }
                        let ghost current = new_subst@;
                        match unify_into(&args[i], &term_children[i], new_subst) {
                            Ok(bound) => {
                                new_subst = bound;
                            },
                            Err(error) => {
                                proof {
                                    assert(spec_unify_all(
                                        trees,
                                        term_children@,
                                        (i + 1) as nat,
                                        start,
                                    ) == spec_unify(
                                        trees[i as int],
                                        term_children@[i as int],
                                        current,
                                    ));
                                    lemma_unify_all_fails(trees, term_children@, (i + 1) as nat, args.len() as nat, start);
                                }
                                return Err(error);
                            },
                        }
                        i += 1;
                    }
                    Ok(new_subst)
                },
            }
        },
    }
}

/// Once a prefix fails to match, every longer prefix fails in the same way.
pub proof fn lemma_unify_all_fails<T: HashNodeInner>(
    args: Seq<PatternTree<T>>,
    children: Seq<HashNode<T>>,
    failed: nat,
    n: nat,
    subst: Map<u32, HashNode<T>>,
)
    requires
        failed <= n <= args.len(),
        n <= children.len(),
        spec_unify_all(args, children, failed, subst) is Err,
    ensures
        spec_unify_all(args, children, n, subst) == spec_unify_all(args, children, failed, subst),
    decreases n,
{
    if failed < n {
        lemma_unify_all_fails(args, children, failed, (n - 1) as nat, subst);
    }
}

/// Expressions that patterns can be matched against.
pub trait Unifiable: HashNodeInner {
    /// Matches `pattern` against `term`, starting from the bindings `subst`.
    fn unify(
        pattern: &Pattern<Self>,
        term: &HashNode<Self>,
        subst: &Substitution<Self>,
        store: &NodeStorage<Self>,
    ) -> (outcome: Result<Substitution<Self>, UnificationError>)
        ensures
            unify_agrees(outcome, spec_unify(pattern@, *term, subst@)),
    ;

    /// Whether `var_index` is bound already to what has the fingerprint of `term`.
    fn occurs_check(var_index: u32, term: &HashNode<Self>, subst: &Substitution<Self>) -> (occurs:
        bool)
        ensures
            occurs == (subst@.contains_key(var_index) && subst@[var_index].spec_hash()
                == term.spec_hash()),
    ;
}

impl<T: HashNodeInner> Unifiable for T {
    fn unify(
        pattern: &Pattern<Self>,
        term: &HashNode<Self>,
        subst: &Substitution<Self>,
        store: &NodeStorage<Self>,
    ) -> (outcome: Result<Substitution<Self>, UnificationError>) {
        unify_into(pattern, term, subst.clone())
    }

    fn occurs_check(var_index: u32, term: &HashNode<Self>, subst: &Substitution<Self>) -> (occurs:
        bool) {
        match subst.get(var_index) {
            Some(bound) => bound.hash() == term.hash(),
            None => false,
        }
    }
}

} // verus!
