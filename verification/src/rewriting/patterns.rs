//! What a kind of expression offers to the rewriting machinery.

use crate::nodes::{HashNode, HashNodeInner};
use crate::rewriting::{accepted_shapes, all_named, shapes_of, RewriteRule, RuleShape};
use vstd::prelude::*;

verus! {

/// Expressions that can be turned into patterns and rewritten by a pair of
/// patterns, at the root or at any position.
pub trait Rewritable: HashNodeInner {
    /// The patterns over this kind of expression.
    type AsPattern: View;

    /// The stores that rewriting interns its results in.
    type Storage;

    /// `after` holds everything `before` holds.
    spec fn storage_extends(before: Self::Storage, after: Self::Storage) -> bool;

    /// A store extends itself, and extending twice extends.
    proof fn lemma_storage_extends(a: Self::Storage, b: Self::Storage, c: Self::Storage)
        ensures
            Self::storage_extends(a, a),
            Self::storage_extends(a, b) && Self::storage_extends(b, c) ==> Self::storage_extends(
                a,
                c,
            ),
    ;

    /// Whether variable `index` occurs in a pattern.
    spec fn pattern_mentions(pattern: <Self::AsPattern as View>::V, index: u32) -> bool;

    /// The pattern that mirrors the shape of the expression, with literals
    /// and variable markers as atoms.
    spec fn spec_decompose_to_pattern(&self) -> <Self::AsPattern as View>::V;

    /// The expression rewritten at its root: what `to` gives under the
    /// bindings of matching `from`; `None` where `from` does not match or
    /// `to` cannot be built.
    spec fn spec_try_rewrite(
        &self,
        from: <Self::AsPattern as View>::V,
        to: <Self::AsPattern as View>::V,
    ) -> Option<HashNode<Self>>;

    /// Every expression had by rewriting at one position: first the root,
    /// then the positions of each child in the order of the children.
    spec fn spec_recursive_rewrites(
        &self,
        from: <Self::AsPattern as View>::V,
        to: <Self::AsPattern as View>::V,
    ) -> Seq<HashNode<Self>>;

    fn decompose_to_pattern(&self, store: &Self::Storage) -> (pattern: Self::AsPattern)
        ensures
            pattern@ == self.spec_decompose_to_pattern(),
    ;

    fn try_rewrite(
        &self,
        from: &Self::AsPattern,
        to: &Self::AsPattern,
        store: &mut Self::Storage,
    ) -> (rewritten: Option<HashNode<Self>>)
        ensures
            rewritten == self.spec_try_rewrite(from@, to@),
            Self::storage_extends(*old(store), *final(store)),
    ;

    fn get_recursive_rewrites(
        &self,
        from: &Self::AsPattern,
        to: &Self::AsPattern,
        store: &mut Self::Storage,
    ) -> (rewrites: Vec<HashNode<Self>>)
        ensures
            rewrites@ == self.spec_recursive_rewrites(from@, to@),
            Self::storage_extends(*old(store), *final(store)),
    ;

    /// The fingerprint of a pattern.
    spec fn spec_pattern_hash(pattern: <Self::AsPattern as View>::V) -> u64;

    fn pattern_hash(pattern: &Self::AsPattern) -> (h: u64)
        ensures
            h == Self::spec_pattern_hash(pattern@),
    ;

    /// Whether a wildcard occurs in a pattern.
    spec fn pattern_has_wildcard(pattern: <Self::AsPattern as View>::V) -> bool;

    /// Whether the pair `from`, `to` is of a kind that the root rewrite
    /// also reads as `to`, `from`.
    spec fn reads_backward(
        from: <Self::AsPattern as View>::V,
        to: <Self::AsPattern as View>::V,
    ) -> bool;

    /// A pair of patterns that rewrites the expression at its root rewrites
    /// what came out back into the expression, up to its fingerprint, when
    /// read the other way round; this for a first pattern without wildcards
    /// all of whose variables occur in the second, and a pair that is read
    /// backward.
    proof fn lemma_rewrite_back(
        &self,
        from: <Self::AsPattern as View>::V,
        to: <Self::AsPattern as View>::V,
    )
        requires
            !Self::pattern_has_wildcard(from),
            forall|i: u32| Self::pattern_mentions(from, i) ==> Self::pattern_mentions(to, i),
            Self::reads_backward(from, to),
            self.spec_try_rewrite(from, to) is Some,
        ensures
            self.spec_try_rewrite(from, to).unwrap().value.spec_try_rewrite(to, from) is Some,
            self.spec_try_rewrite(from, to).unwrap().value.spec_try_rewrite(
                to,
                from,
            ).unwrap().spec_hash() == self.spec_hash(),
    ;

    /// The variables of a pattern, each once, in the order in which
    /// `pattern_vars` lists them.
    spec fn spec_pattern_vars(pattern: <Self::AsPattern as View>::V) -> Seq<u32>;

    /// The variables of a pattern, each once.
    fn pattern_vars(pattern: &Self::AsPattern) -> (vars: Vec<u32>)
        ensures
            vars@ == Self::spec_pattern_vars(pattern@),
            vars@.no_duplicates(),
            forall|i: u32| vars@.contains(i) <==> Self::pattern_mentions(pattern@, i),
    ;
}

/// Expressions that, read as axioms, lower into rewrite rules.
pub trait AsRewriteRules: Rewritable {
    /// The rules that the expression lowers into, without their names.
    spec fn spec_rewrite_rules(&self) -> Seq<RuleShape<<Self::AsPattern as View>::V>>;

    /// Lowers the expression into rules that all carry `name`. An
    /// expression one of whose rules would break the rule-variable
    /// invariant is refused and gives no rule, so every rule that comes out
    /// keeps the invariant.
    fn decompose_to_rewrite_rules(&self, name: &str, store: &Self::Storage) -> (rules: Vec<
        RewriteRule<Self>,
    >)
        ensures
            shapes_of(rules@) == accepted_shapes::<Self>(self.spec_rewrite_rules()),
            all_named(rules@, name@),
            forall|i: int| 0 <= i < rules@.len() ==> (#[trigger] rules@[i]).respects_variables(),
    ;
}

} // verus!
