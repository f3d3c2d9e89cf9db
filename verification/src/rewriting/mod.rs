//! Patterns, substitutions, matching and rewrite rules.

pub mod laws;
pub mod pattern;
pub mod patterns;
pub mod substitution;
pub mod unifiable;

use crate::nodes::{spec_construct_node, HashNode, HashNodeInner, NodeStorage};
use crate::rewriting::pattern::{Pattern, PatternTree};
use crate::rewriting::patterns::Rewritable;
use crate::rewriting::substitution::Substitution;
use crate::rewriting::unifiable::{spec_unify, unify_agrees, unify_into, UnificationError};
use vstd::prelude::*;

verus! {

/// What a pattern gives under bindings: a variable gives what it is bound
/// to, a constant gives itself, a compound gives the compound of what its
/// arguments give; a wildcard, an unbound variable and an opcode that builds
/// nothing give `None`.
pub open spec fn spec_apply<T: HashNodeInner>(
    pattern: PatternTree<T>,
    subst: Map<u32, HashNode<T>>,
) -> Option<HashNode<T>>
    decreases pattern, 0nat,
{
    match pattern {
        PatternTree::Variable(index) => if subst.contains_key(index) {
            Some(subst[index])
        } else {
            None
        },
        PatternTree::Wildcard => None,
        PatternTree::Constant(value) => Some(HashNode::of(value)),
        PatternTree::Compound(opcode, args) => match spec_apply_all(args, args.len(), subst) {
            None => None,
            Some(children) => spec_construct_node::<T>(opcode, children),
        },
    }
}

/// `spec_apply` of the first `n` patterns of `args`; `None` if one of them gives `None`.
pub open spec fn spec_apply_all<T: HashNodeInner>(
    args: Seq<PatternTree<T>>,
    n: nat,
    subst: Map<u32, HashNode<T>>,
) -> Option<Seq<HashNode<T>>>
    decreases args, n,
{
    if n == 0 || n > args.len() {
        Some(Seq::empty())
    } else {
        match (spec_apply_all(args, (n - 1) as nat, subst), spec_apply(args[n - 1], subst)) {
            (Some(before), Some(child)) => Some(before.push(child)),
            _ => None,
        }
    }
}

/// Rewriting at the root: match `from`, then apply `to`.
pub open spec fn spec_rewrite_root<T: HashNodeInner>(
    term: HashNode<T>,
    from: PatternTree<T>,
    to: PatternTree<T>,
) -> Option<HashNode<T>> {
    match spec_unify(from, term, Map::empty()) {
        Ok(bound) => spec_apply(to, bound),
        Err(_) => None,
    }
}

/// Zero or one result as a sequence.
pub open spec fn optional<A>(value: Option<A>) -> Seq<A> {
    match value {
        Some(a) => seq![a],
        None => Seq::empty(),
    }
}

/// Every rewrite of `term` at one position: first the root, then the
/// positions of each child in the order of the children, each result put back
/// into the parent.
pub open spec fn spec_rewrite_everywhere<T: HashNodeInner>(
    term: HashNode<T>,
    from: PatternTree<T>,
    to: PatternTree<T>,
) -> Seq<HashNode<T>>
    decreases term.spec_size(), 1nat, 0nat,
{
    let at_root = optional(spec_rewrite_root(term, from, to));
    match term.value.spec_decompose() {
        None => at_root,
        Some((opcode, children)) => at_root + spec_rewrite_children(
            term,
            opcode,
            children,
            children.len(),
            from,
            to,
        ),
    }
}

/// The rewrites of `parent` inside its first `n` children.
pub open spec fn spec_rewrite_children<T: HashNodeInner>(
    parent: HashNode<T>,
    opcode: u64,
    children: Seq<HashNode<T>>,
    n: nat,
    from: PatternTree<T>,
    to: PatternTree<T>,
) -> Seq<HashNode<T>>
    decreases parent.spec_size(), 0nat, n,
{
    if n == 0 || n > children.len() {
        Seq::empty()
    } else {
        let inner = if children[n - 1].spec_size() < parent.spec_size() {
            spec_rewrite_everywhere(children[n - 1], from, to)
        } else {
            Seq::empty()
        };
        spec_rewrite_children(parent, opcode, children, (n - 1) as nat, from, to) + spec_rebuild(
            opcode,
            children,
            n - 1,
            inner,
            inner.len(),
        )
    }
}

/// The compounds had by putting each of the first `n` of `rewrites` in the
/// place of child `position`; one that cannot be built is left out.
pub open spec fn spec_rebuild<T: HashNodeInner>(
    opcode: u64,
    children: Seq<HashNode<T>>,
    position: int,
    rewrites: Seq<HashNode<T>>,
    n: nat,
) -> Seq<HashNode<T>>
    decreases n,
{
    if n == 0 || n > rewrites.len() {
        Seq::empty()
    } else {
        spec_rebuild(opcode, children, position, rewrites, (n - 1) as nat) + optional(
            spec_construct_node::<T>(opcode, children.update(position, rewrites[n - 1])),
        )
    }
}

/// Applies the bindings to a pattern and interns what it builds.
pub fn apply_substitution_to_pattern<T: HashNodeInner>(
    pattern: &Pattern<T>,
    subst: &Substitution<T>,
    store: &mut NodeStorage<T>,
) -> (built: Option<HashNode<T>>)
    ensures
        built == spec_apply(pattern@, subst@),
        NodeStorage::<T>::extends(old(store)@, final(store)@),
    decreases pattern,
{
    match pattern {
        Pattern::Variable(idx) => match subst.get(*idx) {
            Some(bound) => Some(bound.clone()),
            None => None,
        },
        Pattern::Wildcard => None,
        Pattern::Constant(c) => Some(HashNode::from_store(c.duplicate(), store)),
        Pattern::Compound { opcode, args } => {
            let ghost trees = pattern@->Compound_1;
            let ghost before = store@;
            let mut children: Vec<HashNode<T>> = Vec::new();
            let mut i: usize = 0;
            while i < args.len()
                invariant
                    i <= args.len(),
                    pattern is Compound,
                    pattern->args == *args,
                    pattern@ == PatternTree::Compound(*opcode, trees),
                    trees.len() == args.len(),
                    spec_apply_all(trees, i as nat, subst@) == Some(children@),
                    NodeStorage::<T>::extends(before, store@),
                    before == old(store)@,
                decreases args.len() - i,
            {
                proof {
                    assert(decreases_to!(pattern => pattern->args));
                    assert(decreases_to!(pattern => args[i as int]));
                    assert(trees[i as int] == args[i as int]@);
                }
                let ghost middle = store@;
                match apply_substitution_to_pattern(&args[i], subst, store) {
                    Some(child) => {
                        children.push(child);
                    },
                    None => {
                        proof {
                            lemma_apply_all_fails(trees, (i + 1) as nat, args.len() as nat, subst@);
                            NodeStorage::<T>::lemma_extends_chain(before, middle, store@);
                        }
                        return None;
                    },
                }
                i += 1;
            }
            match T::construct_from_parts(*opcode, children) {
                Some(value) => Some(HashNode::from_store(value, store)),
                None => None,
            }
        },
    }
}

/// Once a prefix gives `None`, every longer prefix does.
pub proof fn lemma_apply_all_fails<T: HashNodeInner>(
    args: Seq<PatternTree<T>>,
    failed: nat,
    n: nat,
    subst: Map<u32, HashNode<T>>,
)
    requires
        failed <= n <= args.len(),
        spec_apply_all(args, failed, subst) is None,
    ensures
        spec_apply_all(args, n, subst) is None,
    decreases n,
{
    if failed < n {
        lemma_apply_all_fails(args, failed, (n - 1) as nat, subst);
    }
}

/// Rewrites `term` at its root.
pub fn rewrite_root<T: HashNodeInner>(
    term: &HashNode<T>,
    from: &Pattern<T>,
    to: &Pattern<T>,
    store: &mut NodeStorage<T>,
) -> (rewritten: Option<HashNode<T>>)
    ensures
        rewritten == spec_rewrite_root(*term, from@, to@),
        NodeStorage::<T>::extends(old(store)@, final(store)@),
{
    match unify_into(from, term, Substitution::new()) {
        Ok(bound) => apply_substitution_to_pattern(to, &bound, store),
        Err(_) => None,
    }
}

/// The nodes of `children`, shared, with `replacement` at `position`.
pub fn with_child<T>(children: &Vec<HashNode<T>>, position: usize, replacement: &HashNode<T>) -> (out:
    Vec<HashNode<T>>)
    requires
        position < children.len(),
    ensures
        out@ == children@.update(position as int, *replacement),
{
    let mut out: Vec<HashNode<T>> = Vec::new();
    let mut i: usize = 0;
    while i < children.len()
        invariant
            i <= children.len(),
            position < children.len(),
            out@ == children@.update(position as int, *replacement).take(i as int),
        decreases children.len() - i,
    {
        if i == position {
            out.push(replacement.clone());
        } else {
            out.push(children[i].clone());
        }
        proof {
            assert(out@ =~= children@.update(position as int, *replacement).take(i + 1));
        }
        i += 1;
    }
    proof {
        assert(children@.update(position as int, *replacement).take(i as int) =~= children@.update(
            position as int,
            *replacement,
        ));
    }
    out
}

/// Puts each of `rewrites` in the place of child `position` and appends the
/// compounds that can be built to `results`.
pub fn rebuild_into<T: HashNodeInner>(
    opcode: u64,
    children: &Vec<HashNode<T>>,
    position: usize,
    rewrites: &Vec<HashNode<T>>,
    results: &mut Vec<HashNode<T>>,
    store: &mut NodeStorage<T>,
)
    requires
        position < children.len(),
    ensures
        final(results)@ == old(results)@ + spec_rebuild(
            opcode,
            children@,
            position as int,
            rewrites@,
            rewrites@.len(),
        ),
        NodeStorage::<T>::extends(old(store)@, final(store)@),
{
    let ghost so_far = results@;
    let ghost start = store@;
    let mut j: usize = 0;
    proof {
        assert(results@ =~= so_far + Seq::<HashNode<T>>::empty());
    }
    while j < rewrites.len()
        invariant
            j <= rewrites.len(),
            position < children.len(),
            results@ == so_far + spec_rebuild(
                opcode,
                children@,
                position as int,
                rewrites@,
                j as nat,
            ),
            NodeStorage::<T>::extends(start, store@),
        decreases rewrites.len() - j,
    {
        let parts = with_child(children, position, &rewrites[j]);
        let ghost previous = results@;
        if let Some(value) = T::construct_from_parts(opcode, parts) {
            results.push(HashNode::from_store(value, store));
        }
        proof {
            assert(results@ =~= previous + optional(
                spec_construct_node::<T>(
                    opcode,
                    children@.update(position as int, rewrites@[j as int]),
                ),
            ));
            assert(results@ =~= so_far + spec_rebuild(
                opcode,
                children@,
                position as int,
                rewrites@,
                (j + 1) as nat,
            ));
        }
        j += 1;
    }
}

/// Rewrites `term` at every position, one position at a time.
pub fn rewrite_everywhere<T: HashNodeInner>(
    term: &HashNode<T>,
    from: &Pattern<T>,
    to: &Pattern<T>,
    store: &mut NodeStorage<T>,
) -> (rewrites: Vec<HashNode<T>>)
    ensures
        rewrites@ == spec_rewrite_everywhere(*term, from@, to@),
        NodeStorage::<T>::extends(old(store)@, final(store)@),
    decreases term.spec_size(),
{
    let ghost start = store@;
    let mut rewrites: Vec<HashNode<T>> = Vec::new();
    if let Some(at_root) = rewrite_root(term, from, to, store) {
        rewrites.push(at_root);
    }
    let ghost at_root = optional(spec_rewrite_root(*term, from@, to@));
    proof {
        assert(rewrites@ =~= at_root);
    }
    match term.value.decompose() {
        None => {},
        Some((opcode, children)) => {
            proof {
                term.value.lemma_decompose_construct();
            }
            let mut i: usize = 0;
            while i < children.len()
                invariant
                    i <= children.len(),
                    term.value.spec_decompose() == Some((opcode, children@)),
                    forall|k: int|
                        0 <= k < children@.len() ==> (#[trigger] children@[k]).value.spec_size()
                            < term.value.spec_size(),
                    rewrites@ == at_root + spec_rewrite_children(
                        *term,
                        opcode,
                        children@,
                        i as nat,
                        from@,
                        to@,
                    ),
                    NodeStorage::<T>::extends(start, store@),
                decreases children.len() - i,
            {
                let ghost before = store@;
                let inner = rewrite_everywhere(&children[i], from, to, store);
                let ghost middle = store@;
                rebuild_into(opcode, &children, i, &inner, &mut rewrites, store);
                proof {
                    NodeStorage::<T>::lemma_extends_chain(before, middle, store@);
                    NodeStorage::<T>::lemma_extends_chain(start, before, store@);
                    assert(rewrites@ =~= at_root + spec_rewrite_children(
                        *term,
                        opcode,
                        children@,
                        (i + 1) as nat,
                        from@,
                        to@,
                    ));
                }
                i += 1;
            }
        },
    }
    rewrites
}

/// In which direction a rule may be applied.
#[derive(Debug, Clone, Copy, PartialEq, Eq, Structural)]
pub enum RewriteDirection {
    Both,
    Forward,
    Backward,
}

/// A named pair of patterns with a direction.
pub struct RewriteRule<T: Rewritable> {
    pub name: String,
    pub pattern: T::AsPattern,
    pub replacement: T::AsPattern,
    pub direction: RewriteDirection,
}

/// A rule without its name, over patterns as trees.
pub struct RuleShape<P> {
    pub pattern: P,
    pub replacement: P,
    pub direction: RewriteDirection,
}

/// One application of a rule: what came out, under which bindings.
pub struct RewriteResult<T> {
    pub term: HashNode<T>,
    pub substitution: Substitution<T>,
    pub rule_name: String,
}

impl<T: Rewritable> RewriteRule<T> {
    /// The rule applied forward at the root of `term`.
    pub open spec fn spec_apply(&self, term: HashNode<T>) -> Option<HashNode<T>> {
        if self.direction is Backward {
            None
        } else {
            term.value.spec_try_rewrite(self.pattern@, self.replacement@)
        }
    }

    /// The rule applied backward at the root of `term`.
    pub open spec fn spec_apply_reverse(&self, term: HashNode<T>) -> Option<HashNode<T>> {
        if self.direction is Forward {
            None
        } else {
            term.value.spec_try_rewrite(self.replacement@, self.pattern@)
        }
    }

    /// The rule applied at every position of `expr`: the forward results
    /// before the backward ones, each in the order of the positions.
    pub open spec fn spec_apply_recursive(&self, expr: HashNode<T>) -> Seq<HashNode<T>> {
        let forward = if self.direction is Backward {
            Seq::empty()
        } else {
            expr.value.spec_recursive_rewrites(self.pattern@, self.replacement@)
        };
        let backward = if self.direction is Forward {
            Seq::empty()
        } else {
            expr.value.spec_recursive_rewrites(self.replacement@, self.pattern@)
        };
        forward + backward
    }

    /// Every variable of the replacement occurs in the pattern.
    pub open spec fn respects_variables(&self) -> bool {
        Self::shape_respects_variables(self.shape())
    }

    /// Every variable of the replacement of `shape` occurs in its pattern.
    pub open spec fn shape_respects_variables(shape: RuleShape<<T::AsPattern as View>::V>) -> bool {
        forall|i: u32|
            T::pattern_mentions(shape.replacement, i) ==> T::pattern_mentions(shape.pattern, i)
    }

    /// The rule without its name.
    pub open spec fn shape(&self) -> RuleShape<<T::AsPattern as View>::V> {
        RuleShape {
            pattern: self.pattern@,
            replacement: self.replacement@,
            direction: self.direction,
        }
    }

    pub fn new(
        name: &str,
        pattern: T::AsPattern,
        replacement: T::AsPattern,
        direction: RewriteDirection,
    ) -> (rule: Self)
        ensures
            rule.name@ == name@,
            rule.pattern == pattern,
            rule.replacement == replacement,
            rule.direction == direction,
    {
        RewriteRule { name: name.to_owned(), pattern, replacement, direction }
    }

    pub fn bidirectional(name: &str, pattern: T::AsPattern, replacement: T::AsPattern) -> (rule:
        Self)
        ensures
            rule.name@ == name@,
            rule.pattern == pattern,
            rule.replacement == replacement,
            rule.direction == RewriteDirection::Both,
    {
        Self::new(name, pattern, replacement, RewriteDirection::Both)
    }

    pub fn is_bidirectional(&self) -> (b: bool)
        ensures
            b == (self.direction is Both),
    {
        matches!(self.direction, RewriteDirection::Both)
    }

    /// The first variable of the replacement of `shape`, in the order in
    /// which its variables are listed, that does not occur in its pattern.
    pub open spec fn spec_first_unbound(shape: RuleShape<<T::AsPattern as View>::V>) -> Option<u32> {
        first_missing::<T>(T::spec_pattern_vars(shape.replacement), 0, shape.pattern)
    }

    /// The first variable of the replacement that does not occur in the
    /// pattern; `None` exactly when the rule keeps the rule-variable
    /// invariant.
    pub fn first_unbound(&self) -> (unbound: Option<u32>)
        ensures
            unbound == Self::spec_first_unbound(self.shape()),
            unbound is None == self.respects_variables(),
            unbound matches Some(index) ==> T::pattern_mentions(self.replacement@, index)
                && !T::pattern_mentions(self.pattern@, index),
    {
        let wanted = T::pattern_vars(&self.replacement);
        let offered = T::pattern_vars(&self.pattern);
        let ghost shape = self.shape();
        let mut k: usize = 0;
        while k < wanted.len()
            invariant
                k <= wanted.len(),
                shape == self.shape(),
                wanted@ == T::spec_pattern_vars(shape.replacement),
                first_missing::<T>(wanted@, 0, shape.pattern) == first_missing::<T>(
                    wanted@,
                    k as int,
                    shape.pattern,
                ),
                forall|i: u32| wanted@.contains(i) <==> T::pattern_mentions(self.replacement@, i),
                forall|i: u32| offered@.contains(i) <==> T::pattern_mentions(self.pattern@, i),
                forall|j: int| 0 <= j < k ==> offered@.contains(#[trigger] wanted@[j]),
            decreases wanted.len() - k,
        {
            proof {
                assert(offered@.contains(wanted@[k as int]) == T::pattern_mentions(
                    shape.pattern,
                    wanted@[k as int],
                ));
            }
            if !crate::rewriting::pattern::contains_index(&offered, wanted[k]) {
                proof {
                    assert(wanted@.contains(wanted@[k as int]));
                    assert(T::pattern_mentions(shape.replacement, wanted@[k as int]));
                    assert(!T::pattern_mentions(shape.pattern, wanted@[k as int]));
                }
                return Some(wanted[k]);
            }
            k += 1;
        }
        proof {
            assert forall|i: u32| T::pattern_mentions(shape.replacement, i) implies T::pattern_mentions(
                shape.pattern,
                i,
            ) by {
                assert(wanted@.contains(i));
                let j = choose|j: int| 0 <= j < wanted@.len() && wanted@[j] == i;
                assert(offered@.contains(wanted@[j]));
            }
        }
        None
    }

    /// Whether the rule keeps the rule-variable invariant.
    pub fn replacement_is_bound(&self) -> (b: bool)
        ensures
            b == self.respects_variables(),
    {
        self.first_unbound().is_none()
    }

    /// Applies the rule forward at the root of `term`.
    pub fn apply(&self, term: &HashNode<T>, store: &mut T::Storage) -> (rewritten: Option<
        HashNode<T>,
    >)
        ensures
            rewritten == self.spec_apply(*term),
            T::storage_extends(*old(store), *final(store)),
    {
        if matches!(self.direction, RewriteDirection::Backward) {
            proof {
                T::lemma_storage_extends(*store, *store, *store);
            }
            return None;
        }
        term.value.try_rewrite(&self.pattern, &self.replacement, store)
    }

    /// Applies the rule backward at the root of `term`.
    pub fn apply_reverse(&self, term: &HashNode<T>, store: &mut T::Storage) -> (rewritten: Option<
        HashNode<T>,
    >)
        ensures
            rewritten == self.spec_apply_reverse(*term),
            T::storage_extends(*old(store), *final(store)),
    {
        if matches!(self.direction, RewriteDirection::Forward) {
            proof {
                T::lemma_storage_extends(*store, *store, *store);
            }
            return None;
        }
        term.value.try_rewrite(&self.replacement, &self.pattern, store)
    }

    /// Applies the rule at every position of `expr`, forward before backward.
    pub fn apply_recursive(&self, expr: &HashNode<T>, store: &mut T::Storage) -> (rewrites: Vec<
        HashNode<T>,
    >)
        ensures
            rewrites@ == self.spec_apply_recursive(*expr),
            T::storage_extends(*old(store), *final(store)),
    {
        let ghost start = *store;
        let mut rewrites: Vec<HashNode<T>> = Vec::new();
        proof {
            T::lemma_storage_extends(start, start, start);
        }
        if !matches!(self.direction, RewriteDirection::Backward) {
            rewrites = expr.value.get_recursive_rewrites(&self.pattern, &self.replacement, store);
        }
        let ghost middle = *store;
        let ghost forward = rewrites@;
        if !matches!(self.direction, RewriteDirection::Forward) {
            let backward = expr.value.get_recursive_rewrites(
                &self.replacement,
                &self.pattern,
                store,
            );
            let mut j: usize = 0;
            while j < backward.len()
                invariant
                    j <= backward.len(),
                    rewrites@ == forward + backward@.take(j as int),
                decreases backward.len() - j,
            {
                rewrites.push(backward[j].clone());
                proof {
                    assert(rewrites@ =~= forward + backward@.take(j + 1));
                }
                j += 1;
            }
            proof {
                assert(backward@.take(j as int) =~= backward@);
                T::lemma_storage_extends(start, middle, *store);
            }
        }
        proof {
            assert(forward + Seq::<HashNode<T>>::empty() =~= forward);
        }
        rewrites
    }
}

impl<T: Rewritable<AsPattern = Pattern<T>>> RewriteRule<T> {
    /// Matches the pattern against `term`; a backward rule has no forward match.
    pub fn try_match(&self, term: &HashNode<T>, store: &T::Storage) -> (outcome: Result<
        Substitution<T>,
        UnificationError,
    >)
        ensures
            self.direction is Backward ==> (outcome matches Err(
                UnificationError::CannotUnify(message),
            ) && message@ == "Wrong direction"@),
            !(self.direction is Backward) ==> unify_agrees(
                outcome,
                spec_unify(self.pattern@, *term, Map::empty()),
            ),
    {
        if matches!(self.direction, RewriteDirection::Backward) {
            return Err(UnificationError::CannotUnify("Wrong direction".to_owned()));
        }
        unify_into(&self.pattern, term, Substitution::new())
    }

    /// Matches the replacement against `term`; a forward rule has no backward match.
    pub fn try_match_reverse(&self, term: &HashNode<T>, store: &T::Storage) -> (outcome: Result<
        Substitution<T>,
        UnificationError,
    >)
        ensures
            self.direction is Forward ==> (outcome matches Err(
                UnificationError::CannotUnify(message),
            ) && message@ == "Wrong direction"@),
            !(self.direction is Forward) ==> unify_agrees(
                outcome,
                spec_unify(self.replacement@, *term, Map::empty()),
            ),
    {
        if matches!(self.direction, RewriteDirection::Forward) {
            return Err(UnificationError::CannotUnify("Wrong direction".to_owned()));
        }
        unify_into(&self.replacement, term, Substitution::new())
    }
}

impl Rewritable for u64 {
    type AsPattern = Pattern<u64>;

    type Storage = NodeStorage<u64>;

    open spec fn storage_extends(before: NodeStorage<u64>, after: NodeStorage<u64>) -> bool {
        NodeStorage::<u64>::extends(before@, after@)
    }

    proof fn lemma_storage_extends(a: NodeStorage<u64>, b: NodeStorage<u64>, c: NodeStorage<u64>) {
        NodeStorage::<u64>::lemma_extends_chain(a@, b@, c@);
    }

    open spec fn pattern_mentions(pattern: PatternTree<u64>, index: u32) -> bool {
        pattern.mentions(index)
    }

    open spec fn spec_decompose_to_pattern(&self) -> PatternTree<u64> {
        PatternTree::Constant(*self)
    }

    open spec fn spec_try_rewrite(&self, from: PatternTree<u64>, to: PatternTree<u64>) -> Option<
        HashNode<u64>,
    > {
        spec_rewrite_root(HashNode::of(*self), from, to)
    }

    open spec fn spec_recursive_rewrites(
        &self,
        from: PatternTree<u64>,
        to: PatternTree<u64>,
    ) -> Seq<HashNode<u64>> {
        spec_rewrite_everywhere(HashNode::of(*self), from, to)
    }

    fn decompose_to_pattern(&self, store: &NodeStorage<u64>) -> (pattern: Pattern<u64>) {
        Pattern::Constant(*self)
    }

    fn try_rewrite(&self, from: &Pattern<u64>, to: &Pattern<u64>, store: &mut NodeStorage<u64>) -> (rewritten:
        Option<HashNode<u64>>) {
        let ghost start = store@;
        let node = HashNode::from_store(*self, store);
        let ghost middle = store@;
        let rewritten = rewrite_root(&node, from, to, store);
        proof {
            NodeStorage::<u64>::lemma_extends_chain(start, middle, store@);
        }
        rewritten
    }

    fn get_recursive_rewrites(
        &self,
        from: &Pattern<u64>,
        to: &Pattern<u64>,
        store: &mut NodeStorage<u64>,
    ) -> (rewrites: Vec<HashNode<u64>>) {
        let ghost start = store@;
        let node = HashNode::from_store(*self, store);
        let ghost middle = store@;
        let rewrites = rewrite_everywhere(&node, from, to, store);
        proof {
            NodeStorage::<u64>::lemma_extends_chain(start, middle, store@);
        }
        rewrites
    }

    open spec fn spec_pattern_hash(pattern: PatternTree<u64>) -> u64 {
        pattern.hash()
    }

    fn pattern_hash(pattern: &Pattern<u64>) -> (h: u64) {
        pattern.hash()
    }

    open spec fn pattern_has_wildcard(pattern: PatternTree<u64>) -> bool {
        pattern.has_wildcard()
    }

    open spec fn reads_backward(from: PatternTree<u64>, to: PatternTree<u64>) -> bool {
        true
    }

    proof fn lemma_rewrite_back(&self, from: PatternTree<u64>, to: PatternTree<u64>) {
        let a = HashNode::of(*self);
        let b = spec_rewrite_root(a, from, to).unwrap();
        assert(HashNode::of(*b.value) == b);
        assert forall|i: u32| from.mentions(i) implies to.mentions(i) by {
            assert(Self::pattern_mentions(from, i));
        }
        crate::rewriting::laws::lemma_rewrite_back(from, to, a);
    }

    open spec fn spec_pattern_vars(pattern: PatternTree<u64>) -> Seq<u32> {
        pattern.vars()
    }

    fn pattern_vars(pattern: &Pattern<u64>) -> (vars: Vec<u32>) {
        pattern.vars()
    }
}

/// The first of `wanted`, from place `from` on, that `pattern` does not
/// mention.
pub open spec fn first_missing<T: Rewritable>(
    wanted: Seq<u32>,
    from: int,
    pattern: <T::AsPattern as View>::V,
) -> Option<u32>
    decreases wanted.len() - from,
{
    if from < 0 || from >= wanted.len() {
        None
    } else if !T::pattern_mentions(pattern, wanted[from]) {
        Some(wanted[from])
    } else {
        first_missing::<T>(wanted, from + 1, pattern)
    }
}

/// The place of the first shape that breaks the rule-variable invariant
/// among those from `from` on; the number of shapes if none does.
pub open spec fn first_offender<T: Rewritable>(
    shapes: Seq<RuleShape<<T::AsPattern as View>::V>>,
    from: int,
) -> int
    decreases shapes.len() - from,
{
    if from < 0 || from >= shapes.len() {
        shapes.len() as int
    } else if !RewriteRule::<T>::shape_respects_variables(shapes[from]) {
        from
    } else {
        first_offender::<T>(shapes, from + 1)
    }
}

/// The shapes that are accepted as rules: all of them where each keeps the
/// rule-variable invariant, and none where one of them breaks it.
pub open spec fn accepted_shapes<T: Rewritable>(
    shapes: Seq<RuleShape<<T::AsPattern as View>::V>>,
) -> Seq<RuleShape<<T::AsPattern as View>::V>> {
    if first_offender::<T>(shapes, 0) == shapes.len() {
        shapes
    } else {
        Seq::empty()
    }
}

/// Hands the rules back where each keeps the rule-variable invariant; else
/// the place of the first rule that breaks it, and the first variable of
/// its replacement that its pattern does not mention.
pub fn accept_rules<T: Rewritable>(rules: Vec<RewriteRule<T>>) -> (outcome: Result<
    Vec<RewriteRule<T>>,
    (usize, u32),
>)
    ensures
        match outcome {
            Ok(kept) => {
                &&& kept == rules
                &&& first_offender::<T>(shapes_of(rules@), 0) == rules@.len()
                &&& forall|i: int|
                    0 <= i < kept@.len() ==> (#[trigger] kept@[i]).respects_variables()
            },
            Err((at, index)) => {
                &&& at < rules@.len()
                &&& at == first_offender::<T>(shapes_of(rules@), 0)
                &&& Some(index) == RewriteRule::<T>::spec_first_unbound(rules@[at as int].shape())
                &&& T::pattern_mentions(rules@[at as int].replacement@, index)
                &&& !T::pattern_mentions(rules@[at as int].pattern@, index)
            },
        },
{
    let ghost shapes = shapes_of(rules@);
    let mut i: usize = 0;
    while i < rules.len()
        invariant
            i <= rules.len(),
            shapes == shapes_of(rules@),
            first_offender::<T>(shapes, 0) == first_offender::<T>(shapes, i as int),
            forall|k: int| 0 <= k < i ==> (#[trigger] rules@[k]).respects_variables(),
        decreases rules.len() - i,
    {
        proof {
            assert(shapes[i as int] == rules@[i as int].shape());
        }
        if let Some(index) = rules[i].first_unbound() {
            return Err((i, index));
        }
        i += 1;
    }
    Ok(rules)
}

/// The shapes of a list of rules.
pub open spec fn shapes_of<T: Rewritable>(rules: Seq<RewriteRule<T>>) -> Seq<
    RuleShape<<T::AsPattern as View>::V>,
> {
    Seq::new(rules.len(), |i: int| rules[i].shape())
}

/// Whether every rule of the list carries the name.
pub open spec fn all_named<T: Rewritable>(rules: Seq<RewriteRule<T>>, name: Seq<char>) -> bool {
    forall|i: int| 0 <= i < rules.len() ==> (#[trigger] rules[i]).name@ == name
}

} // verus!
