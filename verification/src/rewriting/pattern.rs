//! The pattern language: terms with holes.

use crate::nodes::{HashNodeInner, Hashing};
use crate::opcodes::{OPCODE_LITERAL, OPCODE_VARIABLE, OPCODE_WILDCARD};
use vstd::prelude::*;

verus! {

/// The two quantifiers.
#[derive(Debug, Clone, Copy, PartialEq, Eq, Structural)]
pub enum QuantifierType {
    ForAll,
    Exists,
}

/// A pattern over expressions of type `T`.
#[derive(Debug)]
pub enum Pattern<T> {
    /// Matches any subtree and binds the index to it.
    Variable(u32),
    /// Matches any subtree and binds nothing.
    Wildcard,
    /// Matches what has the fingerprint of the value.
    Constant(T),
    /// Matches the constructor named by the opcode, child by child.
    Compound { opcode: u64, args: Vec<Pattern<T>> },
}

/// A pattern as a mathematical tree.
pub enum PatternTree<T> {
    Variable(u32),
    Wildcard,
    Constant(T),
    Compound(u64, Seq<PatternTree<T>>),
}

/// The tree of a pattern.
pub open spec fn pattern_tree<T>(pattern: &Pattern<T>) -> PatternTree<T>
    decreases pattern,
{
    match pattern {
        Pattern::Variable(index) => PatternTree::Variable(*index),
        Pattern::Wildcard => PatternTree::Wildcard,
        Pattern::Constant(value) => PatternTree::Constant(*value),
        Pattern::Compound { opcode, args } => PatternTree::Compound(
            *opcode,
            Seq::new(
                args.len() as nat,
                |i: int|
                    if 0 <= i < args.len() {
                        pattern_tree(&args[i])
                    } else {
                        PatternTree::Wildcard
                    },
            ),
        ),
    }
}

impl<T> View for Pattern<T> {
    type V = PatternTree<T>;

    open spec fn view(&self) -> PatternTree<T> {
        pattern_tree(self)
    }
}

/// The trees of a vector of patterns.
pub open spec fn pattern_trees<T>(patterns: Seq<Pattern<T>>) -> Seq<PatternTree<T>> {
    Seq::new(patterns.len(), |i: int| patterns[i]@)
}

/// A count clipped to what a `usize` holds.
pub open spec fn clipped(n: nat) -> usize {
    if n > usize::MAX as nat {
        usize::MAX
    } else {
        n as usize
    }
}

impl<T> PatternTree<T> {
    /// Whether variable `index` occurs in the tree.
    pub open spec fn mentions(self, index: u32) -> bool
        decreases self,
    {
        match self {
            PatternTree::Variable(i) => i == index,
            PatternTree::Wildcard => false,
            PatternTree::Constant(_) => false,
            PatternTree::Compound(_, args) => exists|k: int|
                0 <= k < args.len() && (#[trigger] args[k]).mentions(index),
        }
    }

    /// Whether a wildcard occurs in the tree.
    pub open spec fn has_wildcard(self) -> bool
        decreases self,
    {
        match self {
            PatternTree::Variable(_) => false,
            PatternTree::Wildcard => true,
            PatternTree::Constant(_) => false,
            PatternTree::Compound(_, args) => exists|k: int|
                0 <= k < args.len() && (#[trigger] args[k]).has_wildcard(),
        }
    }

    /// The variables of the tree, each once, in the order of their first
    /// occurrence from the left, behind those already in `seen`.
    pub open spec fn collect_vars(self, seen: Seq<u32>) -> Seq<u32>
        decreases self, 0nat,
    {
        match self {
            PatternTree::Variable(i) => if seen.contains(i) {
                seen
            } else {
                seen.push(i)
            },
            PatternTree::Wildcard => seen,
            PatternTree::Constant(_) => seen,
            PatternTree::Compound(_, args) => Self::collect_vars_of(args, args.len(), seen),
        }
    }

    /// `collect_vars` over the first `n` trees of `args`.
    pub open spec fn collect_vars_of(args: Seq<PatternTree<T>>, n: nat, seen: Seq<u32>) -> Seq<u32>
        decreases args, n,
    {
        if n == 0 || n > args.len() {
            seen
        } else {
            args[n - 1].collect_vars(Self::collect_vars_of(args, (n - 1) as nat, seen))
        }
    }

    /// The variables of the tree, each once, in the order of their first occurrence.
    pub open spec fn vars(self) -> Seq<u32> {
        self.collect_vars(Seq::empty())
    }

    /// `collect_vars` holds `i` exactly when `seen` held it or the tree mentions it.
    pub proof fn lemma_collect_vars_has(self, seen: Seq<u32>, i: u32)
        ensures
            self.collect_vars(seen).contains(i) <==> (seen.contains(i) || self.mentions(i)),
        decreases self, 0nat,
    {
        match self {
            PatternTree::Variable(v) => {
                if !seen.contains(v) {
                    let pushed = seen.push(v);
                    assert(pushed[seen.len() as int] == v);
                    if seen.contains(i) {
                        let k = choose|k: int| 0 <= k < seen.len() && seen[k] == i;
                        assert(pushed[k] == i);
                    }
                    if pushed.contains(i) {
                        let k = choose|k: int| 0 <= k < pushed.len() && pushed[k] == i;
                        if k < seen.len() {
                            assert(seen[k] == i);
                        }
                    }
                }
            },
            PatternTree::Wildcard => {},
            PatternTree::Constant(_) => {},
            PatternTree::Compound(_, args) => {
                Self::lemma_collect_vars_of_has(args, args.len(), seen, i);
            },
        }
    }

    /// `lemma_collect_vars_has` for the first `n` trees of `args`.
    pub proof fn lemma_collect_vars_of_has(
        args: Seq<PatternTree<T>>,
        n: nat,
        seen: Seq<u32>,
        i: u32,
    )
        requires
            n <= args.len(),
        ensures
            Self::collect_vars_of(args, n, seen).contains(i) <==> (seen.contains(i) || exists|
                k: int,
            |
                0 <= k < n && (#[trigger] args[k]).mentions(i)),
        decreases args, n,
    {
        if n > 0 {
            let before = Self::collect_vars_of(args, (n - 1) as nat, seen);
            Self::lemma_collect_vars_of_has(args, (n - 1) as nat, seen, i);
            args[n - 1].lemma_collect_vars_has(before, i);
            if exists|k: int| 0 <= k < n && (#[trigger] args[k]).mentions(i) {
                let k = choose|k: int| 0 <= k < n && (#[trigger] args[k]).mentions(i);
                if k < n - 1 {
                    assert(args[k].mentions(i));
                }
            }
            if args[n - 1].mentions(i) {
            }
        }
    }

    /// `collect_vars` repeats nothing if `seen` repeated nothing.
    pub proof fn lemma_collect_vars_distinct(self, seen: Seq<u32>)
        requires
            seen.no_duplicates(),
        ensures
            self.collect_vars(seen).no_duplicates(),
        decreases self, 0nat,
    {
        match self {
            PatternTree::Compound(_, args) => {
                Self::lemma_collect_vars_of_distinct(args, args.len(), seen);
            },
            _ => {},
        }
    }

    /// `lemma_collect_vars_distinct` for the first `n` trees of `args`.
    pub proof fn lemma_collect_vars_of_distinct(args: Seq<PatternTree<T>>, n: nat, seen: Seq<u32>)
        requires
            n <= args.len(),
            seen.no_duplicates(),
        ensures
            Self::collect_vars_of(args, n, seen).no_duplicates(),
        decreases args, n,
    {
        if n > 0 {
            Self::lemma_collect_vars_of_distinct(args, (n - 1) as nat, seen);
            args[n - 1].lemma_collect_vars_distinct(
                Self::collect_vars_of(args, (n - 1) as nat, seen),
            );
        }
    }

    /// `vars` lists exactly the variables that the tree mentions, each once.
    pub proof fn lemma_vars(self)
        ensures
            self.vars().no_duplicates(),
            forall|i: u32| self.vars().contains(i) <==> self.mentions(i),
    {
        self.lemma_collect_vars_distinct(Seq::empty());
        assert forall|i: u32| self.vars().contains(i) <==> self.mentions(i) by {
            self.lemma_collect_vars_has(Seq::empty(), i);
        }
    }
}

impl<T: HashNodeInner> PatternTree<T> {
    /// The number of nodes of the tree; a constant counts as its value does.
    pub open spec fn size(self) -> nat
        decreases self, 0nat,
    {
        match self {
            PatternTree::Variable(_) => 1,
            PatternTree::Wildcard => 1,
            PatternTree::Constant(value) => value.spec_size(),
            PatternTree::Compound(_, args) => 1 + Self::size_of(args, args.len()),
        }
    }

    /// The sizes of the first `n` trees of `args`, added up.
    pub open spec fn size_of(args: Seq<PatternTree<T>>, n: nat) -> nat
        decreases args, n,
    {
        if n == 0 || n > args.len() {
            0
        } else {
            Self::size_of(args, (n - 1) as nat) + args[n - 1].size()
        }
    }
}

impl<T: HashNodeInner> PatternTree<T> {
    /// The fingerprint of a pattern: a variable mixes its index into the
    /// opcode of variables, a wildcard has the opcode of wildcards, a
    /// constant mixes the fingerprint of its value into the opcode of
    /// literals, a compound mixes its opcode and the fingerprints of its
    /// arguments into 1.
    pub open spec fn hash(self) -> u64
        decreases self, 0nat,
    {
        match self {
            PatternTree::Variable(index) => Hashing::spec_hash1(OPCODE_VARIABLE, index as u64),
            PatternTree::Wildcard => OPCODE_WILDCARD,
            PatternTree::Constant(value) => Hashing::spec_hash1(OPCODE_LITERAL, value.spec_hash()),
            PatternTree::Compound(opcode, args) => Hashing::spec_root_hash(
                1,
                seq![opcode] + Self::hashes_of(args, args.len()),
            ),
        }
    }

    /// The fingerprints of the first `n` trees of `args`.
    pub open spec fn hashes_of(args: Seq<PatternTree<T>>, n: nat) -> Seq<u64>
        decreases args, n,
    {
        if n == 0 || n > args.len() {
            Seq::empty()
        } else {
            Self::hashes_of(args, (n - 1) as nat).push(args[n - 1].hash())
        }
    }
}

/// Whether `x` is among `items`.
pub fn contains_index(items: &Vec<u32>, x: u32) -> (found: bool)
    ensures
        found == items@.contains(x),
{
    let mut i: usize = 0;
    while i < items.len()
        invariant
            i <= items.len(),
            forall|k: int| 0 <= k < i ==> items@[k] != x,
        decreases items.len() - i,
    {
        if items[i] == x {
            return true;
        }
        i += 1;
    }
    false
}

/// What a sequence holds after one more element.
pub proof fn lemma_push_contains(s: Seq<u32>, x: u32, i: u32)
    ensures
        s.push(x).contains(i) <==> (s.contains(i) || i == x),
{
    let pushed = s.push(x);
    assert(pushed[s.len() as int] == x);
    if s.contains(i) {
        let k = choose|k: int| 0 <= k < s.len() && s[k] == i;
        assert(pushed[k] == i);
    }
    if pushed.contains(i) {
        let k = choose|k: int| 0 <= k < pushed.len() && pushed[k] == i;
        if k < s.len() {
            assert(s[k] == i);
        }
    }
}

/// `first`, then those of the first `n` of `others` that are new, each
/// once, in their order.
pub open spec fn spec_merge(first: Seq<u32>, others: Seq<u32>, n: nat) -> Seq<u32>
    decreases n,
{
    if n == 0 || n > others.len() {
        first
    } else {
        let before = spec_merge(first, others, (n - 1) as nat);
        if before.contains(others[n - 1]) {
            before
        } else {
            before.push(others[n - 1])
        }
    }
}

/// The elements of `first`, then those of `others` that are new, each once.
pub fn merge_distinct(first: Vec<u32>, others: &Vec<u32>) -> (merged: Vec<u32>)
    requires
        first@.no_duplicates(),
    ensures
        merged@ == spec_merge(first@, others@, others@.len()),
        merged@.no_duplicates(),
        forall|i: u32| merged@.contains(i) <==> (first@.contains(i) || others@.contains(i)),
{
    let ghost start = first@;
    let mut merged = first;
    let mut k: usize = 0;
    proof {
        assert(others@.take(0) =~= Seq::<u32>::empty());
    }
    while k < others.len()
        invariant
            k <= others.len(),
            merged@ == spec_merge(start, others@, k as nat),
            merged@.no_duplicates(),
            forall|i: u32|
                #[trigger] merged@.contains(i) <==> (start.contains(i) || others@.take(
                    k as int,
                ).contains(i)),
        decreases others.len() - k,
    {
        let ghost before = merged@;
        let x = others[k];
        let known = contains_index(&merged, x);
        if !known {
            merged.push(x);
        }
        k += 1;
        proof {
            let ghost shorter = others@.take(k - 1);
            assert(others@.take(k as int) =~= shorter.push(x));
            assert forall|i: u32|
                #[trigger] merged@.contains(i) <==> (start.contains(i) || others@.take(
                    k as int,
                ).contains(i)) by {
                lemma_push_contains(shorter, x, i);
                lemma_push_contains(before, x, i);
                assert(before.contains(i) <==> (start.contains(i) || shorter.contains(i)));
                assert(known == before.contains(x));
            }
        }
    }
    proof {
        assert(others@.take(k as int) =~= others@);
    }
    merged
}

impl<T> Pattern<T> {
    pub fn var(index: u32) -> (p: Self)
        ensures
            p == Pattern::<T>::Variable(index),
    {
        Pattern::Variable(index)
    }

    pub fn wildcard() -> (p: Self)
        ensures
            p == Pattern::<T>::Wildcard,
    {
        Pattern::Wildcard
    }

    pub fn constant(value: T) -> (p: Self)
        ensures
            p == Pattern::Constant(value),
    {
        Pattern::Constant(value)
    }

    pub fn compound(opcode: u64, args: Vec<Pattern<T>>) -> (p: Self)
        ensures
            p == (Pattern::Compound { opcode, args }),
            p@ == PatternTree::Compound(opcode, pattern_trees(args@)),
    {
        let p = Pattern::Compound { opcode, args };
        proof {
            assert(p@->Compound_1 =~= pattern_trees(args@));
        }
        p
    }

    pub fn is_variable(&self) -> (b: bool)
        ensures
            b == (self@ is Variable),
    {
        matches!(self, Pattern::Variable(_))
    }

    pub fn is_wildcard(&self) -> (b: bool)
        ensures
            b == (self@ is Wildcard),
    {
        matches!(self, Pattern::Wildcard)
    }

    pub fn is_constant(&self) -> (b: bool)
        ensures
            b == (self@ is Constant),
    {
        matches!(self, Pattern::Constant(_))
    }

    pub fn is_compound(&self) -> (b: bool)
        ensures
            b == (self@ is Compound),
    {
        matches!(self, Pattern::Compound { .. })
    }

    /// The variables of the pattern, each once, in the order of their first
    /// occurrence from the left.
    pub fn vars(&self) -> (vars: Vec<u32>)
        ensures
            vars@ == self@.vars(),
            vars@.no_duplicates(),
            forall|i: u32| vars@.contains(i) <==> self@.mentions(i),
    {
        let mut vars: Vec<u32> = Vec::new();
        self.collect_vars(&mut vars);
        proof {
            self@.lemma_vars();
        }
        vars
    }

    fn collect_vars(&self, vars: &mut Vec<u32>)
        ensures
            final(vars)@ == self@.collect_vars(old(vars)@),
        decreases self,
    {
        match self {
            Pattern::Variable(idx) => {
                if !contains_index(vars, *idx) {
                    vars.push(*idx);
                }
            },
            Pattern::Wildcard => {},
            Pattern::Constant(_) => {},
            Pattern::Compound { opcode, args } => {
                let ghost trees = self@->Compound_1;
                let ghost seen = vars@;
                let mut i: usize = 0;
                while i < args.len()
                    invariant
                        i <= args.len(),
                        self is Compound,
                        self->args == *args,
                        trees == self@->Compound_1,
                        trees.len() == args.len(),
                        vars@ == PatternTree::collect_vars_of(trees, i as nat, seen),
                    decreases args.len() - i,
                {
                    proof {
                        assert(decreases_to!(self => self->args));
                        assert(decreases_to!(self => args[i as int]));
                        assert(trees[i as int] == args[i as int]@);
                    }
                    args[i].collect_vars(vars);
                    i += 1;
                }
            },
        }
    }
}

impl<T: Clone> Clone for Pattern<T> {
    fn clone(&self) -> (copy: Self)
        decreases self,
    {
        match self {
            Pattern::Variable(idx) => Pattern::Variable(*idx),
            Pattern::Wildcard => Pattern::Wildcard,
            Pattern::Constant(c) => Pattern::Constant(c.clone()),
            Pattern::Compound { opcode, args } => {
                let mut copies: Vec<Pattern<T>> = Vec::new();
                let mut i: usize = 0;
                while i < args.len()
                    invariant
                        i <= args.len(),
                        self is Compound,
                        self->args == *args,
                    decreases args.len() - i,
                {
                    proof {
                        assert(decreases_to!(self => self->args));
                        assert(decreases_to!(self => args[i as int]));
                    }
                    copies.push(args[i].clone());
                    i += 1;
                }
                Pattern::Compound { opcode: *opcode, args: copies }
            },
        }
    }
}

impl<T: HashNodeInner> Pattern<T> {
    /// The fingerprint of the pattern.
    pub fn hash(&self) -> (h: u64)
        ensures
            h == self@.hash(),
        decreases self,
    {
        match self {
            Pattern::Variable(index) => Hashing::hash1(OPCODE_VARIABLE, *index as u64),
            Pattern::Wildcard => OPCODE_WILDCARD,
            Pattern::Constant(value) => Hashing::hash1(OPCODE_LITERAL, value.hash()),
            Pattern::Compound { opcode, args } => {
                let ghost trees = self@->Compound_1;
                let mut all: Vec<u64> = Vec::new();
                all.push(*opcode);
                let mut i: usize = 0;
                proof {
                    assert(all@ =~= seq![*opcode] + PatternTree::<T>::hashes_of(trees, 0));
                }
                while i < args.len()
                    invariant
                        i <= args.len(),
                        self is Compound,
                        self->args == *args,
                        self@ == PatternTree::Compound(*opcode, trees),
                        trees.len() == args.len(),
                        all@ == seq![*opcode] + PatternTree::<T>::hashes_of(trees, i as nat),
                    decreases args.len() - i,
                {
                    proof {
                        assert(decreases_to!(self => self->args));
                        assert(decreases_to!(self => args[i as int]));
                        assert(trees[i as int] == args[i as int]@);
                    }
                    let h = args[i].hash();
                    all.push(h);
                    proof {
                        assert(all@ =~= seq![*opcode] + PatternTree::<T>::hashes_of(
                            trees,
                            (i + 1) as nat,
                        ));
                    }
                    i += 1;
                }
                Hashing::root_hash(1, all.as_slice())
            },
        }
    }

    /// The number of nodes of the pattern, held at `usize::MAX` beyond that.
    pub fn size(&self) -> (n: usize)
        ensures
            n == clipped(self@.size()),
        decreases self,
    {
        match self {
            Pattern::Variable(_) => 1,
            Pattern::Wildcard => 1,
            Pattern::Constant(t) => {
                let s = t.size();
                if s > usize::MAX as u64 {
                    usize::MAX
                } else {
                    s as usize
                }
            },
            Pattern::Compound { opcode, args } => {
                let ghost trees = self@->Compound_1;
                let mut total: usize = 0;
                let mut i: usize = 0;
                while i < args.len()
                    invariant
                        i <= args.len(),
                        self is Compound,
                        self->args == *args,
                        trees == self@->Compound_1,
                        trees.len() == args.len(),
                        total == clipped(PatternTree::size_of(trees, i as nat)),
                    decreases args.len() - i,
                {
                    proof {
                        assert(decreases_to!(self => self->args));
                        assert(decreases_to!(self => args[i as int]));
                        assert(trees[i as int] == args[i as int]@);
                    }
                    let s = args[i].size();
                    total = total.saturating_add(s);
                    i += 1;
                }
                total.saturating_add(1)
            },
        }
    }
}

} // verus!
