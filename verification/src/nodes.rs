//! Hash-consed nodes: structural fingerprints, shared immutable nodes and the
//! store that keeps one canonical node per fingerprint.

use std::collections::HashMap;
use std::rc::Rc;
use vstd::prelude::*;
use vstd::std_specs::cmp::PartialEqSpecImpl;
use vstd::std_specs::convert::FromSpecImpl;

verus! {

/// What a value needs in order to live inside a [`HashNode`]: a structural
/// fingerprint, a node count, and a structural comparison.
pub trait HashNodeInner: Sized {
    /// The 64-bit structural fingerprint of the value.
    spec fn spec_hash(&self) -> u64;

    /// The number of nodes in the value's tree.
    spec fn spec_size(&self) -> nat;

    /// Every value counts at least itself.
    proof fn lemma_size_positive(&self)
        ensures
            self.spec_size() >= 1,
    ;

    fn hash(&self) -> (h: u64)
        ensures
            h == self.spec_hash(),
    ;

    /// The node count, held at `u64::MAX` once the tree is larger than that.
    fn size(&self) -> (s: u64)
        ensures
            s == saturated(self.spec_size()),
    ;

    /// Structural equality.
    fn same(&self, other: &Self) -> (b: bool)
        ensures
            b == (*self == *other),
    ;

    /// A copy that shares the children.
    fn duplicate(&self) -> (copy: Self)
        ensures
            copy == *self,
    ;

    /// The opcode and the children of a compound; `None` for a leaf.
    spec fn spec_decompose(&self) -> Option<(u64, Seq<HashNode<Self>>)>;

    /// The compound with this opcode over these children; `None` where the
    /// opcode names no constructor of that many children.
    spec fn spec_construct(opcode: u64, children: Seq<HashNode<Self>>) -> Option<Self>;

    /// Taking a compound apart and putting it together again gives it back,
    /// and each child is smaller than the compound.
    proof fn lemma_decompose_construct(&self)
        ensures
            self.spec_decompose() matches Some((opcode, children)) ==> Self::spec_construct(
                opcode,
                children,
            ) == Some(*self) && forall|i: int|
                0 <= i < children.len() ==> (#[trigger] children[i]).value.spec_size()
                    < self.spec_size(),
    ;

    /// What was put together comes apart into the same opcode and children.
    proof fn lemma_construct_decompose(opcode: u64, children: Seq<HashNode<Self>>)
        ensures
            Self::spec_construct(opcode, children) matches Some(built) ==> built.spec_decompose()
                == Some((opcode, children)),
    ;

    /// Whether an opcode builds a compound depends on the number of children
    /// alone, and the fingerprint of the compound on the children's
    /// fingerprints alone.
    proof fn lemma_construct_congruent(
        opcode: u64,
        left: Seq<HashNode<Self>>,
        right: Seq<HashNode<Self>>,
    )
        requires
            left.len() == right.len(),
        ensures
            Self::spec_construct(opcode, left) is Some == Self::spec_construct(opcode, right) is Some,
            Self::spec_construct(opcode, left) is Some && (forall|i: int|
                0 <= i < left.len() ==> (#[trigger] left[i]).value.spec_hash()
                    == right[i].value.spec_hash())
                ==> Self::spec_construct(opcode, left).unwrap().spec_hash() == Self::spec_construct(
                opcode,
                right,
            ).unwrap().spec_hash(),
    ;

    fn decompose(&self) -> (parts: Option<(u64, Vec<HashNode<Self>>)>)
        ensures
            parts is Some == self.spec_decompose() is Some,
            parts matches Some((opcode, children)) ==> self.spec_decompose() == Some(
                (opcode, children@),
            ),
    ;

    /// Builds the compound.
    fn construct_from_parts(opcode: u64, children: Vec<HashNode<Self>>) -> (built: Option<Self>)
        ensures
            built == Self::spec_construct(opcode, children@),
    ;
}

/// `spec_construct`, as a node.
pub open spec fn spec_construct_node<T: HashNodeInner>(
    opcode: u64,
    children: Seq<HashNode<T>>,
) -> Option<HashNode<T>> {
    match T::spec_construct(opcode, children) {
        Some(value) => Some(HashNode::of(value)),
        None => None,
    }
}

/// A count clipped to what a `u64` holds.
pub open spec fn saturated(n: nat) -> u64 {
    if n > u64::MAX as nat {
        u64::MAX
    } else {
        n as u64
    }
}

/// Clipping commutes with addition: the clipped sum of two clipped counts is
/// the clipped sum of the counts.
pub proof fn lemma_saturated_add(x: nat, y: nat)
    ensures
        saturated(saturated(x) as nat + saturated(y) as nat) == saturated(x + y),
{
}

/// Namespace of the fingerprint functions.
pub struct Hashing;

/// The additive constant of the mixer.
pub const HASH_MAGIC: u64 = 0x9e3779b9;

impl Hashing {
    /// The mixer folded over the children of a compound:
    /// `seed ^ (value + 0x9e3779b9 + (seed << 6) + (seed >> 2))`, all sums modulo 2^64.
    pub open spec fn spec_hash_combine(seed: u64, value: u64) -> u64 {
        seed ^ (value.wrapping_add(HASH_MAGIC).wrapping_add(seed << 6).wrapping_add(seed >> 2))
    }

    /// The fingerprint of a compound: start from the opcode and mix in each
    /// child's fingerprint, left to right.
    pub open spec fn spec_root_hash(opcode: u64, children: Seq<u64>) -> u64
        decreases children.len(),
    {
        if children.len() == 0 {
            opcode
        } else {
            Self::spec_hash_combine(
                Self::spec_root_hash(opcode, children.drop_last()),
                children.last(),
            )
        }
    }

    pub fn hash_combine(hash1: u64, hash2: u64) -> (r: u64)
        ensures
            r == Self::spec_hash_combine(hash1, hash2),
    {
        hash1 ^ (hash2.wrapping_add(HASH_MAGIC).wrapping_add(hash1 << 6).wrapping_add(hash1 >> 2))
    }

    pub fn root_hash(root_opcode: u64, children: &[u64]) -> (r: u64)
        ensures
            r == Self::spec_root_hash(root_opcode, children@),
    {
        let mut result: u64 = root_opcode;
        let mut i: usize = 0;
        while i < children.len()
            invariant
                i <= children.len(),
                result == Self::spec_root_hash(root_opcode, children@.take(i as int)),
            decreases children.len() - i,
        {
            proof {
                assert(children@.take(i + 1).drop_last() =~= children@.take(i as int));
            }
            result = Self::hash_combine(result, children[i]);
            i += 1;
        }
        proof {
            assert(children@.take(i as int) =~= children@);
        }
        result
    }

    /// `root_hash` on one child.
    pub fn hash1(opcode: u64, a: u64) -> (r: u64)
        ensures
            r == Self::spec_hash1(opcode, a),
            r == Self::spec_root_hash(opcode, seq![a]),
    {
        proof {
            Self::lemma_root_hash_small(opcode, a, a, a);
        }
        Self::hash_combine(opcode, a)
    }

    /// `root_hash` on two children.
    pub fn hash2(opcode: u64, a: u64, b: u64) -> (r: u64)
        ensures
            r == Self::spec_hash2(opcode, a, b),
            r == Self::spec_root_hash(opcode, seq![a, b]),
    {
        proof {
            Self::lemma_root_hash_small(opcode, a, b, b);
        }
        Self::hash_combine(Self::hash_combine(opcode, a), b)
    }

    /// `root_hash` on three children.
    pub fn hash3(opcode: u64, a: u64, b: u64, c: u64) -> (r: u64)
        ensures
            r == Self::spec_hash3(opcode, a, b, c),
            r == Self::spec_root_hash(opcode, seq![a, b, c]),
    {
        proof {
            Self::lemma_root_hash_small(opcode, a, b, c);
        }
        Self::hash_combine(Self::hash_combine(Self::hash_combine(opcode, a), b), c)
    }

    /// The fingerprint of a compound with three children.
    pub open spec fn spec_hash3(opcode: u64, a: u64, b: u64, c: u64) -> u64 {
        Self::spec_hash_combine(Self::spec_hash2(opcode, a, b), c)
    }

    /// The fingerprint of a leaf that carries one number.
    pub open spec fn spec_hash1(opcode: u64, a: u64) -> u64 {
        Self::spec_hash_combine(opcode, a)
    }

    /// The fingerprint of a compound with two children.
    pub open spec fn spec_hash2(opcode: u64, a: u64, b: u64) -> u64 {
        Self::spec_hash_combine(Self::spec_hash_combine(opcode, a), b)
    }

    /// `spec_root_hash` on one, two and three children, written out.
    pub proof fn lemma_root_hash_small(opcode: u64, a: u64, b: u64, c: u64)
        ensures
            Self::spec_root_hash(opcode, seq![]) == opcode,
            Self::spec_root_hash(opcode, seq![a]) == Self::spec_hash1(opcode, a),
            Self::spec_root_hash(opcode, seq![a, b]) == Self::spec_hash2(opcode, a, b),
            Self::spec_root_hash(opcode, seq![a, b, c]) == Self::spec_hash3(opcode, a, b, c),
    {
        assert(seq![a].drop_last() =~= Seq::<u64>::empty());
        assert(seq![a, b].drop_last() =~= seq![a]);
        assert(seq![a, b, c].drop_last() =~= seq![a, b]);
        reveal_with_fuel(Hashing::spec_root_hash, 4);
    }
}

/// A shared, immutable node. Two nodes count as the same node when their
/// fingerprints agree.
#[derive(Debug)]
pub struct HashNode<T> {
    pub value: Rc<T>,
}

/// `Rc::clone`: a second pointer to the same allocation, so the value behind
/// the result is the value behind the argument.
#[verifier::external_body]
fn share<T>(rc: &Rc<T>) -> (res: Rc<T>)
    ensures
        res == *rc,
{
    Rc::clone(rc)
}

impl<T> Clone for HashNode<T> {
    fn clone(&self) -> (res: Self)
        ensures
            res == *self,
    {
        HashNode { value: share(&self.value) }
    }
}

impl<T> HashNode<T> {
    /// The node that holds `value`.
    pub open spec fn of(value: T) -> Self {
        HashNode { value: Rc::new(value) }
    }
}

impl<T> From<T> for HashNode<T> {
    /// A fresh node outside any store.
    fn from(value: T) -> (node: Self) {
        HashNode { value: Rc::new(value) }
    }
}

impl<T> FromSpecImpl<T> for HashNode<T> {
    open spec fn obeys_from_spec() -> bool {
        true
    }

    /// The node that holds the value, outside any store.
    open spec fn from_spec(value: T) -> Self {
        HashNode::of(value)
    }
}

impl<T: HashNodeInner> HashNode<T> {
    pub open spec fn spec_hash(&self) -> u64 {
        self.value.spec_hash()
    }

    pub open spec fn spec_size(&self) -> nat {
        self.value.spec_size()
    }

    pub fn size(&self) -> (s: u64)
        ensures
            s == saturated(self.spec_size()),
    {
        self.value.size()
    }

    pub fn hash(&self) -> (h: u64)
        ensures
            h == self.spec_hash(),
    {
        self.value.hash()
    }

    /// Interns `value` in `store` and hands back its node.
    pub fn from_store(value: T, store: &mut NodeStorage<T>) -> (node: Self)
        ensures
            node == Self::of(value),
            final(store)@ == NodeStorage::<T>::spec_intern(old(store)@, value),
            NodeStorage::<T>::extends(old(store)@, final(store)@),
    {
        store.get_or_insert(value)
    }
}

/// Nodes that hold equal values are equal and have equal fingerprints and
/// sizes, whichever way and in whichever store they were built.
pub proof fn lemma_equal_values_equal_hashes<T: HashNodeInner>(a: HashNode<T>, b: HashNode<T>)
    requires
        *a.value == *b.value,
    ensures
        a == b,
        a.spec_hash() == b.spec_hash(),
        a.spec_size() == b.spec_size(),
{
}

impl<T: HashNodeInner> PartialEq for HashNode<T> {
    fn eq(&self, other: &Self) -> (b: bool) {
        self.value.hash() == other.value.hash()
    }
}

impl<T: HashNodeInner> PartialEqSpecImpl for HashNode<T> {
    open spec fn obeys_eq_spec() -> bool {
        true
    }

    open spec fn eq_spec(&self, other: &Self) -> bool {
        self.value.spec_hash() == other.value.spec_hash()
    }
}

/// One canonical node per fingerprint.
pub struct NodeStorage<T> {
    nodes: HashMap<u64, HashNode<T>>,
}

impl<T: HashNodeInner> NodeStorage<T> {
    /// The store as a map from fingerprint to node.
    pub closed spec fn view(&self) -> Map<u64, HashNode<T>> {
        self.nodes@
    }

    /// Every key is the fingerprint of the node filed under it.
    pub open spec fn keyed_by_hash(m: Map<u64, HashNode<T>>) -> bool {
        forall|h: u64| #[trigger] m.contains_key(h) ==> m[h].spec_hash() == h
    }

    /// The invariant of a store: it is keyed by fingerprint.
    pub open spec fn wf(&self) -> bool {
        Self::keyed_by_hash(self@)
    }

    /// `after` holds everything `before` holds, unchanged, and files what it
    /// added under the right fingerprints.
    pub open spec fn extends(before: Map<u64, HashNode<T>>, after: Map<u64, HashNode<T>>) -> bool {
        &&& forall|h: u64| #[trigger]
            before.contains_key(h) ==> after.contains_key(h) && after[h] == before[h]
        &&& forall|h: u64| #[trigger]
            after.contains_key(h) && !before.contains_key(h) ==> after[h].spec_hash() == h
    }

    /// What interning `value` does to a store: nothing when its fingerprint
    /// is filed already, one new entry otherwise.
    pub open spec fn spec_intern(m: Map<u64, HashNode<T>>, value: T) -> Map<u64, HashNode<T>> {
        if m.contains_key(value.spec_hash()) {
            m
        } else {
            m.insert(value.spec_hash(), HashNode::of(value))
        }
    }

    /// Interning what was interned changes nothing more, and hands back the
    /// same node: deduplication is idempotent.
    pub proof fn lemma_intern_idempotent(m: Map<u64, HashNode<T>>, value: T)
        ensures
            Self::spec_intern(Self::spec_intern(m, value), *HashNode::of(value).value)
                == Self::spec_intern(m, value),
            HashNode::of(*HashNode::of(value).value) == HashNode::of(value),
            Self::spec_intern(m, value).contains_key(value.spec_hash()),
            !m.contains_key(value.spec_hash()) ==> Self::spec_intern(m, value)[value.spec_hash()]
                == HashNode::of(value),
    {
    }

    /// Interning extends a store.
    pub proof fn lemma_intern_extends(m: Map<u64, HashNode<T>>, value: T)
        ensures
            Self::extends(m, Self::spec_intern(m, value)),
    {
    }

    /// A store extends itself, and extending twice extends.
    pub proof fn lemma_extends_chain(
        a: Map<u64, HashNode<T>>,
        b: Map<u64, HashNode<T>>,
        c: Map<u64, HashNode<T>>,
    )
        ensures
            Self::extends(a, a),
            Self::extends(a, b) && Self::extends(b, c) ==> Self::extends(a, c),
    {
    }

    /// Extending keeps a store keyed by fingerprint.
    pub proof fn lemma_extends_keeps_keys(before: Map<u64, HashNode<T>>, after: Map<u64, HashNode<T>>)
        requires
            Self::keyed_by_hash(before),
            Self::extends(before, after),
        ensures
            Self::keyed_by_hash(after),
    {
        assert forall|h: u64| #[trigger] after.contains_key(h) implies after[h].spec_hash() == h by {
            if before.contains_key(h) {
            }
        }
    }

    pub fn new() -> (store: Self)
        ensures
            store@ == Map::<u64, HashNode<T>>::empty(),
            store.wf(),
    {
        NodeStorage { nodes: HashMap::new() }
    }

    /// Insert-or-get. The node handed back always holds `value`: it is the
    /// stored node when that one holds the same value, and a fresh node
    /// otherwise. A fresh node is filed only when its fingerprint was free.
    pub fn get_or_insert(&mut self, value: T) -> (node: HashNode<T>)
        ensures
            node == HashNode::of(value),
            final(self)@ == Self::spec_intern(old(self)@, value),
            Self::extends(old(self)@, final(self)@),
    {
        broadcast use vstd::std_specs::hash::group_hash_axioms;

        let hash = value.hash();
        match self.nodes.get(&hash) {
            Some(existing) => {
                if existing.value.same(&value) {
                    existing.clone()
                } else {
                    HashNode { value: Rc::new(value) }
                }
            },
            None => {
                let node = HashNode { value: Rc::new(value) };
                self.nodes.insert(hash, node.clone());
                node
            },
        }
    }

    /// Lookup only.
    pub fn get(&self, hash: u64) -> (found: Option<HashNode<T>>)
        ensures
            found == (if self@.contains_key(hash) {
                Some(self@[hash])
            } else {
                None
            }),
    {
        broadcast use vstd::std_specs::hash::group_hash_axioms;

        match self.nodes.get(&hash) {
            Some(existing) => Some(existing.clone()),
            None => None,
        }
    }

    pub fn len(&self) -> (n: usize)
        ensures
            n == self@.len(),
    {
        self.nodes.len()
    }

    pub fn clear(&mut self)
        ensures
            final(self)@ == Map::<u64, HashNode<T>>::empty(),
            final(self).wf(),
    {
        self.nodes.clear();
    }
}

impl<T: HashNodeInner> Default for NodeStorage<T> {
    fn default() -> (store: Self)
        ensures
            store@ == Map::<u64, HashNode<T>>::empty(),
    {
        Self::new()
    }
}

impl HashNodeInner for u64 {
    open spec fn spec_hash(&self) -> u64 {
        *self
    }

    open spec fn spec_size(&self) -> nat {
        1
    }

    proof fn lemma_size_positive(&self) {
    }

    fn hash(&self) -> (h: u64) {
        *self
    }

    fn size(&self) -> (s: u64) {
        1
    }

    fn same(&self, other: &Self) -> (b: bool) {
        *self == *other
    }

    fn duplicate(&self) -> (copy: Self) {
        *self
    }

    open spec fn spec_decompose(&self) -> Option<(u64, Seq<HashNode<Self>>)> {
        None
    }

    open spec fn spec_construct(opcode: u64, children: Seq<HashNode<Self>>) -> Option<Self> {
        None
    }

    proof fn lemma_decompose_construct(&self) {
    }

    proof fn lemma_construct_decompose(opcode: u64, children: Seq<HashNode<Self>>) {
    }

    proof fn lemma_construct_congruent(
        opcode: u64,
        left: Seq<HashNode<Self>>,
        right: Seq<HashNode<Self>>,
    ) {
    }

    fn decompose(&self) -> (parts: Option<(u64, Vec<HashNode<Self>>)>) {
        None
    }

    fn construct_from_parts(opcode: u64, children: Vec<HashNode<Self>>) -> (built: Option<Self>) {
        None
    }
}

impl HashNodeInner for u32 {
    open spec fn spec_hash(&self) -> u64 {
        *self as u64
    }

    open spec fn spec_size(&self) -> nat {
        1
    }

    proof fn lemma_size_positive(&self) {
    }

    fn hash(&self) -> (h: u64) {
        *self as u64
    }

    fn size(&self) -> (s: u64) {
        1
    }

    fn same(&self, other: &Self) -> (b: bool) {
        *self == *other
    }

    fn duplicate(&self) -> (copy: Self) {
        *self
    }

    open spec fn spec_decompose(&self) -> Option<(u64, Seq<HashNode<Self>>)> {
        None
    }

    open spec fn spec_construct(opcode: u64, children: Seq<HashNode<Self>>) -> Option<Self> {
        None
    }

    proof fn lemma_decompose_construct(&self) {
    }

    proof fn lemma_construct_decompose(opcode: u64, children: Seq<HashNode<Self>>) {
    }

    proof fn lemma_construct_congruent(
        opcode: u64,
        left: Seq<HashNode<Self>>,
        right: Seq<HashNode<Self>>,
    ) {
    }

    fn decompose(&self) -> (parts: Option<(u64, Vec<HashNode<Self>>)>) {
        None
    }

    fn construct_from_parts(opcode: u64, children: Vec<HashNode<Self>>) -> (built: Option<Self>) {
        None
    }
}

} // verus!
