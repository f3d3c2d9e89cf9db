//! Truth values.

use crate::nodes::{HashNode, HashNodeInner};
use vstd::prelude::*;
use vstd::std_specs::convert::FromSpecImpl;

verus! {

/// What a logic needs of its truth values.
pub trait TruthValue: Sized {
    /// The boolean that the value stands for, if it stands for one.
    spec fn spec_as_bool(&self) -> Option<bool>;

    spec fn spec_from_bool(value: bool) -> Self;

    spec fn spec_and(&self, other: &Self) -> Self;

    spec fn spec_or(&self, other: &Self) -> Self;

    spec fn spec_not(&self) -> Self;

    spec fn spec_implies(&self, other: &Self) -> Self;

    spec fn spec_conjunction(values: Seq<Self>) -> Self;

    spec fn spec_disjunction(values: Seq<Self>) -> Self;

    fn is_true(&self) -> (b: bool)
        ensures
            b == (self.spec_as_bool() == Some(true)),
    ;

    fn is_false(&self) -> (b: bool)
        ensures
            b == (self.spec_as_bool() == Some(false)),
    ;

    fn as_bool(&self) -> (b: Option<bool>)
        ensures
            b == self.spec_as_bool(),
    ;

    fn from_bool(value: bool) -> (t: Self)
        ensures
            t == Self::spec_from_bool(value),
            t.spec_as_bool() == Some(value),
    ;

    fn and(&self, other: &Self) -> (t: Self)
        ensures
            t == self.spec_and(other),
    ;

    fn or(&self, other: &Self) -> (t: Self)
        ensures
            t == self.spec_or(other),
    ;

    fn not(&self) -> (t: Self)
        ensures
            t == self.spec_not(),
    ;

    fn implies(&self, other: &Self) -> (t: Self)
        ensures
            t == self.spec_implies(other),
    ;

    fn conjunction(values: &[Self]) -> (t: Self)
        ensures
            t == Self::spec_conjunction(values@),
    ;

    fn disjunction(values: &[Self]) -> (t: Self)
        ensures
            t == Self::spec_disjunction(values@),
    ;
}

/// The two truth values of classical logic.
#[derive(Debug, Clone, Copy, PartialEq, Eq, Structural)]
pub enum BinaryTruth {
    True,
    False,
}

impl BinaryTruth {
    /// The truth value as a boolean.
    pub open spec fn holds(self) -> bool {
        self is True
    }

    /// The boolean as a truth value.
    pub open spec fn of(value: bool) -> BinaryTruth {
        if value {
            BinaryTruth::True
        } else {
            BinaryTruth::False
        }
    }

    pub fn const_and(self, other: Self) -> (t: Self)
        ensures
            t == Self::of(self.holds() && other.holds()),
    {
        match (self, other) {
            (BinaryTruth::True, BinaryTruth::True) => BinaryTruth::True,
            _ => BinaryTruth::False,
        }
    }

    pub fn const_or(self, other: Self) -> (t: Self)
        ensures
            t == Self::of(self.holds() || other.holds()),
    {
        match (self, other) {
            (BinaryTruth::False, BinaryTruth::False) => BinaryTruth::False,
            _ => BinaryTruth::True,
        }
    }

    pub fn const_not(self) -> (t: Self)
        ensures
            t == Self::of(!self.holds()),
    {
        match self {
            BinaryTruth::True => BinaryTruth::False,
            BinaryTruth::False => BinaryTruth::True,
        }
    }

    pub fn const_implies(self, other: Self) -> (t: Self)
        ensures
            t == Self::of(self.holds() ==> other.holds()),
    {
        match (self, other) {
            (BinaryTruth::False, _) => BinaryTruth::True,
            (_, BinaryTruth::True) => BinaryTruth::True,
            (BinaryTruth::True, BinaryTruth::False) => BinaryTruth::False,
        }
    }

    /// `"true"` or `"false"`.
    pub fn to_string(&self) -> (text: String)
        ensures
            text@ == (if self.holds() {
                "true"@
            } else {
                "false"@
            }),
    {
        match self {
            BinaryTruth::True => "true".to_owned(),
            BinaryTruth::False => "false".to_owned(),
        }
    }
}

impl TruthValue for BinaryTruth {
    open spec fn spec_as_bool(&self) -> Option<bool> {
        Some(self.holds())
    }

    open spec fn spec_from_bool(value: bool) -> Self {
        Self::of(value)
    }

    open spec fn spec_and(&self, other: &Self) -> Self {
        Self::of(self.holds() && other.holds())
    }

    open spec fn spec_or(&self, other: &Self) -> Self {
        Self::of(self.holds() || other.holds())
    }

    open spec fn spec_not(&self) -> Self {
        Self::of(!self.holds())
    }

    open spec fn spec_implies(&self, other: &Self) -> Self {
        Self::of(self.holds() ==> other.holds())
    }

    open spec fn spec_conjunction(values: Seq<Self>) -> Self {
        Self::of(forall|i: int| 0 <= i < values.len() ==> (#[trigger] values[i]).holds())
    }

    open spec fn spec_disjunction(values: Seq<Self>) -> Self {
        Self::of(exists|i: int| 0 <= i < values.len() && (#[trigger] values[i]).holds())
    }

    fn is_true(&self) -> (b: bool) {
        matches!(self, BinaryTruth::True)
    }

    fn is_false(&self) -> (b: bool) {
        matches!(self, BinaryTruth::False)
    }

    fn as_bool(&self) -> (b: Option<bool>) {
        Some(self.is_true())
    }

    fn from_bool(value: bool) -> (t: Self) {
        if value {
            BinaryTruth::True
        } else {
            BinaryTruth::False
        }
    }

    fn and(&self, other: &Self) -> (t: Self) {
        self.const_and(*other)
    }

    fn or(&self, other: &Self) -> (t: Self) {
        self.const_or(*other)
    }

    fn not(&self) -> (t: Self) {
        self.const_not()
    }

    fn implies(&self, other: &Self) -> (t: Self) {
        self.const_implies(*other)
    }

    fn conjunction(values: &[Self]) -> (t: Self) {
        let mut i: usize = 0;
        while i < values.len()
            invariant
                i <= values.len(),
                forall|k: int| 0 <= k < i ==> (#[trigger] values@[k]).holds(),
            decreases values.len() - i,
        {
            if !values[i].is_true() {
                return BinaryTruth::False;
            }
            i += 1;
        }
        BinaryTruth::True
    }

    fn disjunction(values: &[Self]) -> (t: Self) {
        let mut i: usize = 0;
        while i < values.len()
            invariant
                i <= values.len(),
                forall|k: int| 0 <= k < i ==> !(#[trigger] values@[k]).holds(),
            decreases values.len() - i,
        {
            if values[i].is_true() {
                return BinaryTruth::True;
            }
            i += 1;
        }
        BinaryTruth::False
    }
}

impl Default for BinaryTruth {
    fn default() -> (t: Self)
        ensures
            t == BinaryTruth::False,
    {
        BinaryTruth::False
    }
}

impl From<bool> for BinaryTruth {
    fn from(value: bool) -> (t: Self) {
        if value {
            BinaryTruth::True
        } else {
            BinaryTruth::False
        }
    }
}

impl FromSpecImpl<bool> for BinaryTruth {
    open spec fn obeys_from_spec() -> bool {
        true
    }

    open spec fn from_spec(value: bool) -> Self {
        BinaryTruth::of(value)
    }
}

impl From<BinaryTruth> for bool {
    fn from(value: BinaryTruth) -> (b: Self) {
        matches!(value, BinaryTruth::True)
    }
}

impl FromSpecImpl<BinaryTruth> for bool {
    open spec fn obeys_from_spec() -> bool {
        true
    }

    open spec fn from_spec(value: BinaryTruth) -> Self {
        value.holds()
    }
}

impl HashNodeInner for BinaryTruth {
    open spec fn spec_hash(&self) -> u64 {
        match self {
            BinaryTruth::True => 1,
            BinaryTruth::False => 0,
        }
    }

    open spec fn spec_size(&self) -> nat {
        1
    }

    proof fn lemma_size_positive(&self) {
    }

    fn hash(&self) -> (h: u64) {
        match self {
            BinaryTruth::True => 1,
            BinaryTruth::False => 0,
        }
    }

    fn size(&self) -> (s: u64) {
        1
    }

    fn same(&self, other: &Self) -> (b: bool) {
        *self == *other
    }

    fn duplicate(&self) -> (copy: Self) {
        *self
    }

    open spec fn spec_decompose(&self) -> Option<(u64, Seq<HashNode<Self>>)> {
        None
    }

    open spec fn spec_construct(opcode: u64, children: Seq<HashNode<Self>>) -> Option<Self> {
        None
    }

    proof fn lemma_decompose_construct(&self) {
    }

    proof fn lemma_construct_decompose(opcode: u64, children: Seq<HashNode<Self>>) {
    }

    proof fn lemma_construct_congruent(
        opcode: u64,
        left: Seq<HashNode<Self>>,
        right: Seq<HashNode<Self>>,
    ) {
    }

    fn decompose(&self) -> (parts: Option<(u64, Vec<HashNode<Self>>)>) {
        None
    }

    fn construct_from_parts(opcode: u64, children: Vec<HashNode<Self>>) -> (built: Option<Self>) {
        None
    }
}

} // verus!
