//! The opcode of each constructor: fixed tags, no two alike.

use crate::logic::same_text;
use crate::nodes::{HashNode, HashNodeInner, Hashing, NodeStorage};
use vstd::prelude::*;

verus! {

pub const OPCODE_AND: u64 = 1;

pub const OPCODE_OR: u64 = 2;

pub const OPCODE_IMPLY: u64 = 3;

pub const OPCODE_NOT: u64 = 4;

pub const OPCODE_IFF: u64 = 5;

pub const OPCODE_FORALL: u64 = 6;

pub const OPCODE_EXISTS: u64 = 7;

pub const OPCODE_EQUALS: u64 = 8;

pub const OPCODE_DOMAIN_CONTENT: u64 = 9;

pub const OPCODE_BOOLEAN_CONSTANT: u64 = 10;

pub const OPCODE_EQUALITY: u64 = 11;

pub const OPCODE_ADD: u64 = 12;

pub const OPCODE_SUCCESSOR: u64 = 13;

pub const OPCODE_NUMBER: u64 = 14;

pub const OPCODE_DEBRUIJN: u64 = 15;

pub const OPCODE_VARIABLE: u64 = 16;

pub const OPCODE_WILDCARD: u64 = 17;

pub const OPCODE_LITERAL: u64 = 18;

pub const OPCODE_DOMAIN_PATTERN: u64 = 19;

/// The opcode that a constructor name stands for; 0 for a name that names
/// no constructor.
pub open spec fn spec_opcode(name: Seq<char>) -> u64 {
    if name == "AND"@ {
        OPCODE_AND
    } else if name == "OR"@ {
        OPCODE_OR
    } else if name == "IMPLY"@ {
        OPCODE_IMPLY
    } else if name == "NOT"@ {
        OPCODE_NOT
    } else if name == "IFF"@ {
        OPCODE_IFF
    } else if name == "FORALL"@ {
        OPCODE_FORALL
    } else if name == "EXISTS"@ {
        OPCODE_EXISTS
    } else if name == "EQUALS"@ {
        OPCODE_EQUALS
    } else if name == "DOMAIN_CONTENT"@ {
        OPCODE_DOMAIN_CONTENT
    } else if name == "BOOLEAN_CONSTANT"@ {
        OPCODE_BOOLEAN_CONSTANT
    } else if name == "EQUALITY"@ {
        OPCODE_EQUALITY
    } else if name == "add"@ {
        OPCODE_ADD
    } else if name == "successor"@ {
        OPCODE_SUCCESSOR
    } else if name == "number"@ {
        OPCODE_NUMBER
    } else if name == "debruijn"@ {
        OPCODE_DEBRUIJN
    } else if name == "variable"@ {
        OPCODE_VARIABLE
    } else if name == "wildcard"@ {
        OPCODE_WILDCARD
    } else if name == "literal"@ {
        OPCODE_LITERAL
    } else if name == "DOMAIN_PATTERN"@ {
        OPCODE_DOMAIN_PATTERN
    } else {
        0
    }
}

impl Hashing {
    /// The opcode that a constructor name stands for.
    pub fn opcode(name: &str) -> (tag: u64)
        ensures
            tag == spec_opcode(name@),
    {
        if same_text(name, "AND") {
            OPCODE_AND
        } else if same_text(name, "OR") {
            OPCODE_OR
        } else if same_text(name, "IMPLY") {
            OPCODE_IMPLY
        } else if same_text(name, "NOT") {
            OPCODE_NOT
        } else if same_text(name, "IFF") {
            OPCODE_IFF
        } else if same_text(name, "FORALL") {
            OPCODE_FORALL
        } else if same_text(name, "EXISTS") {
            OPCODE_EXISTS
        } else if same_text(name, "EQUALS") {
            OPCODE_EQUALS
        } else if same_text(name, "DOMAIN_CONTENT") {
            OPCODE_DOMAIN_CONTENT
        } else if same_text(name, "BOOLEAN_CONSTANT") {
            OPCODE_BOOLEAN_CONSTANT
        } else if same_text(name, "EQUALITY") {
            OPCODE_EQUALITY
        } else if same_text(name, "add") {
            OPCODE_ADD
        } else if same_text(name, "successor") {
            OPCODE_SUCCESSOR
        } else if same_text(name, "number") {
            OPCODE_NUMBER
        } else if same_text(name, "debruijn") {
            OPCODE_DEBRUIJN
        } else if same_text(name, "variable") {
            OPCODE_VARIABLE
        } else if same_text(name, "wildcard") {
            OPCODE_WILDCARD
        } else if same_text(name, "literal") {
            OPCODE_LITERAL
        } else if same_text(name, "DOMAIN_PATTERN") {
            OPCODE_DOMAIN_PATTERN
        } else {
            0
        }
    }
}

/// Builds the expressions of a domain from opcodes.
pub trait OpcodeMapper<T: HashNodeInner> {
    /// Whether the opcode names a constructor of the domain.
    spec fn spec_is_valid_opcode(&self, opcode: u64) -> bool;

    /// How many children the constructor of an opcode takes.
    spec fn spec_arity_for_opcode(&self, opcode: u64) -> Option<nat>;

    /// The opcode of the constructor of an expression.
    spec fn spec_get_opcode(&self, expr: HashNode<T>) -> Option<u64>;

    /// The expression of an opcode over children.
    spec fn spec_construct(&self, opcode: u64, children: Seq<HashNode<T>>) -> HashNode<T>;

    /// Builds the expression and interns it.
    fn construct(&self, opcode: u64, children: Vec<HashNode<T>>, store: &mut NodeStorage<T>) -> (built:
        HashNode<T>)
        requires
            self.spec_arity_for_opcode(opcode) == Some(children@.len()),
        ensures
            built == self.spec_construct(opcode, children@),
            NodeStorage::<T>::extends(old(store)@, final(store)@),
    ;

    fn get_opcode(&self, expr: &HashNode<T>) -> (opcode: Option<u64>)
        ensures
            opcode == self.spec_get_opcode(*expr),
    ;

    fn is_valid_opcode(&self, opcode: u64) -> (valid: bool)
        ensures
            valid == self.spec_is_valid_opcode(opcode),
    ;

    fn arity_for_opcode(&self, opcode: u64) -> (arity: Option<usize>)
        ensures
            match arity {
                Some(n) => self.spec_arity_for_opcode(opcode) == Some(n as nat),
                None => self.spec_arity_for_opcode(opcode) is None,
            },
    ;
}

} // verus!
