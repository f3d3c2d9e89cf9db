//! The opcodes of the terms of arithmetic.

use crate::nodes::{HashNode, HashNodeInner, NodeStorage};
use crate::opcodes::{
    OpcodeMapper, OPCODE_ADD, OPCODE_DEBRUIJN, OPCODE_NUMBER, OPCODE_SUCCESSOR,
};
use crate::peano::syntax::PeanoArithmeticExpression;
use vstd::prelude::*;

verus! {

/// Builds terms of arithmetic from opcodes. A number and a variable are
/// built from one child, whose fingerprint they take as their value.
#[derive(Debug, Clone, Copy)]
pub struct PeanoOpcodeMapper;

impl OpcodeMapper<PeanoArithmeticExpression> for PeanoOpcodeMapper {
    open spec fn spec_is_valid_opcode(&self, opcode: u64) -> bool {
        opcode == OPCODE_ADD || opcode == OPCODE_SUCCESSOR || opcode == OPCODE_NUMBER || opcode
            == OPCODE_DEBRUIJN
    }

    open spec fn spec_arity_for_opcode(&self, opcode: u64) -> Option<nat> {
        if opcode == OPCODE_ADD {
            Some(2)
        } else if opcode == OPCODE_SUCCESSOR || opcode == OPCODE_NUMBER || opcode
            == OPCODE_DEBRUIJN {
            Some(1)
        } else {
            None
        }
    }

    open spec fn spec_get_opcode(&self, expr: HashNode<PeanoArithmeticExpression>) -> Option<u64> {
        match *expr.value {
            PeanoArithmeticExpression::Add(_, _) => Some(OPCODE_ADD),
            PeanoArithmeticExpression::Successor(_) => Some(OPCODE_SUCCESSOR),
            PeanoArithmeticExpression::Number(_) => Some(OPCODE_NUMBER),
            PeanoArithmeticExpression::DeBruijn(_) => Some(OPCODE_DEBRUIJN),
        }
    }

    open spec fn spec_construct(
        &self,
        opcode: u64,
        children: Seq<HashNode<PeanoArithmeticExpression>>,
    ) -> HashNode<PeanoArithmeticExpression> {
        if opcode == OPCODE_ADD {
            HashNode::of(PeanoArithmeticExpression::Add(children[0], children[1]))
        } else if opcode == OPCODE_SUCCESSOR {
            HashNode::of(PeanoArithmeticExpression::Successor(children[0]))
        } else if opcode == OPCODE_NUMBER {
            HashNode::of(PeanoArithmeticExpression::Number(children[0].spec_hash()))
        } else {
            HashNode::of(PeanoArithmeticExpression::DeBruijn(children[0].spec_hash() as u32))
        }
    }

    fn construct(
        &self,
        opcode: u64,
        children: Vec<HashNode<PeanoArithmeticExpression>>,
        store: &mut NodeStorage<PeanoArithmeticExpression>,
    ) -> (built: HashNode<PeanoArithmeticExpression>) {
        if opcode == OPCODE_ADD {
            HashNode::from_store(
                PeanoArithmeticExpression::Add(children[0].clone(), children[1].clone()),
                store,
            )
        } else if opcode == OPCODE_SUCCESSOR {
            HashNode::from_store(PeanoArithmeticExpression::Successor(children[0].clone()), store)
        } else if opcode == OPCODE_NUMBER {
            let n = children[0].hash();
            HashNode::from_store(PeanoArithmeticExpression::Number(n), store)
        } else {
            let idx = children[0].hash() as u32;
            HashNode::from_store(PeanoArithmeticExpression::DeBruijn(idx), store)
        }
    }

    fn get_opcode(&self, expr: &HashNode<PeanoArithmeticExpression>) -> (opcode: Option<u64>) {
        match &*expr.value {
            PeanoArithmeticExpression::Add(_, _) => Some(OPCODE_ADD),
            PeanoArithmeticExpression::Successor(_) => Some(OPCODE_SUCCESSOR),
            PeanoArithmeticExpression::Number(_) => Some(OPCODE_NUMBER),
            PeanoArithmeticExpression::DeBruijn(_) => Some(OPCODE_DEBRUIJN),
        }
    }

    fn is_valid_opcode(&self, opcode: u64) -> (valid: bool) {
        opcode == OPCODE_ADD || opcode == OPCODE_SUCCESSOR || opcode == OPCODE_NUMBER || opcode
            == OPCODE_DEBRUIJN
    }

    fn arity_for_opcode(&self, opcode: u64) -> (arity: Option<usize>) {
        if opcode == OPCODE_ADD {
            Some(2)
        } else if opcode == OPCODE_SUCCESSOR || opcode == OPCODE_NUMBER || opcode
            == OPCODE_DEBRUIJN {
            Some(1)
        } else {
            None
        }
    }
}

} // verus!
