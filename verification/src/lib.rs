//! An equational theorem prover: hash-consed terms, patterns with matching and
//! substitution, a logical layer over a pluggable domain, and a best-first
//! proof search, with Peano arithmetic as the reference domain.

pub mod axioms;
pub mod classical;
pub mod expression;
pub mod logic;
pub mod nodes;
pub mod opcodes;
pub mod operators;
pub mod pattern_traits;
pub mod peano;
pub mod proving;
pub mod rewriting;
pub mod text;
pub mod truth;
pub mod variables;
