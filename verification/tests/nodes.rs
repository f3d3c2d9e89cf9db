use corpus::classical::expression::ClassicalLogicalExpression;
use corpus::nodes::{HashNode, HashNodeInner, Hashing, NodeStorage};
use corpus::opcodes::{OPCODE_ADD, OPCODE_AND, OPCODE_SUCCESSOR};
use corpus::peano::syntax::{PeanoArithmeticExpression, PeanoDomainExpression};
use corpus::peano::PeanoStores;
use corpus::truth::BinaryTruth;

#[test]
fn mixer_on_given_values() {
    assert_eq!(Hashing::hash_combine(1, 2), 2654435834);
    assert_eq!(Hashing::hash_combine(0, 0), 2654435769);
    assert_eq!(Hashing::hash_combine(u64::MAX, u64::MAX), 13835058052627728008);
    assert_eq!(Hashing::root_hash(7, &[]), 7);
    assert_eq!(Hashing::root_hash(12, &[3, 4]), 175247718682);
    assert_eq!(Hashing::hash1(14, 0), Hashing::root_hash(14, &[0]));
    assert_eq!(Hashing::hash2(12, 3, 4), Hashing::root_hash(12, &[3, 4]));
    assert_eq!(Hashing::hash3(1, 11, 3, 4), Hashing::root_hash(1, &[11, 3, 4]));
}

#[test]
fn fingerprints_of_terms_and_formulas() {
    let mut stores = PeanoStores::new();
    let zero = stores.number(0);
    assert_eq!(zero.hash(), 2654436658);
    let one = stores.successor(zero.clone());
    assert_eq!(one.hash(), 5308873251);
    let x = stores.variable(0);
    assert_eq!(x.hash(), 2654436723);
    let sum = stores.add(one.clone(), zero.clone());
    assert_eq!(sum.hash(), 521940254604);
    let equation = stores.equals(sum.clone(), one.clone());
    assert_eq!(equation.hash(), 44933563738707);
    let closed = stores.for_all(equation.clone());
    assert_eq!(closed.hash(), 44936218174859);
    let yes = stores.truth(BinaryTruth::True);
    let no = stores.truth(BinaryTruth::False);
    assert_eq!(yes.hash(), 2654436406);
    assert_eq!(no.hash(), 2654436401);
    assert_eq!(zero.size(), 1);
    assert_eq!(one.size(), 2);
    assert_eq!(sum.size(), 4);
    assert_eq!(equation.size(), 8);
    assert_eq!(closed.size(), 9);
    assert_eq!(yes.size(), 1);
}

#[test]
fn interning_twice_gives_the_same_node() {
    let mut store = NodeStorage::new();
    let first = store.get_or_insert(42u64);
    assert_eq!(store.len(), 1);
    let second = store.get_or_insert(*first.value);
    assert_eq!(store.len(), 1);
    assert!(std::rc::Rc::ptr_eq(&first.value, &second.value));
    assert_eq!(first, second);
    let other = store.get_or_insert(7u64);
    assert_eq!(store.len(), 2);
    assert!(first != other);
    assert_eq!(*store.get(42).expect("a node").value, 42);
    assert!(store.get(43).is_none());
    store.clear();
    assert_eq!(store.len(), 0);
    assert!(store.get(42).is_none());
}

#[test]
fn equal_trees_from_different_stores_have_equal_fingerprints() {
    let mut here = PeanoStores::new();
    let mut there = PeanoStores::new();
    let a = {
        let zero = here.number(0);
        let one = here.successor(zero.clone());
        let sum = here.add(one.clone(), zero);
        here.equals(sum, one)
    };
    let b = {
        // the same formula, built bottom-up in another order
        let one = {
            let zero = there.number(0);
            there.successor(zero)
        };
        let zero = there.number(0);
        let sum = there.add(one.clone(), zero);
        there.equals(sum, one)
    };
    assert_eq!(a.hash(), b.hash());
    assert_eq!(a.size(), b.size());
    assert!(a.value.same(&b.value));
    assert!(a == b);
}

#[test]
fn shared_subterms_are_stored_once() {
    let mut stores = PeanoStores::new();
    let zero = stores.number(0);
    let one = stores.successor(zero.clone());
    let again = stores.successor(zero.clone());
    assert!(std::rc::Rc::ptr_eq(&one.value, &again.value));
    let _sum = stores.add(one.clone(), again);
    assert_eq!(stores.pa_storage().arithmetic_storage.len(), 3);
    let copy = one.clone();
    assert!(std::rc::Rc::ptr_eq(&one.value, &copy.value));
    let free = HashNode::from(PeanoArithmeticExpression::Number(0));
    assert!(!std::rc::Rc::ptr_eq(&zero.value, &free.value));
    assert!(zero == free);
}

#[test]
fn compounds_come_apart_and_together() {
    let mut stores = PeanoStores::new();
    let zero = stores.number(0);
    let one = stores.successor(zero.clone());
    let sum = stores.add(one.clone(), zero.clone());
    let (opcode, children) = sum.value.decompose().expect("a compound");
    assert_eq!(opcode, OPCODE_ADD);
    assert_eq!(children.len(), 2);
    assert_eq!(children[0].hash(), one.hash());
    assert_eq!(children[1].hash(), zero.hash());
    let again = PeanoArithmeticExpression::construct_from_parts(opcode, children).expect("a sum");
    assert!(again.same(&sum.value));
    assert!(zero.value.decompose().is_none());
    let (opcode, children) = one.value.decompose().expect("a compound");
    assert_eq!(opcode, OPCODE_SUCCESSOR);
    assert!(PeanoArithmeticExpression::construct_from_parts(OPCODE_ADD, children).is_none());
    assert!(PeanoArithmeticExpression::construct_from_parts(OPCODE_AND, vec![zero.clone(), zero.clone()]).is_none());
    let copy = sum.value.duplicate();
    assert!(copy.same(&sum.value));
    assert!(!copy.same(&one.value));
    let statement = PeanoDomainExpression::Equality(zero.clone(), one.clone());
    assert!(statement.decompose().is_none());
    assert!(PeanoDomainExpression::construct_from_parts(11, vec![]).is_none());
    let left = stores.equals(zero.clone(), zero.clone());
    let right = stores.equals(one.clone(), one.clone());
    let both = stores.and(left.clone(), right.clone());
    let (opcode, operands) = both.value.decompose().expect("a compound");
    assert_eq!(opcode, OPCODE_AND);
    let again = ClassicalLogicalExpression::construct_from_parts(opcode, operands).expect("a conjunction");
    assert!(again.same(&both.value));
    assert!(left.value.decompose().is_none());
}

#[test]
fn numbers_are_their_own_fingerprints() {
    assert_eq!(HashNodeInner::hash(&42u64), 42);
    assert_eq!(HashNodeInner::hash(&42u32), 42);
    assert_eq!(HashNodeInner::size(&42u64), 1);
    assert_eq!(HashNodeInner::hash(&BinaryTruth::True), 1);
    assert_eq!(HashNodeInner::hash(&BinaryTruth::False), 0);
    assert_eq!(Hashing::opcode("AND"), 1);
    assert_eq!(Hashing::opcode("successor"), 13);
    assert_eq!(Hashing::opcode("DOMAIN_PATTERN"), 19);
    assert_eq!(Hashing::opcode("nothing"), 0);
}
