use corpus::operators::ClassicalOperator;
use corpus::peano::quantifiers::{
    count_outer_quantifiers, rewrap_with_quantifiers, strip_quantifiers, wrap_in_quantifier,
};
use corpus::peano::PeanoStores;

#[test]
fn test_count_outer_quantifiers() {
    let mut stores = PeanoStores::new();

    // Create a simple atomic expression
    let zero = stores.number(0);
    let atomic = stores.equals(zero.clone(), zero);

    assert_eq!(count_outer_quantifiers(&atomic), 0);

    let one = stores.for_all(atomic.clone());
    let two = stores.there_exists(one.clone());
    assert_eq!(count_outer_quantifiers(&one), 1);
    assert_eq!(count_outer_quantifiers(&two), 2);
    let inside = stores.and(two.clone(), atomic);
    assert_eq!(count_outer_quantifiers(&inside), 0);
}

#[test]
fn test_strip_and_rewrap_quantifiers() {
    let mut stores = PeanoStores::new();
    let x = stores.variable(0);
    let y = stores.variable(1);
    let body = stores.equals(x, y);
    let inner = stores.there_exists(body.clone());
    let closed = stores.for_all(inner);

    let (stripped, quantifiers) = strip_quantifiers(&closed);
    let stripped = stripped.expect("a body");
    assert_eq!(stripped.hash(), body.hash());
    assert_eq!(quantifiers, vec![ClassicalOperator::Forall, ClassicalOperator::Exists]);

    let again = rewrap_with_quantifiers(stripped, &quantifiers, &mut stores).expect("a formula");
    assert_eq!(again.hash(), closed.hash());

    let (same, none) = strip_quantifiers(&body);
    assert_eq!(same.expect("a body").hash(), body.hash());
    assert!(none.is_empty());
}

#[test]
fn only_quantifiers_wrap() {
    let mut stores = PeanoStores::new();
    let zero = stores.number(0);
    let body = stores.equals(zero.clone(), zero);
    let all = wrap_in_quantifier(ClassicalOperator::Forall, body.clone(), &mut stores).expect("a formula");
    let expected = stores.for_all(body.clone());
    assert_eq!(all.hash(), expected.hash());
    let some = wrap_in_quantifier(ClassicalOperator::Exists, body.clone(), &mut stores).expect("a formula");
    let expected = stores.there_exists(body.clone());
    assert_eq!(some.hash(), expected.hash());
    assert!(wrap_in_quantifier(ClassicalOperator::Not, body.clone(), &mut stores).is_none());
    assert!(wrap_in_quantifier(ClassicalOperator::And, body.clone(), &mut stores).is_none());
    assert!(rewrap_with_quantifiers(
        body,
        &[ClassicalOperator::Forall, ClassicalOperator::Iff],
        &mut stores
    )
    .is_none());
}
