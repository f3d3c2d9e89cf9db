use corpus::classical::expression::ClassicalLogicalExpression;
use corpus::classical::goal::{check_axiom_match, expressions_match, extract_negation, is_quantifier, AxiomGoalChecker};
use corpus::classical::proving::ClassicalTruthChecker;
use corpus::axioms::NamedAxiom;
use corpus::nodes::{HashNode, NodeStorage};
use corpus::operators::ClassicalOperator;
use corpus::peano::goal::{
    check_atomic_goal, check_contradiction, check_reflexive_equality, is_successor_contradiction,
    AxiomPatternChecker, QuantifiedGoalChecker,
};
use corpus::peano::syntax::{PeanoArithmeticExpression, PeanoDomainExpression};
use corpus::peano::PeanoStores;
use corpus::proving::GoalChecker;
use corpus::truth::BinaryTruth;

#[test]
fn test_extract_negation() {
    let mut stores = PeanoStores::new();
    let zero = stores.number(0);
    let equation = stores.equals(zero.clone(), zero);
    let negated = stores.not(equation.clone());
    let inner = extract_negation(&negated).expect("the body of the negation");
    assert_eq!(inner.hash(), equation.hash());
    assert!(extract_negation(&equation).is_none());
    let twice = stores.not(negated.clone());
    assert_eq!(extract_negation(&twice).expect("a negation").hash(), negated.hash());
}

#[test]
fn test_is_quantifier() {
    assert!(is_quantifier(&ClassicalOperator::Forall));
    assert!(is_quantifier(&ClassicalOperator::Exists));
}

#[test]
fn connectives_are_no_quantifiers() {
    assert!(!is_quantifier(&ClassicalOperator::And));
    assert!(!is_quantifier(&ClassicalOperator::Or));
    assert!(!is_quantifier(&ClassicalOperator::Implies));
    assert!(!is_quantifier(&ClassicalOperator::Not));
    assert!(!is_quantifier(&ClassicalOperator::Iff));
    assert!(!is_quantifier(&ClassicalOperator::Equals));
}

#[test]
fn test_reflexive_equality_accepted() {
    let checker = AxiomPatternChecker::new();
    let mut store = NodeStorage::<PeanoDomainExpression>::new();
    let mut arith_store = NodeStorage::<PeanoArithmeticExpression>::new();

    // Test 1: S(0) = S(0) should be accepted (reflexive)
    let zero = HashNode::from_store(PeanoArithmeticExpression::Number(0), &mut arith_store);
    let s_zero = HashNode::from_store(PeanoArithmeticExpression::Successor(zero), &mut arith_store);
    let expr = HashNode::from_store(
        PeanoDomainExpression::Equality(s_zero.clone(), s_zero),
        &mut store,
    );
    assert_eq!(checker.check(&expr), Some(BinaryTruth::True));

    // Test 2: 0 = 0 should be accepted (reflexive)
    let zero = HashNode::from_store(PeanoArithmeticExpression::Number(0), &mut arith_store);
    let expr = HashNode::from_store(PeanoDomainExpression::Equality(zero.clone(), zero), &mut store);
    assert_eq!(checker.check(&expr), Some(BinaryTruth::True));
}

#[test]
fn test_false_equalities_rejected() {
    let checker = AxiomPatternChecker::new();
    let mut store = NodeStorage::<PeanoDomainExpression>::new();
    let mut arith_store = NodeStorage::<PeanoArithmeticExpression>::new();

    // Test 1: 0 = 1 should NOT be accepted (different numbers)
    let zero = HashNode::from_store(PeanoArithmeticExpression::Number(0), &mut arith_store);
    let one = HashNode::from_store(PeanoArithmeticExpression::Number(1), &mut arith_store);
    let expr = HashNode::from_store(PeanoDomainExpression::Equality(zero, one), &mut store);
    assert_eq!(checker.check(&expr), None); // Should NOT accept

    // Test 2: S(0) = 0 should be detected as contradiction (0 = S(0) pattern)
    let zero = HashNode::from_store(PeanoArithmeticExpression::Number(0), &mut arith_store);
    let s_zero = HashNode::from_store(PeanoArithmeticExpression::Successor(zero), &mut arith_store);
    let zero = HashNode::from_store(PeanoArithmeticExpression::Number(0), &mut arith_store);
    let expr = HashNode::from_store(PeanoDomainExpression::Equality(s_zero, zero), &mut store);
    assert_eq!(checker.check(&expr), Some(BinaryTruth::False)); // Should detect as contradiction
}

#[test]
fn test_complex_false_equality_rejected() {
    let checker = AxiomPatternChecker::new();
    let mut store = NodeStorage::<PeanoDomainExpression>::new();
    let mut arith_store = NodeStorage::<PeanoArithmeticExpression>::new();

    // Test: S(0) + S(0) = S(S(S(0))) should NOT be accepted
    let zero = HashNode::from_store(PeanoArithmeticExpression::Number(0), &mut arith_store);
    let s_zero = HashNode::from_store(
        PeanoArithmeticExpression::Successor(zero.clone()),
        &mut arith_store,
    );

    // S(0) + S(0)
    let left = HashNode::from_store(
        PeanoArithmeticExpression::Add(s_zero.clone(), s_zero.clone()),
        &mut arith_store,
    );

    // S(S(S(0)))
    let one = HashNode::from_store(PeanoArithmeticExpression::Successor(zero), &mut arith_store);
    let two = HashNode::from_store(PeanoArithmeticExpression::Successor(one), &mut arith_store);
    let right = HashNode::from_store(PeanoArithmeticExpression::Successor(two), &mut arith_store);

    let expr = HashNode::from_store(PeanoDomainExpression::Equality(left, right), &mut store);
    assert_eq!(checker.check(&expr), None); // Should NOT accept
}

#[test]
fn test_contradiction_detected() {
    let checker = AxiomPatternChecker::new();
    let mut store = NodeStorage::<PeanoDomainExpression>::new();
    let mut arith_store = NodeStorage::<PeanoArithmeticExpression>::new();

    // Test 1: 0 = S(0) should be detected as contradiction (return Some(False))
    let zero = HashNode::from_store(PeanoArithmeticExpression::Number(0), &mut arith_store);
    let s_zero = HashNode::from_store(
        PeanoArithmeticExpression::Successor(zero.clone()),
        &mut arith_store,
    );
    let expr = HashNode::from_store(PeanoDomainExpression::Equality(zero, s_zero), &mut store);
    assert_eq!(checker.check(&expr), Some(BinaryTruth::False));

    // Test 2: S(0) = S(S(0)) should be detected as contradiction
    let zero = HashNode::from_store(PeanoArithmeticExpression::Number(0), &mut arith_store);
    let s_zero = HashNode::from_store(
        PeanoArithmeticExpression::Successor(zero.clone()),
        &mut arith_store,
    );
    let ss_zero = HashNode::from_store(
        PeanoArithmeticExpression::Successor(s_zero.clone()),
        &mut arith_store,
    );
    let expr = HashNode::from_store(PeanoDomainExpression::Equality(s_zero, ss_zero), &mut store);
    assert_eq!(checker.check(&expr), Some(BinaryTruth::False));

    // Test 3: S(0) = 0 should also be detected (reverse order)
    let zero = HashNode::from_store(PeanoArithmeticExpression::Number(0), &mut arith_store);
    let s_zero = HashNode::from_store(
        PeanoArithmeticExpression::Successor(zero.clone()),
        &mut arith_store,
    );
    let expr = HashNode::from_store(PeanoDomainExpression::Equality(s_zero, zero), &mut store);
    assert_eq!(checker.check(&expr), Some(BinaryTruth::False));
}

#[test]
fn test_non_contradiction_returns_none() {
    let checker = AxiomPatternChecker::new();
    let mut store = NodeStorage::<PeanoDomainExpression>::new();
    let mut arith_store = NodeStorage::<PeanoArithmeticExpression>::new();

    // 0 = S(S(0)) should NOT be a contradiction (0 is not S(S(0)))
    let zero = HashNode::from_store(PeanoArithmeticExpression::Number(0), &mut arith_store);
    let one = HashNode::from_store(
        PeanoArithmeticExpression::Successor(zero.clone()),
        &mut arith_store,
    );
    let ss_zero = HashNode::from_store(PeanoArithmeticExpression::Successor(one), &mut arith_store);
    let expr = HashNode::from_store(PeanoDomainExpression::Equality(zero, ss_zero), &mut store);
    // Should return None, not Some(False)
    assert_eq!(checker.check(&expr), None);
}

#[test]
fn test_domain_content() {
    let mut arith_store = NodeStorage::<PeanoArithmeticExpression>::new();
    let zero = HashNode::from_store(PeanoArithmeticExpression::Number(0), &mut arith_store);
    let equals_content = PeanoDomainExpression::Equality(zero.clone(), zero);

    let result = equals_content.evaluate();
    assert_eq!(
        result, None,
        "Equals should return None for evaluation without context"
    );
}

#[test]
fn parts_of_the_shape_check() {
    let mut stores = PeanoStores::new();
    let zero = stores.number(0);
    let one = stores.successor(zero.clone());
    let two = stores.successor(one.clone());
    assert!(is_successor_contradiction(&zero, &one));
    assert!(!is_successor_contradiction(&one, &zero));
    assert!(!is_successor_contradiction(&zero, &two));
    let mut store = NodeStorage::<PeanoDomainExpression>::new();
    let same = HashNode::from_store(PeanoDomainExpression::Equality(one.clone(), one.clone()), &mut store);
    let off = HashNode::from_store(PeanoDomainExpression::Equality(one.clone(), two.clone()), &mut store);
    let far = HashNode::from_store(PeanoDomainExpression::Equality(zero.clone(), two.clone()), &mut store);
    assert_eq!(check_reflexive_equality(&same), Some(BinaryTruth::True));
    assert_eq!(check_reflexive_equality(&off), None);
    assert_eq!(check_contradiction(&same), None);
    assert_eq!(check_contradiction(&off), Some(BinaryTruth::False));
    assert_eq!(check_contradiction(&far), None);
    assert_eq!(check_atomic_goal(&same), Some(BinaryTruth::True));
    assert_eq!(check_atomic_goal(&off), Some(BinaryTruth::False));
    assert_eq!(check_atomic_goal(&far), None);
}

#[test]
fn shape_check_goes_through_the_connectives() {
    let mut stores = PeanoStores::new();
    let checker = QuantifiedGoalChecker::new();
    let zero = stores.number(0);
    let one = stores.successor(zero.clone());
    let two = stores.successor(one.clone());
    let yes = stores.equals(zero.clone(), zero.clone());
    let no = stores.equals(zero.clone(), one.clone());
    let open = stores.equals(zero.clone(), two.clone());
    let all_yes = stores.for_all(yes.clone());
    assert_eq!(checker.check(&all_yes), Some(BinaryTruth::True));
    let some_no = stores.there_exists(no.clone());
    assert_eq!(checker.check(&some_no), Some(BinaryTruth::False));
    let both = stores.and(yes.clone(), yes.clone());
    assert_eq!(checker.check(&both), Some(BinaryTruth::True));
    let mixed = stores.and(yes.clone(), no.clone());
    assert_eq!(checker.check(&mixed), None);
    let then = stores.imply(open.clone(), no.clone());
    assert_eq!(checker.check(&then), Some(BinaryTruth::False));
    let same = stores.iff(no.clone(), no.clone());
    assert_eq!(checker.check(&same), Some(BinaryTruth::False));
    let differ = stores.iff(yes.clone(), no.clone());
    assert_eq!(checker.check(&differ), None);
    let either = stores.or(yes.clone(), yes.clone());
    assert_eq!(checker.check(&either), None);
    let negated = stores.not(yes.clone());
    assert_eq!(checker.check(&negated), None);
    let constant = stores.truth(BinaryTruth::True);
    assert_eq!(checker.check(&constant), None);
}

#[test]
fn truth_checker_sees_constants_under_universals() {
    let mut stores = PeanoStores::new();
    let checker = ClassicalTruthChecker::new();
    let yes = stores.truth(BinaryTruth::True);
    let no = stores.truth(BinaryTruth::False);
    assert_eq!(checker.check(&yes), Some(BinaryTruth::True));
    assert_eq!(checker.check(&no), Some(BinaryTruth::False));
    let inner = stores.for_all(no.clone());
    let outer = stores.for_all(inner);
    assert_eq!(checker.check(&outer), Some(BinaryTruth::False));
    let hidden = stores.there_exists(yes.clone());
    assert_eq!(checker.check(&hidden), None);
    let negated = stores.not(yes.clone());
    assert_eq!(checker.check(&negated), None);
    let zero = stores.number(0);
    let equation = stores.equals(zero.clone(), zero);
    assert_eq!(checker.check(&equation), None);
    // the same expression gives the same verdict
    assert_eq!(checker.check(&outer), checker.check(&outer));
    assert_eq!(
        ClassicalTruthChecker::check_expression(&ClassicalLogicalExpression::<PeanoDomainExpression>::BooleanConstant(BinaryTruth::True)),
        Some(BinaryTruth::True)
    );
}

#[test]
fn axioms_decide_what_they_say_and_its_negation() {
    let mut stores = PeanoStores::new();
    let x = stores.variable(0);
    let body = stores.equals(x.clone(), x.clone());
    let closed = stores.for_all(body.clone());
    let reflexivity = NamedAxiom::new("reflexivity", closed.clone());
    assert_eq!(check_axiom_match(&body, &reflexivity), Some(BinaryTruth::True));
    let negated = stores.not(body.clone());
    assert_eq!(check_axiom_match(&negated, &reflexivity), Some(BinaryTruth::False));
    assert_eq!(check_axiom_match(&closed, &reflexivity), None);
    let zero = stores.number(0);
    let other = stores.equals(zero.clone(), zero);
    assert_eq!(check_axiom_match(&other, &reflexivity), None);
    assert!(expressions_match(&body, &body));
    assert!(!expressions_match(&body, &other));
    let plain = NamedAxiom::new("plain", other.clone());
    let checker = AxiomGoalChecker::new(vec![reflexivity, plain]);
    assert_eq!(checker.axioms().len(), 2);
    assert_eq!(checker.check(&other), Some(BinaryTruth::True));
    assert_eq!(checker.check(&negated), Some(BinaryTruth::False));
    assert_eq!(checker.check(&closed), None);
}
