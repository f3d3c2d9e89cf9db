use corpus::peano::prover::prove_pa_logical;
use corpus::peano::PeanoStores;
use corpus::truth::BinaryTruth;

const BUDGET: usize = 10000;

#[test]
fn successor_of_zero_equals_itself() {
    let mut stores = PeanoStores::new();
    let zero = stores.number(0);
    let one = stores.successor(zero);
    let theorem = stores.equals(one.clone(), one);
    let result = prove_pa_logical(&theorem, BUDGET).expect("a proof");
    assert_eq!(result.truth_result, BinaryTruth::True);
    println!("explored {} steps {}", result.nodes_explored, result.steps.len());
}

#[test]
fn one_plus_zero_is_one() {
    let mut stores = PeanoStores::new();
    let zero = stores.number(0);
    let one = stores.successor(zero.clone());
    let sum = stores.add(one.clone(), zero);
    let theorem = stores.equals(sum, one);
    let result = prove_pa_logical(&theorem, BUDGET).expect("a proof");
    assert_eq!(result.truth_result, BinaryTruth::True);
    println!("explored {} steps {}", result.nodes_explored, result.steps.len());
}

#[test]
fn one_plus_one_is_two() {
    let mut stores = PeanoStores::new();
    let zero = stores.number(0);
    let one = stores.successor(zero.clone());
    let two = stores.successor(one.clone());
    let sum = stores.add(one.clone(), one);
    let theorem = stores.equals(sum, two);
    let result = prove_pa_logical(&theorem, BUDGET).expect("a proof");
    assert_eq!(result.truth_result, BinaryTruth::True);
    println!("explored {} steps {}", result.nodes_explored, result.steps.len());
}

#[test]
fn zero_is_not_one() {
    let mut stores = PeanoStores::new();
    let zero = stores.number(0);
    let one = stores.successor(zero.clone());
    let theorem = stores.equals(zero, one);
    let result = prove_pa_logical(&theorem, BUDGET).expect("a refutation");
    assert_eq!(result.truth_result, BinaryTruth::False);
    println!("explored {} steps {}", result.nodes_explored, result.steps.len());
}

#[test]
fn one_is_not_zero() {
    let mut stores = PeanoStores::new();
    let zero = stores.number(0);
    let one = stores.successor(zero.clone());
    let theorem = stores.equals(one, zero);
    let result = prove_pa_logical(&theorem, BUDGET).expect("a refutation");
    assert_eq!(result.truth_result, BinaryTruth::False);
    println!("explored {} steps {}", result.nodes_explored, result.steps.len());
}

#[test]
fn variable_plus_zero_is_the_variable() {
    let mut stores = PeanoStores::new();
    let zero = stores.number(0);
    let x = stores.variable(0);
    let sum = stores.add(x.clone(), zero);
    let theorem = stores.equals(sum, x);
    let result = prove_pa_logical(&theorem, BUDGET).expect("a proof");
    assert_eq!(result.truth_result, BinaryTruth::True);
    println!("explored {} steps {}", result.nodes_explored, result.steps.len());
}

fn outcome(theorem: &str) -> Option<BinaryTruth> {
    let mut parser = corpus::peano::parsing::Parser::new(theorem);
    let formula = parser.parse_proposition().expect("a theorem");
    prove_pa_logical(&formula, BUDGET).map(|found| found.truth_result)
}

#[test]
fn scenarios_from_text() {
    assert_eq!(outcome("EQ (S(0)) (S(0))"), Some(BinaryTruth::True));
    assert_eq!(outcome("EQ (PLUS (S(0)) (0)) (S(0))"), Some(BinaryTruth::True));
    assert_eq!(outcome("EQ (PLUS (S(0)) (S(0))) (S(S(0)))"), Some(BinaryTruth::True));
    assert_eq!(outcome("EQ (0) (S(0))"), Some(BinaryTruth::False));
    assert_eq!(outcome("EQ (S(0)) (0)"), Some(BinaryTruth::False));
    assert_eq!(outcome("EQ (PLUS (/0) (0)) (/0)"), Some(BinaryTruth::True));
}

#[test]
fn proof_of_one_plus_one_is_a_chain() {
    let mut parser = corpus::peano::parsing::Parser::new("EQ (PLUS (S(0)) (S(0))) (S(S(0)))");
    let theorem = parser.parse_proposition().expect("a theorem");
    let found = prove_pa_logical(&theorem, BUDGET).expect("a proof");
    assert!(!found.steps.is_empty());
    assert_eq!(found.steps[0].old_expr.hash(), theorem.hash());
    for pair in found.steps.windows(2) {
        assert_eq!(pair[0].new_expr.hash(), pair[1].old_expr.hash());
    }
    assert_eq!(found.steps.last().unwrap().new_expr.hash(), found.final_expr.hash());
    assert!(found.nodes_explored >= 1 && found.nodes_explored <= BUDGET);
    for step in &found.steps {
        println!("{}", corpus::peano::display::step_to_string(step));
    }
}

#[test]
fn budget_bounds_the_search() {
    let mut parser = corpus::peano::parsing::Parser::new("EQ (PLUS (S(0)) (S(0))) (S(S(0)))");
    let theorem = parser.parse_proposition().expect("a theorem");
    assert!(prove_pa_logical(&theorem, 0).is_none());
    assert!(prove_pa_logical(&theorem, 1).is_none());
    let at_hundred = prove_pa_logical(&theorem, 100).map(|found| found.truth_result);
    let at_thousand = prove_pa_logical(&theorem, 1000).map(|found| found.truth_result);
    assert_eq!(at_hundred, Some(BinaryTruth::True));
    assert_eq!(at_hundred, at_thousand);
}

#[test]
fn unprovable_theorem_has_no_conclusion() {
    // 0 = S(S(0)) is neither reflexive nor a number against its successor
    assert_eq!(outcome("EQ (0) (S(S(0)))"), None);
}
