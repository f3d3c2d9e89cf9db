use corpus::classical::proving::ClassicalTruthChecker;
use corpus::nodes::HashNode;
use corpus::peano::display::formula_to_string;
use corpus::peano::parsing::Parser;
use corpus::peano::prover::{create_logical_prover, peano_logical_rules};
use corpus::peano::syntax::PeanoLogicalExpression;
use corpus::peano::PeanoStores;
use corpus::proving::{
    copy_steps, CostEstimator, ProofState, ProofStep, Prover, Search, SizeCostEstimator,
    StepOutcome,
};
use corpus::truth::BinaryTruth;
use std::collections::HashSet;

fn theorem(text: &str) -> HashNode<PeanoLogicalExpression> {
    Parser::new(text).parse_proposition().expect("a theorem")
}

#[test]
fn estimator_adds_depth_and_size() {
    let goal = theorem("EQ (S(0)) (S(0))");
    assert_eq!(SizeCostEstimator.estimate_cost(None, &goal), 6);
    let state = ProofState {
        expr: goal.clone(),
        steps: vec![
            ProofStep { rule_name: "a".to_string(), old_expr: goal.clone(), new_expr: goal.clone() },
            ProofStep { rule_name: "b".to_string(), old_expr: goal.clone(), new_expr: goal.clone() },
        ],
        estimated_cost: 0,
    };
    assert_eq!(SizeCostEstimator.estimate_cost(Some(&state), &goal), 8);
    let copy = copy_steps(&state.steps);
    assert_eq!(copy.len(), 2);
    assert_eq!(copy[1].rule_name, "b");
    assert_eq!(copy[0].clone().rule_name, "a");
}

#[test]
fn the_cheapest_state_leaves_first() {
    let a = theorem("EQ (0) (0)");
    let mut search = Search::new(&a, 7);
    assert_eq!(search.explored, 0);
    assert_eq!(search.frontier.len(), 1);
    search.frontier.push(ProofState { expr: a.clone(), steps: vec![], estimated_cost: 3 });
    search.frontier.push(ProofState { expr: a.clone(), steps: vec![], estimated_cost: 9 });
    search.frontier.push(ProofState {
        expr: a.clone(),
        steps: vec![ProofStep { rule_name: "later".to_string(), old_expr: a.clone(), new_expr: a.clone() }],
        estimated_cost: 3,
    });
    let first = search.pop_min();
    assert_eq!(first.estimated_cost, 3);
    assert!(first.steps.is_empty());
    let second = search.pop_min();
    assert_eq!(second.estimated_cost, 3);
    assert_eq!(second.steps.len(), 1);
    assert_eq!(search.pop_min().estimated_cost, 7);
    assert_eq!(search.pop_min().estimated_cost, 9);
    assert!(search.frontier.is_empty());
}

#[test]
fn no_fingerprint_is_expanded_twice() {
    let mut stores = PeanoStores::new();
    let rules = peano_logical_rules(&mut stores);
    let start = theorem("EQ (PLUS (S(0)) (S(0))) (S(S(S(0))))");
    let estimator = SizeCostEstimator;
    let checker = ClassicalTruthChecker::new();
    let cost = estimator.estimate_cost(None, &start);
    let mut search = Search::new(&start, cost);
    let mut expanded: HashSet<u64> = HashSet::new();
    let budget = 300;
    let mut steps = 0usize;
    loop {
        let visited_before = search.visited.len();
        let next = search.frontier.iter().min_by_key(|s| s.estimated_cost).map(|s| s.expr.hash());
        match search.step(&rules, &mut stores.storage, &estimator, &checker, budget) {
            StepOutcome::Continue => {
                steps += 1;
                assert_eq!(search.explored, steps);
                if search.visited.len() > visited_before {
                    let hash = next.expect("a state");
                    assert!(expanded.insert(hash), "a fingerprint was expanded twice");
                    assert!(search.visited.contains(&hash));
                }
            }
            StepOutcome::NoConclusion => break,
            StepOutcome::Proved(found) => {
                // one and one are not three
                assert_eq!(found.truth_result, BinaryTruth::False);
                break;
            }
        }
    }
    assert!(steps <= budget);
    assert!(steps >= 3);
    assert_eq!(expanded.len(), search.visited.len());
}

#[test]
fn a_goal_ends_the_search_at_once() {
    let mut prover = create_logical_prover(1);
    let mut stores = PeanoStores::new();
    let yes = stores.truth(BinaryTruth::True);
    let closed = stores.for_all(yes);
    let found = prover.prove(&closed).expect("a proof");
    assert_eq!(found.truth_result, BinaryTruth::True);
    assert_eq!(found.nodes_explored, 1);
    assert!(found.steps.is_empty());
    assert_eq!(found.final_expr.hash(), closed.hash());
    let no = stores.truth(BinaryTruth::False);
    let found = prover.prove(&no).expect("a refutation");
    assert_eq!(found.truth_result, BinaryTruth::False);
    let mut idle = create_logical_prover(0);
    assert!(idle.prove(&closed).is_none());
}

#[test]
fn without_rules_only_goals_are_decided() {
    let stores = PeanoStores::new();
    let mut prover: Prover<PeanoLogicalExpression, SizeCostEstimator, ClassicalTruthChecker> =
        Prover::new(100, SizeCostEstimator, ClassicalTruthChecker::new(), stores.storage);
    let open = theorem("EQ (0) (0)");
    assert!(prover.prove(&open).is_none());
    let mut fresh = PeanoStores::new();
    let rules = peano_logical_rules(&mut fresh);
    for rule in rules {
        prover.add_rule(rule);
    }
    assert_eq!(prover.rules.len(), 7);
    let found = prover.prove(&open).expect("a proof");
    assert_eq!(found.truth_result, BinaryTruth::True);
    assert_eq!(found.steps.len(), 1);
    assert_eq!(found.steps[0].rule_name, "axiom_reflexivity");
    assert_eq!(formula_to_string(&found.steps[0].new_expr), "true");
}

#[test]
fn a_larger_budget_keeps_the_outcome() {
    for (text, steps) in [
        ("EQ (S(0)) (S(0))", 1usize),
        ("EQ (PLUS (S(0)) (0)) (S(0))", 2),
        ("EQ (0) (S(0))", 1),
        ("EQ (S(0)) (0)", 2),
        ("FORALL (EQ (PLUS (/0) (0)) (/0))", 2),
    ] {
        let goal = theorem(text);
        let size = goal.size() as usize;
        let budget = 2 * size * steps;
        let small = create_logical_prover(budget).prove(&goal).map(|f| f.truth_result);
        let large = create_logical_prover(10 * budget).prove(&goal).map(|f| f.truth_result);
        assert!(small.is_some(), "{} within {}", text, budget);
        assert_eq!(small, large, "{}", text);
    }
}

#[test]
fn a_proof_needs_as_many_expansions_as_it_took() {
    for text in [
        "EQ (PLUS (S(0)) (0)) (S(0))",
        "EQ (PLUS (S(0)) (S(0))) (S(S(0)))",
        "EQ (S(0)) (0)",
    ] {
        let goal = theorem(text);
        let found = create_logical_prover(1000).prove(&goal).expect("a proof");
        let took = found.nodes_explored;
        assert!(took > 1, "{}", text);
        // the budget that the proof took is enough, and gives the same proof
        let exact = create_logical_prover(took).prove(&goal).expect("the same proof");
        assert_eq!(exact.nodes_explored, took);
        assert_eq!(exact.truth_result, found.truth_result);
        assert_eq!(exact.steps.len(), found.steps.len());
        assert_eq!(exact.final_expr.hash(), found.final_expr.hash());
        // one expansion less is not
        assert!(create_logical_prover(took - 1).prove(&goal).is_none(), "{}", text);
    }
}
