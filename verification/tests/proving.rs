use corpus::nodes::{HashNode, NodeStorage};
use corpus::proving::{HashEqualityGoalChecker, SizeHashCostEstimator};

#[test]
fn test_cost_estimator() {
    let mut store = NodeStorage::new();
    let lhs = HashNode::from_store(42u64, &mut store);
    let rhs = HashNode::from_store(42u64, &mut store);
    let estimator = SizeHashCostEstimator;

    let cost = estimator.estimate_cost(&lhs, &rhs);
    // Same value should have low cost (size + size + 0 hash distance)
    assert_eq!(cost, 2); // 1 + 1 + 0
}

#[test]
fn test_goal_checker() {
    let mut store = NodeStorage::new();
    let expr = HashNode::from_store(42u64, &mut store);
    let checker = HashEqualityGoalChecker;

    assert!(checker.is_goal(&expr, &expr));
}

#[test]
fn distance_counts_sizes_and_fingerprints() {
    let mut store = NodeStorage::new();
    let lhs = HashNode::from_store(40u64, &mut store);
    let rhs = HashNode::from_store(47u64, &mut store);
    assert_eq!(SizeHashCostEstimator.estimate_cost(&lhs, &rhs), 9);
    assert_eq!(SizeHashCostEstimator.estimate_cost(&rhs, &lhs), 9);
    assert!(!HashEqualityGoalChecker.is_goal(&lhs, &rhs));
    let far = HashNode::from_store(u64::MAX, &mut store);
    let near = HashNode::from_store(0u64, &mut store);
    assert_eq!(SizeHashCostEstimator.estimate_cost(&far, &near), u64::MAX);
}
