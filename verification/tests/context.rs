use corpus::proving::context::{ProofContext, QuantifierOperator};

#[test]
fn test_empty_context() {
    let ctx = ProofContext::new();
    assert_eq!(ctx.depth(), 0);
    assert!(!ctx.is_bound("x"));
    assert!(!ctx.in_exists_scope());
    assert!(!ctx.in_forall_scope());
}

#[test]
fn test_push_pop_quantifier() {
    let mut ctx = ProofContext::new();
    ctx.push_quantifier(QuantifierOperator::Forall, "x");
    assert_eq!(ctx.depth(), 1);
    assert!(ctx.is_bound("x"));
    assert!(ctx.is_universally_bound("x"));
    assert!(!ctx.is_existentially_bound("x"));

    ctx.push_quantifier(QuantifierOperator::Exists, "y");
    assert_eq!(ctx.depth(), 2);
    assert!(ctx.is_bound("y"));
    assert!(ctx.is_existentially_bound("y"));

    ctx.pop_quantifier();
    assert_eq!(ctx.depth(), 1);
    assert!(!ctx.is_bound("y"));

    ctx.pop_quantifier();
    assert_eq!(ctx.depth(), 0);
}

#[test]
fn test_bound_variables() {
    let mut ctx = ProofContext::new();
    ctx.push_quantifier(QuantifierOperator::Forall, "x");
    ctx.push_quantifier(QuantifierOperator::Exists, "y");

    let vars = ctx.bound_variables();
    assert_eq!(vars.len(), 2);
    assert!(vars.contains(&"x"));
    assert!(vars.contains(&"y"));
}

#[test]
fn popped_scope_carries_its_depth() {
    let mut ctx = ProofContext::new();
    ctx.push_quantifier(QuantifierOperator::Forall, "x");
    ctx.push_quantifier(QuantifierOperator::Exists, "y");
    let left = ctx.pop_quantifier().expect("a scope");
    assert_eq!(left.operator, QuantifierOperator::Exists);
    assert_eq!(left.variable, "y");
    assert_eq!(left.depth, 1);
    assert!(ctx.in_forall_scope());
    assert!(!ctx.in_exists_scope());
    ctx.pop_quantifier();
    assert!(ctx.pop_quantifier().is_none());
}
