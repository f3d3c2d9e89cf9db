use corpus::nodes::{HashNode, NodeStorage};
use corpus::rewriting::pattern::Pattern;
use corpus::rewriting::substitution::Substitution;
use corpus::rewriting::unifiable::{Unifiable, UnificationError};
use corpus::rewriting::{RewriteDirection, RewriteRule};

#[test]
fn test_variable_unification() {
    let mut store = NodeStorage::new();
    let term = HashNode::from_store(42u64, &mut store);
    let pattern = Pattern::var(0);
    let subst = Substitution::new();

    let result = u64::unify(&pattern, &term, &subst, &store);
    assert!(result.is_ok());
}

#[test]
fn test_wildcard_unification() {
    let mut store = NodeStorage::new();
    let term = HashNode::from_store(42u64, &mut store);
    let pattern = Pattern::wildcard();
    let subst = Substitution::new();

    let result = u64::unify(&pattern, &term, &subst, &store);
    assert!(result.is_ok());
}

#[test]
fn test_constant_unification() {
    let mut store = NodeStorage::new();
    let term = HashNode::from_store(42u64, &mut store);
    let pattern = Pattern::constant(42u64);
    let subst = Substitution::new();

    let result = u64::unify(&pattern, &term, &subst, &store);
    assert!(result.is_ok());
}

#[test]
fn test_constant_mismatch() {
    let mut store = NodeStorage::new();
    let term = HashNode::from_store(42u64, &mut store);
    let pattern = Pattern::constant(99u64);
    let subst = Substitution::new();

    let result = u64::unify(&pattern, &term, &subst, &store);
    assert!(result.is_err());
}

#[test]
fn mod_test_variable_rule() {
    let mut store = NodeStorage::new();
    let term = HashNode::from_store(42u64, &mut store);
    let pattern = Pattern::var(0);
    let replacement = Pattern::constant(42u64);

    let rule = RewriteRule::new(
        "test_rule",
        pattern.clone(),
        replacement.clone(),
        RewriteDirection::Both,
    );

    // Forward: match pattern (var 0) against term (42) - should succeed
    assert!(rule.try_match(&term, &store).is_ok());
    // Reverse: match replacement (constant 42) against term (42) - should succeed
    assert!(rule.try_match_reverse(&term, &store).is_ok());
    assert!(rule.is_bidirectional());
}

#[test]
fn errors_say_why() {
    let mut store = NodeStorage::new();
    let term = HashNode::from_store(42u64, &mut store);
    let other = HashNode::from_store(7u64, &mut store);
    let mut subst = Substitution::new();
    subst.bind(0, other);
    assert_eq!(
        u64::unify(&Pattern::var(0), &term, &subst, &store).err(),
        Some(UnificationError::CannotUnify("Variable /0 bound to different term".to_string()))
    );
    assert_eq!(
        u64::unify(&Pattern::constant(99u64), &term, &subst, &store).err(),
        Some(UnificationError::TypeMismatch)
    );
    assert_eq!(
        u64::unify(&Pattern::compound(3, vec![Pattern::var(1)]), &term, &subst, &store).err(),
        Some(UnificationError::TypeMismatch)
    );
    let backward: RewriteRule<u64> =
        RewriteRule::new("back", Pattern::var(0), Pattern::var(0), RewriteDirection::Backward);
    assert_eq!(
        backward.try_match(&term, &store).err(),
        Some(UnificationError::CannotUnify("Wrong direction".to_string()))
    );
    assert!(backward.try_match_reverse(&term, &store).is_ok());
    assert!(!u64::occurs_check(1, &term, &subst));
    assert!(!u64::occurs_check(0, &term, &subst));
    subst.bind(0, term.clone());
    assert!(u64::occurs_check(0, &term, &subst));
}
