use corpus::axioms::{AxiomError, InferenceDirection, InferenceDirectional};
use corpus::operators::ClassicalOperator;

#[test]
fn test_inference_direction_for_operators() {
    assert_eq!(
        ClassicalOperator::Equals.inference_direction(),
        InferenceDirection::Both
    );
    assert_eq!(
        ClassicalOperator::Implies.inference_direction(),
        InferenceDirection::Forward
    );
    assert_eq!(
        ClassicalOperator::Iff.inference_direction(),
        InferenceDirection::Both
    );
    assert_eq!(
        ClassicalOperator::And.inference_direction(),
        InferenceDirection::Both
    );
    assert_eq!(
        ClassicalOperator::Not.inference_direction(),
        InferenceDirection::Forward
    );
}

#[test]
fn test_inference_direction_equality() {
    assert_eq!(InferenceDirection::Both, InferenceDirection::Both);
    assert_ne!(InferenceDirection::Forward, InferenceDirection::Backward);
}

#[test]
fn test_axiom_error_display() {
    let err = AxiomError::NotAnAxiom;
    assert_eq!(err.to_string(), "Expression is not an axiom (atomic)");

    let err = AxiomError::MalformedAxiom { expected: 2, found: 1 };
    assert_eq!(err.to_string(), "Malformed axiom: expected 2 operands, found 1");
}

#[test]
fn every_error_has_its_message() {
    assert_eq!(
        AxiomError::UnsupportedOperator.to_string(),
        "Operator does not support axiom conversion"
    );
    assert_eq!(
        AxiomError::MissingVariables(vec!["x".to_string(), "y".to_string(), "z".to_string()])
            .to_string(),
        "Missing variables in pattern: x, y, z"
    );
    assert_eq!(
        AxiomError::ParseError { message: "bad".to_string(), position: Some(120) }.to_string(),
        "Parse error at position 120: bad"
    );
    assert_eq!(
        AxiomError::ParseError { message: "bad".to_string(), position: None }.to_string(),
        "Parse error: bad"
    );
    assert_eq!(
        AxiomError::InvalidTopLevelOperator { operator: "∃".to_string() }.to_string(),
        "Invalid top-level operator for axiom: '∃'"
    );
    assert_eq!(
        AxiomError::UnboundVariable { index: 4294967295 }.to_string(),
        "Unbound variable in axiom: /4294967295"
    );
}
