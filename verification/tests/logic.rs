use corpus::classical::expression::ClassicalLogicalExpression;
use corpus::classical::proving::{ProofContext, QuantifierOperator};
use corpus::expression::{DomainExpression, LogicalExpression};
use corpus::logic::{same_text, LogicalOperator, LogicalOperatorSet};
use corpus::nodes::{HashNode, HashNodeInner, NodeStorage};
use corpus::proving::context::{
    extract_context_recursive, extract_variable_name, ProofContext as NamedContext,
    ProofContextExtractor, QuantifierOperator as NamedQuantifier,
};
use corpus::opcodes::{OpcodeMapper, OPCODE_ADD, OPCODE_DEBRUIJN, OPCODE_NUMBER, OPCODE_SUCCESSOR};
use corpus::operators::{ClassicalLogicalSystem, ClassicalOperator};
use corpus::pattern_traits::{AddExtractable, EqualityExtractable, SuccessorExtractable};
use corpus::peano::opcodes::PeanoOpcodeMapper;
use corpus::peano::syntax::{PeanoArithmeticExpression, PeanoDomainExpression};
use corpus::peano::PeanoStores;
use corpus::rewriting::pattern::QuantifierType;
use corpus::text::{decimal, digit, join};
use corpus::truth::{BinaryTruth, TruthValue};
use corpus::variables::{PeanoVariableExtractor, VariableExtractor};

const T: BinaryTruth = BinaryTruth::True;
const F: BinaryTruth = BinaryTruth::False;

#[test]
fn truth_tables() {
    assert_eq!(T.const_and(T), T);
    assert_eq!(T.const_and(F), F);
    assert_eq!(F.const_and(T), F);
    assert_eq!(F.const_and(F), F);
    assert_eq!(T.const_or(F), T);
    assert_eq!(F.const_or(F), F);
    assert_eq!(T.const_not(), F);
    assert_eq!(F.const_not(), T);
    assert_eq!(T.const_implies(F), F);
    assert_eq!(F.const_implies(F), T);
    assert_eq!(F.const_implies(T), T);
    assert_eq!(T.const_implies(T), T);
    assert_eq!(T.and(&F), F);
    assert_eq!(T.or(&F), T);
    assert_eq!(TruthValue::not(&T), F);
    assert_eq!(T.implies(&F), F);
    assert!(T.is_true() && !T.is_false());
    assert!(F.is_false() && !F.is_true());
    assert_eq!(T.as_bool(), Some(true));
    assert_eq!(BinaryTruth::from_bool(false), F);
    assert_eq!(BinaryTruth::from(true), T);
    assert!(!bool::from(F));
    assert_eq!(BinaryTruth::default(), F);
    assert_eq!(BinaryTruth::conjunction(&[T, T, T]), T);
    assert_eq!(BinaryTruth::conjunction(&[T, F, T]), F);
    assert_eq!(BinaryTruth::conjunction(&[]), T);
    assert_eq!(BinaryTruth::disjunction(&[F, F, T]), T);
    assert_eq!(BinaryTruth::disjunction(&[F, F]), F);
    assert_eq!(BinaryTruth::disjunction(&[]), F);
    assert_eq!(T.to_string(), "true");
    assert_eq!(F.to_string(), "false");
}

#[test]
fn operators_have_symbols_and_arities() {
    let all = [
        (ClassicalOperator::And, "∧", 2, 1),
        (ClassicalOperator::Or, "∨", 2, 2),
        (ClassicalOperator::Implies, "->", 2, 3),
        (ClassicalOperator::Not, "¬", 1, 4),
        (ClassicalOperator::Iff, "<->", 2, 5),
        (ClassicalOperator::Forall, "∀", 1, 6),
        (ClassicalOperator::Exists, "∃", 1, 7),
        (ClassicalOperator::Equals, "=", 2, 8),
    ];
    for (operator, symbol, arity, tag) in all {
        assert_eq!(operator.symbol(), symbol);
        assert_eq!(operator.arity(), arity);
        assert_eq!(operator.to_string(), symbol);
        assert_eq!(corpus::nodes::HashNodeInner::hash(&operator), tag);
        assert_eq!(LogicalOperator::<BinaryTruth>::is_unary(&operator), arity == 1);
        assert_eq!(LogicalOperator::<BinaryTruth>::is_binary(&operator), arity == 2);
        assert!(!LogicalOperator::<BinaryTruth>::is_nary(&operator));
    }
    assert_eq!(ClassicalOperator::And.apply(&[T, F]), F);
    assert_eq!(ClassicalOperator::Or.apply(&[T, F]), T);
    assert_eq!(ClassicalOperator::Implies.apply(&[T, F]), F);
    assert_eq!(ClassicalOperator::Iff.apply(&[F, F]), T);
    assert_eq!(ClassicalOperator::Iff.apply(&[T, F]), F);
    assert_eq!(ClassicalOperator::Equals.apply(&[T, T]), T);
    assert_eq!(ClassicalOperator::Not.apply(&[T]), F);
    assert_eq!(ClassicalOperator::Forall.apply(&[F]), F);
    assert_eq!(ClassicalOperator::Exists.apply(&[T]), T);
}

#[test]
fn operator_sets_find_by_symbol() {
    let system = ClassicalLogicalSystem::<BinaryTruth>::with_classical_operators();
    assert_eq!(
        system.0.operators().to_vec(),
        vec![
            ClassicalOperator::And,
            ClassicalOperator::Or,
            ClassicalOperator::Implies,
            ClassicalOperator::Iff,
            ClassicalOperator::Not,
            ClassicalOperator::Forall,
            ClassicalOperator::Exists,
        ]
    );
    assert_eq!(system.0.find_operator("<->"), Some(&ClassicalOperator::Iff));
    assert_eq!(system.0.find_operator("∀"), Some(&ClassicalOperator::Forall));
    assert_eq!(system.0.find_operator("="), None);
    let mut set: LogicalOperatorSet<BinaryTruth, ClassicalOperator> = LogicalOperatorSet::default();
    assert!(set.operators().is_empty());
    set.add_operator(ClassicalOperator::Equals);
    assert_eq!(set.find_operator("="), Some(&ClassicalOperator::Equals));
    assert!(same_text("abc", "abc"));
    assert!(!same_text("abc", "abd"));
}

#[test]
fn truth_functional_formulas_evaluate() {
    type Formula = LogicalExpression<BinaryTruth, BinaryTruth, ClassicalOperator>;
    let yes = || HashNode::from(Formula::atomic(T.into()));
    let no = || HashNode::from(Formula::atomic(F.into()));
    let implication = Formula::compound(ClassicalOperator::Implies, vec![yes(), no()]);
    assert!(implication.is_compound() && !implication.is_atomic());
    assert_eq!(implication.operator(), Some(&ClassicalOperator::Implies));
    assert_eq!(implication.operands().map(|o| o.len()), Some(2));
    assert_eq!(implication.evaluate(), F);
    let negated = Formula::compound(ClassicalOperator::Not, vec![implication.into()]);
    assert_eq!(negated.evaluate(), T);
    let both = Formula::compound(ClassicalOperator::And, vec![negated.into(), yes()]);
    assert_eq!(both.clone().evaluate(), T);
    assert!(both.same(&both.clone()));
    assert!(!both.same(&Formula::atomic(T.into())));
    let atom = Formula::atomic(F.into());
    assert!(atom.is_atomic());
    assert!(atom.operator().is_none() && atom.operands().is_none());
    assert_eq!(atom.evaluate(), F);
}

#[test]
fn expressions_of_a_domain_become_formulas() {
    type Formula = LogicalExpression<BinaryTruth, PeanoDomainExpression, ClassicalOperator>;
    let zero = HashNode::from(PeanoArithmeticExpression::Number(0));
    let statement = HashNode::from(PeanoDomainExpression::Equality(zero.clone(), zero.clone()));
    let mut storage: NodeStorage<Formula> = NodeStorage::new();
    let content: DomainExpression<BinaryTruth, PeanoDomainExpression> =
        DomainExpression::domain(statement.clone());
    assert!(content.is_domain() && !content.is_logical());
    assert_eq!(content.as_domain().map(|n| n.hash()), Some(statement.hash()));
    // content becomes its atom, interned once
    let first = content.as_logical(&mut storage);
    assert_eq!(storage.len(), 1);
    assert!(matches!(&*first.value, LogicalExpression::Atomic(inner) if inner.hash() == statement.hash()));
    let second = content.as_logical(&mut storage);
    assert_eq!(storage.len(), 1);
    assert!(std::rc::Rc::ptr_eq(&first.value, &second.value));
    // a formula is handed back as it is, and the store is left alone
    let negated: HashNode<Formula> =
        Formula::compound(ClassicalOperator::Not, vec![first.clone()]).into();
    let formula: DomainExpression<BinaryTruth, PeanoDomainExpression> =
        DomainExpression::logical(negated.clone());
    assert!(formula.is_logical() && !formula.is_domain());
    assert!(formula.as_domain().is_none());
    let same = formula.as_logical(&mut storage);
    assert_eq!(storage.len(), 1);
    assert!(std::rc::Rc::ptr_eq(&same.value, &negated.value));
    assert_eq!(same.hash(), negated.hash());
}

#[test]
fn walking_a_formula_leaves_no_scope_open() {
    type Formula = LogicalExpression<BinaryTruth, PeanoDomainExpression, ClassicalOperator>;
    let zero = HashNode::from(PeanoArithmeticExpression::Number(0));
    let statement = HashNode::from(PeanoDomainExpression::Equality(zero.clone(), zero.clone()));
    let atom: HashNode<Formula> = Formula::atomic(statement.clone()).into();
    assert_eq!(
        extract_variable_name(&atom),
        Some(format!("var_{}", statement.hash()))
    );
    let inner: HashNode<Formula> =
        Formula::compound(ClassicalOperator::Exists, vec![atom.clone(), atom.clone()]).into();
    assert_eq!(extract_variable_name(&inner), None);
    let outer: HashNode<Formula> =
        Formula::compound(ClassicalOperator::Forall, vec![atom.clone(), inner.clone()]).into();
    assert_eq!(outer.extract_context().depth(), 0);
    assert_eq!(atom.extract_context().depth(), 0);
    // inside the walk the scopes are open: the operands of a quantifier see its variable
    let mut context = NamedContext::new();
    context.push_quantifier(NamedQuantifier::Forall, "x");
    extract_context_recursive(&inner, &mut context);
    assert_eq!(context.depth(), 1);
    assert!(context.is_bound("x"));
    // a quantifier over a compound opens no scope and still closes one
    let odd: HashNode<Formula> =
        Formula::compound(ClassicalOperator::Forall, vec![inner.clone()]).into();
    extract_context_recursive(&odd, &mut context);
    assert_eq!(context.depth(), 0);
}

#[test]
fn scopes_bind_by_index() {
    let mut context = ProofContext::new();
    assert_eq!(context.depth(), 0);
    assert!(context.get(0).is_none());
    assert!(!context.in_exists_scope() && !context.in_forall_scope());
    context.push_quantifier(QuantifierOperator::Forall);
    context.push_quantifier(QuantifierOperator::Exists);
    assert_eq!(context.depth(), 2);
    assert_eq!(context.get(0), Some(&QuantifierOperator::Exists));
    assert_eq!(context.get(1), Some(&QuantifierOperator::Forall));
    assert_eq!(context.get(2), None);
    assert!(context.is_existentially_bound(0) && !context.is_universally_bound(0));
    assert!(context.is_universally_bound(1) && !context.is_existentially_bound(1));
    assert!(!context.is_universally_bound(2) && !context.is_existentially_bound(2));
    assert!(context.in_exists_scope() && context.in_forall_scope());
    assert_eq!(context.pop_quantifier(), Some(QuantifierOperator::Exists));
    assert!(!context.in_exists_scope());
    assert_eq!(context.pop_quantifier(), Some(QuantifierOperator::Forall));
    assert_eq!(context.pop_quantifier(), None);
    assert_eq!(ProofContext::default().depth(), 0);
    assert!(QuantifierType::ForAll != QuantifierType::Exists);
}

#[test]
fn formulas_know_their_operators() {
    let mut stores = PeanoStores::new();
    let zero = stores.number(0);
    let equation = stores.equals(zero.clone(), zero.clone());
    assert!(equation.value.is_atomic() && !equation.value.is_compound());
    assert!(equation.value.operator().is_none());
    assert!(equation.value.operands().is_none());
    let negated = stores.not(equation.clone());
    assert_eq!(negated.value.operator(), Some(ClassicalOperator::Not));
    assert_eq!(negated.value.operands().map(|o| o.len()), Some(1));
    let built = ClassicalLogicalExpression::compound(
        ClassicalOperator::Implies,
        vec![equation.clone(), negated.clone()],
    )
    .expect("a formula");
    assert_eq!(built.operator(), Some(ClassicalOperator::Implies));
    assert!(ClassicalLogicalExpression::compound(ClassicalOperator::Implies, vec![equation.clone()]).is_none());
    assert!(ClassicalLogicalExpression::compound(
        ClassicalOperator::Equals,
        vec![equation.clone(), equation.clone()]
    )
    .is_none());
    let statement = match &*equation.value {
        ClassicalLogicalExpression::DomainContent(statement) => statement.clone(),
        _ => panic!("a statement"),
    };
    let atom = ClassicalLogicalExpression::atomic(statement);
    assert!(atom.is_atomic());
}

#[test]
fn terms_show_their_shape() {
    let mut stores = PeanoStores::new();
    let zero = stores.number(0);
    let x = stores.variable(3);
    let y = stores.variable(1);
    let one = stores.successor(zero.clone());
    let sum = stores.add(x.clone(), y.clone());
    let term = stores.add(sum.clone(), x.clone());
    assert!(zero.value.as_successor().is_none());
    assert_eq!(one.value.as_successor().map(|n| n.hash()), Some(zero.hash()));
    assert!(one.value.as_add().is_none());
    assert_eq!(sum.value.as_add().map(|(l, r)| (l.hash(), r.hash())), Some((x.hash(), y.hash())));
    let statement = PeanoDomainExpression::Equality(sum.clone(), one.clone());
    assert_eq!(
        statement.as_equals().map(|(l, r)| (l.hash(), r.hash())),
        Some((sum.hash(), one.hash()))
    );
    let extractor = PeanoVariableExtractor;
    let mut found: Vec<u32> = extractor.extract_variables(&term).into_iter().collect();
    found.sort();
    assert_eq!(found, vec![1, 3]);
    let deep: Vec<u32> = extractor.extract_variables_at_depth(&term, 2).into_iter().collect();
    assert_eq!(deep, vec![3]);
    assert_eq!(extractor.count_variables(&term), 2);
    assert_eq!(extractor.count_variables(&one), 0);
}

#[test]
fn opcodes_build_terms() {
    let mut stores = PeanoStores::new();
    let zero = stores.number(0);
    let one = stores.successor(zero.clone());
    let mapper = PeanoOpcodeMapper;
    let store = &mut stores.storage.domain_storage.arithmetic_storage;
    assert!(mapper.is_valid_opcode(OPCODE_ADD) && mapper.is_valid_opcode(OPCODE_DEBRUIJN));
    assert!(!mapper.is_valid_opcode(0));
    assert_eq!(mapper.arity_for_opcode(OPCODE_ADD), Some(2));
    assert_eq!(mapper.arity_for_opcode(OPCODE_SUCCESSOR), Some(1));
    assert_eq!(mapper.arity_for_opcode(OPCODE_NUMBER), Some(1));
    assert_eq!(mapper.arity_for_opcode(99), None);
    assert_eq!(mapper.get_opcode(&zero), Some(OPCODE_NUMBER));
    assert_eq!(mapper.get_opcode(&one), Some(OPCODE_SUCCESSOR));
    let sum = mapper.construct(OPCODE_ADD, vec![one.clone(), zero.clone()], store);
    assert_eq!(mapper.get_opcode(&sum), Some(OPCODE_ADD));
    assert_eq!(sum.size(), 4);
    let two = mapper.construct(OPCODE_SUCCESSOR, vec![one.clone()], store);
    assert_eq!(two.size(), 3);
    let number = mapper.construct(OPCODE_NUMBER, vec![zero.clone()], store);
    assert!(matches!(&*number.value, PeanoArithmeticExpression::Number(n) if *n == zero.hash()));
    let variable = mapper.construct(OPCODE_DEBRUIJN, vec![zero.clone()], store);
    assert!(matches!(&*variable.value, PeanoArithmeticExpression::DeBruijn(i) if *i == zero.hash() as u32));
}

#[test]
fn numbers_as_text() {
    assert_eq!(decimal(0), "0");
    assert_eq!(decimal(9), "9");
    assert_eq!(decimal(10), "10");
    assert_eq!(decimal(1234567890), "1234567890");
    assert_eq!(decimal(u64::MAX), "18446744073709551615");
    assert_eq!(digit(7), "7");
    assert_eq!(join("ab", "cd"), "abcd");
}
