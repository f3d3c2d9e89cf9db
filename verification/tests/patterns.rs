use corpus::axioms::{Axiom, AxiomConverter, ClassicalAxiomConverter, NamedAxiom};
use corpus::classical::pattern::ClassicalLogicPattern;
use corpus::expression::{DomainExpression, LogicalExpression};
use corpus::nodes::{HashNode, HashNodeInner};
use corpus::opcodes::{OPCODE_ADD, OPCODE_NOT};
use corpus::operators::ClassicalOperator;
use corpus::peano::display::{
    domain_expression_to_string, formula_to_string, logical_to_string, pattern_to_string,
};
use corpus::peano::goal::{extract_equality_operands, PeanoGoalChecker};
use corpus::peano::quantifiers::apply_under_quantifiers;
use corpus::peano::rewrite::apply_substitution;
use corpus::peano::syntax::{
    PeanoArithmeticExpression, PeanoArithmeticPattern, PeanoDomainExpression, PeanoDomainPattern,
};
use corpus::peano::PeanoStores;
use corpus::proving::{GoalChecker, SubtermRewritable};
use corpus::rewriting::pattern::Pattern;
use corpus::rewriting::patterns::Rewritable;
use corpus::rewriting::substitution::Substitution;
use corpus::truth::BinaryTruth;

fn sum_pattern() -> PeanoArithmeticPattern {
    PeanoArithmeticPattern::Compound {
        opcode: OPCODE_ADD,
        args: vec![PeanoArithmeticPattern::Variable(0), PeanoArithmeticPattern::Literal(0)],
    }
}

#[test]
fn patterns_have_fingerprints_and_sizes() {
    assert_eq!(PeanoArithmeticPattern::Variable(0).hash(), 2654436781);
    assert_eq!(PeanoArithmeticPattern::Wildcard.hash(), 17);
    assert_eq!(PeanoArithmeticPattern::Literal(0).hash(), 5308873597);
    assert_eq!(sum_pattern().hash(), 11062195819981);
    assert_eq!(sum_pattern().size(), 3);
    assert_eq!(PeanoArithmeticPattern::Wildcard.size(), 1);
    let equality = PeanoDomainPattern::Equality(sum_pattern(), PeanoArithmeticPattern::Variable(1));
    assert_eq!(equality.hash(), 732671541647477);
    assert_eq!(equality.size(), 5);
    assert_eq!(PeanoDomainPattern::Arithmetic(sum_pattern()).hash(), 11062195819981);
    assert_eq!(PeanoDomainPattern::Arithmetic(sum_pattern()).size(), 3);
    assert_eq!(PeanoDomainExpression::pattern_hash(&equality), 732671541647477);
    let inner: ClassicalLogicPattern<PeanoDomainExpression> = ClassicalLogicPattern::DomainPattern(
        PeanoDomainPattern::Equality(sum_pattern(), PeanoArithmeticPattern::Variable(1)),
    );
    assert_eq!(inner.hash(), 732842362046972);
    assert_eq!(inner.size(), 1);
    let negated = ClassicalLogicPattern::Compound { opcode: OPCODE_NOT, operands: vec![inner] };
    assert_eq!(negated.hash(), 733017278060744);
    assert_eq!(negated.size(), 2);
    assert_eq!(negated.vars(), vec![0, 1]);
    assert!(negated.to_pattern().is_none());
    let constant: ClassicalLogicPattern<PeanoDomainExpression> =
        ClassicalLogicPattern::BooleanConstant(BinaryTruth::True);
    assert_eq!(constant.hash(), 175247762104);
    assert_eq!(ClassicalLogicPattern::<PeanoDomainExpression>::Variable(0).hash(), 2654436781);
    assert_eq!(ClassicalLogicPattern::<PeanoDomainExpression>::Wildcard.hash(), 17);
    assert_eq!(Pattern::constant(9u64).hash(), 2654436948);
    assert_eq!(u64::pattern_hash(&Pattern::constant(9u64)), 2654436948);
}

#[test]
fn truth_functional_formulas_have_fingerprints() {
    type Formula = LogicalExpression<BinaryTruth, BinaryTruth, ClassicalOperator>;
    let yes = Formula::atomic(BinaryTruth::True.into());
    let no = Formula::atomic(BinaryTruth::False.into());
    assert_eq!(yes.hash(), 2654435770);
    assert_eq!(yes.size(), 2);
    let both = Formula::compound(ClassicalOperator::And, vec![yes.into(), no.into()]);
    assert_eq!(both.hash(), 11060557412622);
    assert_eq!(both.size(), 6);
    type Statement = LogicalExpression<BinaryTruth, PeanoDomainExpression, ClassicalOperator>;
    let zero = HashNode::from(PeanoArithmeticExpression::Number(0));
    let statement = HashNode::from(PeanoDomainExpression::Equality(zero.clone(), zero));
    let atom: HashNode<Statement> = Statement::atomic(statement.clone()).into();
    assert_eq!(atom.hash(), corpus::nodes::Hashing::hash_combine(0, statement.hash()));
    let formula: DomainExpression<BinaryTruth, PeanoDomainExpression> =
        DomainExpression::logical(atom.clone());
    assert_eq!(formula.hash(), corpus::nodes::Hashing::hash_combine(1, atom.hash()));
    assert_eq!(formula.size(), 5);
    let content: DomainExpression<BinaryTruth, PeanoDomainExpression> =
        DomainExpression::domain(statement.clone());
    assert_eq!(content.hash(), corpus::nodes::Hashing::hash_combine(0, statement.hash()));
    assert_eq!(content.size(), 4);
}

#[test]
fn only_equalities_have_sides() {
    let mut stores = PeanoStores::new();
    let zero = stores.number(0);
    let one = stores.successor(zero.clone());
    let equation = stores.equals(zero.clone(), one.clone());
    let (left, right) = extract_equality_operands(&equation).expect("two sides");
    assert_eq!(left.hash(), zero.hash());
    assert_eq!(right.hash(), one.hash());
    let negated = stores.not(equation.clone());
    assert_eq!(
        extract_equality_operands(&negated).err().unwrap(),
        "Theorem must be an equality (EQ ...)."
    );
}

#[test]
fn functions_apply_behind_the_quantifiers() {
    let mut stores = PeanoStores::new();
    let zero = stores.number(0);
    let one = stores.successor(zero.clone());
    let equation = stores.equals(zero.clone(), one.clone());
    let replacement = stores.equals(one.clone(), zero.clone());
    let inner = stores.there_exists(equation.clone());
    let closed = stores.for_all(inner);
    let wanted = equation.hash();
    let swap = |node: &HashNode<_>| {
        if node.hash() == wanted {
            Some(replacement.clone())
        } else {
            None
        }
    };
    let changed = apply_under_quantifiers(&closed, &mut stores, &swap).expect("a formula");
    assert_eq!(formula_to_string(&changed), "(∀ (∃ S(0) = 0))");
    assert!(apply_under_quantifiers(&changed, &mut stores, &swap).is_none());
    let bare = apply_under_quantifiers(&equation, &mut stores, &swap).expect("a formula");
    assert_eq!(bare.hash(), replacement.hash());
    assert_eq!(closed.rewrite_any_subterm(&swap), None);
    assert_eq!(equation.rewrite_any_subterm(&swap).map(|n| n.hash()), Some(replacement.hash()));
}

#[test]
fn bindings_apply_to_patterns_over_terms() {
    let mut stores = PeanoStores::new();
    let zero = stores.number(0);
    let one = stores.successor(zero.clone());
    let mut subst = Substitution::default();
    subst.bind(0, one.clone());
    let pattern = sum_pattern().to_pattern();
    let store = &mut stores.pa_storage_mut().arithmetic_storage;
    let built = apply_substitution(&pattern, &subst, store).expect("a term");
    assert!(matches!(&*built.value, PeanoArithmeticExpression::Add(l, r)
        if l.hash() == one.hash() && r.hash() == zero.hash()));
    assert!(apply_substitution(&pattern, &Substitution::new(), store).is_none());
}

#[test]
fn axioms_through_their_traits() {
    let mut stores = PeanoStores::new();
    let x = stores.variable(0);
    let zero = stores.number(0);
    let sum = stores.add(x.clone(), zero);
    let body = stores.equals(sum, x.clone());
    let closed = stores.for_all(body);
    let named = NamedAxiom::new("identity", closed.clone());
    assert_eq!(Axiom::name(&named), "identity");
    assert_eq!(Axiom::operator(&named), Some(ClassicalOperator::Forall));
    assert_eq!(Axiom::expression(&named).hash(), closed.hash());
    assert!(Axiom::is_valid(&named));
    assert_eq!(Axiom::to_rewrite_rules(&named, &stores.storage).len(), 2);
    let copy = named.clone();
    assert_eq!(copy.name(), "identity");
    let rules = ClassicalAxiomConverter.convert_axiom(&closed, "again", &stores.storage).expect("rules");
    assert_eq!(rules.len(), 2);
    assert_eq!(rules[1].name, "again");
    let constant = stores.truth(BinaryTruth::True);
    let plain = NamedAxiom::new("plain", constant);
    assert!(!plain.is_valid());
    assert_eq!(plain.operator(), None);
}

#[test]
fn the_axioms_decide_their_own_statements() {
    let checker = PeanoGoalChecker::new();
    assert_eq!(checker.inner.axioms().len(), 6);
    let mut stores = PeanoStores::new();
    let x = stores.variable(0);
    let reflexive = stores.equals(x.clone(), x.clone());
    assert_eq!(checker.check(&reflexive), Some(BinaryTruth::True));
    let negated = stores.not(reflexive.clone());
    assert_eq!(checker.check(&negated), Some(BinaryTruth::False));
    let zero = stores.number(0);
    let other = stores.equals(zero.clone(), zero);
    assert_eq!(checker.check(&other), None);
    let custom = PeanoGoalChecker::with_axioms(vec![NamedAxiom::new("zero", other.clone())]);
    assert_eq!(custom.check(&other), Some(BinaryTruth::True));
    assert_eq!(custom.check(&reflexive), None);
}

#[test]
fn patterns_and_truth_formulas_as_text() {
    assert_eq!(pattern_to_string(&sum_pattern()), "(12 /0 0)");
    assert_eq!(pattern_to_string(&PeanoArithmeticPattern::Wildcard), "_");
    assert_eq!(pattern_to_string(&PeanoArithmeticPattern::Variable(12)), "/12");
    let nested = PeanoArithmeticPattern::Compound {
        opcode: 13,
        args: vec![sum_pattern()],
    };
    assert_eq!(pattern_to_string(&nested), "(13 (12 /0 0))");
    let empty = PeanoArithmeticPattern::Compound { opcode: 13, args: vec![] };
    assert_eq!(pattern_to_string(&empty), "(13)");
    type Formula = LogicalExpression<BinaryTruth, PeanoDomainExpression, ClassicalOperator>;
    let zero = HashNode::from(PeanoArithmeticExpression::Number(0));
    let statement = HashNode::from(PeanoDomainExpression::Equality(zero.clone(), zero));
    let atom = || HashNode::<Formula>::from(Formula::atomic(statement.clone()));
    assert_eq!(logical_to_string(&atom()), "0 = 0");
    let negated: HashNode<Formula> = Formula::compound(ClassicalOperator::Not, vec![atom()]).into();
    assert_eq!(logical_to_string(&negated), "(¬ 0 = 0)");
    let both: HashNode<Formula> =
        Formula::compound(ClassicalOperator::And, vec![atom(), negated]).into();
    assert_eq!(logical_to_string(&both), "(0 = 0 ∧ (¬ 0 = 0))");
    let many: HashNode<Formula> =
        Formula::compound(ClassicalOperator::Or, vec![atom(), atom(), atom()]).into();
    assert_eq!(logical_to_string(&many), "(∨ 0 = 0 0 = 0 0 = 0)");
    let formula: DomainExpression<BinaryTruth, PeanoDomainExpression> =
        DomainExpression::logical(both);
    assert_eq!(domain_expression_to_string(&formula), "(0 = 0 ∧ (¬ 0 = 0))");
    let content: DomainExpression<BinaryTruth, PeanoDomainExpression> =
        DomainExpression::domain(statement.clone());
    assert_eq!(domain_expression_to_string(&content), "0 = 0");
}
