use corpus::axioms::{compile_all, AxiomError, NamedAxiom};
use corpus::classical::pattern::ClassicalLogicPattern;
use corpus::nodes::{HashNode, HashNodeInner, NodeStorage};
use corpus::opcodes::{OPCODE_ADD, OPCODE_AND, OPCODE_NOT, OPCODE_SUCCESSOR};
use corpus::peano::axioms::{peano_arithmetic_axioms_with_goals, peano_arithmetic_rules};
use corpus::peano::display::{formula_to_string, term_to_string};
use corpus::peano::prover::{create_logical_prover, create_prover, peano_logical_rules, prove_pa};
use corpus::peano::rewrite::{apply_rule, apply_rule_reverse};
use corpus::peano::syntax::{
    PeanoArithmeticExpression, PeanoArithmeticPattern, PeanoDomainExpression, PeanoDomainPattern,
};
use corpus::peano::PeanoStores;
use corpus::rewriting::pattern::Pattern;
use corpus::rewriting::patterns::{AsRewriteRules, Rewritable};
use corpus::rewriting::substitution::Substitution;
use corpus::rewriting::unifiable::unify_into;
use corpus::rewriting::{
    apply_substitution_to_pattern, rewrite_everywhere, rewrite_root, RewriteDirection, RewriteRule,
};
use corpus::truth::BinaryTruth;

type Term = PeanoArithmeticExpression;

fn var(i: u32) -> PeanoArithmeticPattern {
    PeanoArithmeticPattern::Variable(i)
}

fn lit(n: u64) -> PeanoArithmeticPattern {
    PeanoArithmeticPattern::Literal(n)
}

fn add(a: PeanoArithmeticPattern, b: PeanoArithmeticPattern) -> PeanoArithmeticPattern {
    PeanoArithmeticPattern::Compound { opcode: OPCODE_ADD, args: vec![a, b] }
}

fn succ(a: PeanoArithmeticPattern) -> PeanoArithmeticPattern {
    PeanoArithmeticPattern::Compound { opcode: OPCODE_SUCCESSOR, args: vec![a] }
}

#[test]
fn patterns_know_their_variables_and_sizes() {
    let pattern: Pattern<u64> = Pattern::compound(
        5,
        vec![
            Pattern::var(3),
            Pattern::compound(6, vec![Pattern::var(1), Pattern::wildcard(), Pattern::var(3)]),
            Pattern::constant(9),
            Pattern::var(0),
        ],
    );
    assert_eq!(pattern.vars(), vec![3, 1, 0]);
    assert_eq!(pattern.size(), 8);
    assert!(pattern.is_compound());
    assert!(!pattern.is_variable() && !pattern.is_wildcard() && !pattern.is_constant());
    assert!(Pattern::<u64>::var(0).is_variable());
    assert!(Pattern::<u64>::wildcard().is_wildcard());
    assert!(Pattern::constant(1u64).is_constant());
    assert_eq!(Pattern::<u64>::wildcard().vars(), Vec::<u32>::new());
    assert_eq!(Pattern::<u64>::var(7).size(), 1);
    let copy = pattern.clone();
    assert_eq!(copy.vars(), vec![3, 1, 0]);
    assert_eq!(add(var(2), succ(add(var(0), var(2)))).vars(), vec![2, 0]);
    assert_eq!(
        PeanoDomainPattern::Equality(succ(var(1)), add(var(0), var(1))).vars(),
        vec![1, 0]
    );
    assert_eq!(PeanoDomainPattern::Arithmetic(lit(4)).vars(), Vec::<u32>::new());
}

#[test]
fn substitutions_bind_and_override() {
    let mut store = NodeStorage::new();
    let a = HashNode::from_store(1u64, &mut store);
    let b = HashNode::from_store(2u64, &mut store);
    let c = HashNode::from_store(3u64, &mut store);
    let mut first = Substitution::new();
    assert!(first.is_empty());
    assert_eq!(first.len(), 0);
    first.bind(0, a.clone());
    first.bind(1, b.clone());
    first.bind(0, c.clone());
    assert!(!first.is_empty());
    assert_eq!(first.len(), 2);
    assert!(first.contains(0) && first.contains(1) && !first.contains(2));
    assert_eq!(first.get(0).map(|n| n.hash()), Some(3));
    assert_eq!(first.apply_to_var(1).map(|n| n.hash()), Some(2));
    assert!(first.get(2).is_none());
    // one pair for each bound index, paired with what `get` gives
    let mut listed: Vec<(u32, u64)> = first.iter().iter().map(|(k, n)| (*k, n.hash())).collect();
    listed.sort();
    assert_eq!(listed, vec![(0, 3), (1, 2)]);
    assert_eq!(first.iter().len(), first.len());
    let mut second = Substitution::new();
    second.bind(1, a.clone());
    second.bind(5, b.clone());
    let composed = first.compose(&second);
    assert_eq!(composed.len(), 3);
    assert_eq!(composed.get(0).map(|n| n.hash()), Some(3));
    assert_eq!(composed.get(1).map(|n| n.hash()), Some(1));
    assert_eq!(composed.get(5).map(|n| n.hash()), Some(2));
    let copy = composed.clone();
    assert_eq!(copy.len(), 3);
}

#[test]
fn a_variable_bound_twice_must_agree() {
    let mut stores = PeanoStores::new();
    let zero = stores.number(0);
    let one = stores.successor(zero.clone());
    let same = stores.add(one.clone(), one.clone());
    let differ = stores.add(one.clone(), zero.clone());
    let twice = add(var(0), var(0)).to_pattern();
    let bound = unify_into(&twice, &same, Substitution::new()).expect("a match");
    assert_eq!(bound.len(), 1);
    assert_eq!(bound.get(0).map(|n| n.hash()), Some(one.hash()));
    assert!(unify_into(&twice, &differ, Substitution::new()).is_err());
    // arity and opcode must agree
    assert!(unify_into(&succ(var(0)).to_pattern(), &same, Substitution::new()).is_err());
    assert!(unify_into(&add(var(0), var(1)).to_pattern(), &one, Substitution::new()).is_err());
    let short: Pattern<Term> = Pattern::compound(OPCODE_ADD, vec![Pattern::var(0)]);
    assert!(unify_into(&short, &same, Substitution::new()).is_err());
    // a literal matches its number only
    assert!(unify_into(&lit(0).to_pattern(), &zero, Substitution::new()).is_ok());
    assert!(unify_into(&lit(1).to_pattern(), &zero, Substitution::new()).is_err());
    // a wildcard binds nothing
    let any = unify_into(&Pattern::<Term>::wildcard(), &same, Substitution::new()).expect("a match");
    assert!(any.is_empty());
}

#[test]
fn applying_builds_or_gives_none() {
    let mut stores = PeanoStores::new();
    let zero = stores.number(0);
    let one = stores.successor(zero.clone());
    let mut subst = Substitution::new();
    subst.bind(0, one.clone());
    let store = &mut stores.storage.domain_storage.arithmetic_storage;
    let built = apply_substitution_to_pattern(&add(var(0), succ(lit(5))).to_pattern(), &subst, store)
        .expect("a term");
    assert_eq!(term_to_string(&built), "S(0) + S(5)");
    // an unbound variable
    assert!(apply_substitution_to_pattern(&add(var(0), var(1)).to_pattern(), &subst, store).is_none());
    // a wildcard
    assert!(apply_substitution_to_pattern(&Pattern::<Term>::wildcard(), &subst, store).is_none());
    // an opcode that builds nothing, and a wrong number of arguments
    let unknown: Pattern<Term> = Pattern::compound(OPCODE_NOT, vec![Pattern::var(0)]);
    assert!(apply_substitution_to_pattern(&unknown, &subst, store).is_none());
    let short: Pattern<Term> = Pattern::compound(OPCODE_ADD, vec![Pattern::var(0)]);
    assert!(apply_substitution_to_pattern(&short, &subst, store).is_none());
}

#[test]
fn matching_then_applying_gives_the_term_back() {
    let mut stores = PeanoStores::new();
    let zero = stores.number(0);
    let one = stores.successor(zero.clone());
    let x = stores.variable(4);
    let inner = stores.add(one.clone(), x.clone());
    let term = stores.add(inner.clone(), one.clone());
    let pattern = add(add(var(0), var(1)), var(0)).to_pattern();
    let bound = unify_into(&pattern, &term, Substitution::new()).expect("a match");
    let store = &mut stores.storage.domain_storage.arithmetic_storage;
    let back = apply_substitution_to_pattern(&pattern, &bound, store).expect("a term");
    assert_eq!(back.hash(), term.hash());
    assert!(back.value.same(&term.value));
    // the term itself as a pattern
    let mirror = term.value.decompose_to_pattern(store).to_pattern();
    let bound = unify_into(&mirror, &term, Substitution::new()).expect("a match");
    let back = apply_substitution_to_pattern(&mirror, &bound, store).expect("a term");
    assert_eq!(back.hash(), term.hash());
}

#[test]
fn a_rule_in_both_directions_goes_back() {
    let mut stores = PeanoStores::new();
    let zero = stores.number(0);
    let one = stores.successor(zero.clone());
    let two = stores.successor(one.clone());
    let a = stores.add(one.clone(), two.clone());
    // x + S(y) <-> S(x + y)
    let rule: RewriteRule<Term> = RewriteRule::bidirectional(
        "successor",
        add(var(0), succ(var(1))),
        succ(add(var(0), var(1))),
    );
    assert!(rule.is_bidirectional());
    assert!(rule.replacement_is_bound());
    let store = &mut stores.storage.domain_storage.arithmetic_storage;
    let b = rule.apply(&a, store).expect("a rewrite");
    assert_eq!(term_to_string(&b), "S(S(0) + S(0))");
    let back = rule.apply_reverse(&b, store).expect("a rewrite back");
    assert_eq!(back.hash(), a.hash());
    assert_eq!(apply_rule(&rule, &a, store).map(|n| n.hash()), Some(b.hash()));
    assert_eq!(apply_rule_reverse(&rule, &b, store).map(|n| n.hash()), Some(a.hash()));
    // a forward rule has no way back, a backward rule no way forward
    let forward: RewriteRule<Term> =
        RewriteRule::new("f", add(var(0), lit(0)), var(0), RewriteDirection::Forward);
    let sum = HashNode::from_store(Term::Add(one.clone(), zero.clone()), store);
    assert_eq!(forward.apply(&sum, store).map(|n| n.hash()), Some(one.hash()));
    assert!(forward.apply_reverse(&one, store).is_none());
    let backward: RewriteRule<Term> =
        RewriteRule::new("b", add(var(0), lit(0)), var(0), RewriteDirection::Backward);
    assert!(backward.apply(&sum, store).is_none());
    assert!(!backward.is_bidirectional());
}

#[test]
fn rewrites_come_root_first_then_child_by_child() {
    let mut stores = PeanoStores::new();
    let zero = stores.number(0);
    let one = stores.successor(zero.clone());
    let left = stores.add(one.clone(), zero.clone());
    let right = stores.add(zero.clone(), zero.clone());
    let inner = stores.add(left.clone(), right.clone());
    let term = stores.add(inner.clone(), zero.clone());
    // ((S(0) + 0) + (0 + 0)) + 0 under x + 0 -> x
    let from = add(var(0), lit(0)).to_pattern();
    let to = var(0).to_pattern();
    let store = &mut stores.storage.domain_storage.arithmetic_storage;
    let all = rewrite_everywhere(&term, &from, &to, store);
    let texts: Vec<String> = all.iter().map(term_to_string).collect();
    assert_eq!(
        texts,
        vec![
            "S(0) + 0 + 0 + 0",
            "S(0) + 0 + 0 + 0",
            "S(0) + 0 + 0 + 0",
        ]
    );
    let sizes: Vec<u64> = all.iter().map(|n| n.size()).collect();
    assert_eq!(sizes, vec![8, 8, 8]);
    // the root, then inside the left operand of the left operand, then inside its right operand
    assert_eq!(all[0].hash(), inner.hash());
    assert!(all[1].hash() != all[0].hash());
    assert!(all[2].hash() != all[1].hash());
    assert_eq!(rewrite_root(&term, &from, &to, store).map(|n| n.hash()), Some(inner.hash()));
    assert!(rewrite_root(&one, &from, &to, store).is_none());
    assert!(rewrite_everywhere(&one, &from, &to, store).is_empty());
    // a rule in both directions lists the forward results first
    let rule: RewriteRule<Term> = RewriteRule::bidirectional("id", add(var(0), lit(0)), var(0));
    let both = rule.apply_recursive(&left, store);
    let texts: Vec<String> = both.iter().map(term_to_string).collect();
    assert_eq!(
        texts,
        vec!["S(0)", "S(0) + 0 + 0", "S(0) + 0 + 0", "S(0 + 0) + 0", "S(0) + 0 + 0"]
    );
}

#[test]
fn statements_rewrite_side_by_side_and_inside() {
    let mut stores = PeanoStores::new();
    let zero = stores.number(0);
    let one = stores.successor(zero.clone());
    let sum = stores.add(one.clone(), zero.clone());
    let storage = &mut stores.storage.domain_storage;
    let statement = PeanoDomainExpression::Equality(sum.clone(), one.clone());
    // x + 0 = y  to  x = y
    let from = PeanoDomainPattern::Equality(add(var(0), lit(0)), var(1));
    let to = PeanoDomainPattern::Equality(var(0), var(1));
    let rewritten = statement.try_rewrite(&from, &to, storage).expect("a rewrite");
    let PeanoDomainExpression::Equality(l, r) = &*rewritten.value;
    assert_eq!(l.hash(), one.hash());
    assert_eq!(r.hash(), one.hash());
    assert_eq!(statement.get_recursive_rewrites(&from, &to, storage).len(), 1);
    // x = x does not match sides that differ
    let same = PeanoDomainPattern::Equality(var(0), var(0));
    assert!(statement.try_rewrite(&same, &same, storage).is_none());
    assert!(rewritten.value.try_rewrite(&same, &same, storage).is_some());
    // patterns over terms rewrite inside both sides, the left side first
    let inner_from = PeanoDomainPattern::Arithmetic(lit(0));
    let inner_to = PeanoDomainPattern::Arithmetic(lit(7));
    let inside = statement.get_recursive_rewrites(&inner_from, &inner_to, storage);
    let texts: Vec<String> = inside
        .iter()
        .map(|n| corpus::peano::display::statement_to_string(n))
        .collect();
    assert_eq!(texts, vec!["S(7) + 0 = S(0)", "S(0) + 7 = S(0)", "S(0) + 0 = S(7)"]);
    assert!(statement.try_rewrite(&inner_from, &inner_to, storage).is_none());
    assert!(statement.try_rewrite(&from, &inner_to, storage).is_none());
}

#[test]
fn formulas_rewrite_under_connectives_and_quantifiers() {
    let mut stores = PeanoStores::new();
    let rules = peano_logical_rules(&mut stores);
    let names: Vec<&str> = rules.iter().map(|r| r.name.as_str()).collect();
    assert_eq!(
        names,
        vec![
            "axiom2_successor_injectivity",
            "axiom3_additive_identity",
            "axiom4_additive_successor",
            "axiom_reflexivity",
            "axiom_reflexivity",
            "axiom_symmetry",
            "axiom_successor_injectivity",
        ]
    );
    assert!(rules.iter().all(|r| r.replacement_is_bound()));
    let zero = stores.number(0);
    let one = stores.successor(zero.clone());
    let equation = stores.equals(one.clone(), one.clone());
    let other = stores.equals(zero.clone(), one.clone());
    let negated = stores.not(other.clone());
    let both = stores.and(equation.clone(), negated.clone());
    let closed = stores.for_all(both.clone());
    // reflexivity turns S(0) = S(0) into true wherever it stands
    let reflexivity = &rules[4];
    let found = reflexivity.apply_recursive(&closed, &mut stores.storage);
    let texts: Vec<String> = found.iter().map(formula_to_string).collect();
    assert_eq!(texts, vec!["(∀ (true ∧ (¬ 0 = S(0))))"]);
    // no number is its own successor: 0 = S(0) becomes false
    let never = &rules[6];
    let found = never.apply_recursive(&closed, &mut stores.storage);
    let texts: Vec<String> = found.iter().map(formula_to_string).collect();
    assert_eq!(texts, vec!["(∀ (S(0) = S(0) ∧ (¬ false)))"]);
    // symmetry
    let symmetry = &rules[5];
    let found = symmetry.apply(&other, &mut stores.storage).expect("a rewrite");
    assert_eq!(formula_to_string(&found), "S(0) = 0");
    assert!(symmetry.apply(&negated, &mut stores.storage).is_none());
    // patterns of the shape of formulas
    let from: ClassicalLogicPattern<PeanoDomainExpression> = ClassicalLogicPattern::Compound {
        opcode: OPCODE_NOT,
        operands: vec![ClassicalLogicPattern::Compound {
            opcode: OPCODE_NOT,
            operands: vec![ClassicalLogicPattern::Variable(0)],
        }],
    };
    let to = ClassicalLogicPattern::Variable(0);
    let double = stores.not(negated.clone());
    let rule = RewriteRule::new("double_negation", from, to, RewriteDirection::Forward);
    let found = rule.apply(&double, &mut stores.storage).expect("a rewrite");
    assert_eq!(found.hash(), other.hash());
    let constant: ClassicalLogicPattern<PeanoDomainExpression> =
        ClassicalLogicPattern::BooleanConstant(BinaryTruth::True);
    assert_eq!(constant.vars(), Vec::<u32>::new());
    assert!(constant.to_pattern().is_some());
}

#[test]
fn formula_rules_in_both_directions_go_back() {
    let mut stores = PeanoStores::new();
    let zero = stores.number(0);
    let one = stores.successor(zero.clone());
    let sum = stores.add(one.clone(), zero.clone());
    let equation = stores.equals(sum.clone(), one.clone());
    let other = stores.equals(zero.clone(), one.clone());
    let both = stores.and(equation.clone(), other.clone());
    // by the shape of the formula: A and B to B and A
    let pair = |a: u32, b: u32| -> ClassicalLogicPattern<PeanoDomainExpression> {
        ClassicalLogicPattern::Compound {
            opcode: OPCODE_AND,
            operands: vec![ClassicalLogicPattern::Variable(a), ClassicalLogicPattern::Variable(b)],
        }
    };
    let swap = RewriteRule::bidirectional("swap", pair(0, 1), pair(1, 0));
    let swapped = swap.apply(&both, &mut stores.storage).expect("a rewrite");
    assert_eq!(formula_to_string(&swapped), "(0 = S(0) ∧ S(0) + 0 = S(0))");
    let back = swap.apply_reverse(&swapped, &mut stores.storage).expect("a rewrite back");
    assert_eq!(back.hash(), both.hash());
    // by patterns of the domain: x + 0 = y to x = y
    let identity: RewriteRule<corpus::peano::syntax::PeanoLogicalExpression> =
        RewriteRule::bidirectional(
            "identity",
            ClassicalLogicPattern::DomainPattern(PeanoDomainPattern::Equality(
                add(var(0), lit(0)),
                var(1),
            )),
            ClassicalLogicPattern::DomainPattern(PeanoDomainPattern::Equality(var(0), var(1))),
        );
    let plain = identity.apply(&equation, &mut stores.storage).expect("a rewrite");
    assert_eq!(formula_to_string(&plain), "S(0) = S(0)");
    let back = identity.apply_reverse(&plain, &mut stores.storage).expect("a rewrite back");
    assert_eq!(back.hash(), equation.hash());
    assert_eq!(formula_to_string(&back), "S(0) + 0 = S(0)");
    // a statement becomes a truth constant, and no truth constant a statement
    let settle: RewriteRule<corpus::peano::syntax::PeanoLogicalExpression> =
        RewriteRule::bidirectional(
            "settle",
            ClassicalLogicPattern::DomainPattern(PeanoDomainPattern::Equality(lit(0), lit(0))),
            ClassicalLogicPattern::BooleanConstant(BinaryTruth::True),
        );
    let trivial = stores.equals(zero.clone(), zero.clone());
    let settled = settle.apply(&trivial, &mut stores.storage).expect("a rewrite");
    assert_eq!(formula_to_string(&settled), "true");
    assert!(settle.apply_reverse(&settled, &mut stores.storage).is_none());
}

/// `x = y -> x = x`, whose rule keeps the invariant.
fn rules_source(stores: &mut PeanoStores) -> HashNode<corpus::peano::syntax::PeanoLogicalExpression> {
    let x = stores.variable(0);
    let y = stores.variable(1);
    let from = stores.equals(x.clone(), y);
    let to = stores.equals(x.clone(), x);
    stores.imply(from, to)
}

#[test]
fn axioms_lower_into_rules() {
    let mut stores = PeanoStores::new();
    let x = stores.variable(0);
    let y = stores.variable(1);
    let left = stores.equals(x.clone(), x.clone());
    let right = stores.equals(x.clone(), y.clone());
    // an implication whose consequent has a variable that its antecedent lacks
    let body = stores.imply(left.clone(), right.clone());
    let closed = stores.for_all(body);
    let broken = NamedAxiom::new("broken", closed);
    match broken.compile(&stores.storage) {
        Err(AxiomError::UnboundVariable { index }) => assert_eq!(index, 1),
        _ => panic!("the rule should have been refused"),
    }
    assert!(broken.to_rewrite_rules(&stores.storage).is_empty());
    // of several such variables the first from the left is named
    let z = stores.variable(2);
    let sum = stores.add(z.clone(), y.clone());
    let far = stores.equals(sum, y.clone());
    let wide = stores.imply(left.clone(), far);
    match NamedAxiom::new("wide", wide).compile(&stores.storage) {
        Err(AxiomError::UnboundVariable { index }) => assert_eq!(index, 2),
        _ => panic!("the rule should have been refused"),
    }
    let listed = ClassicalLogicPattern::<PeanoDomainExpression>::Compound {
        opcode: OPCODE_AND,
        operands: vec![
            ClassicalLogicPattern::Variable(5),
            ClassicalLogicPattern::DomainPattern(PeanoDomainPattern::Equality(
                add(var(3), var(5)),
                var(4),
            )),
            ClassicalLogicPattern::Variable(3),
        ],
    };
    assert_eq!(listed.vars(), vec![5, 3, 4]);
    // a biconditional gives one rule in both directions
    let body = stores.iff(right.clone(), right.clone());
    let fine = NamedAxiom::new("fine", body.clone());
    let rules = fine.compile(&stores.storage).expect("rules");
    assert_eq!(rules.len(), 1);
    assert!(rules[0].is_bidirectional());
    assert_eq!(rules[0].name, "fine");
    // an existential gives nothing, a conjunction gives the rules of both operands
    let hidden = stores.there_exists(left.clone());
    assert!(NamedAxiom::new("hidden", hidden.clone()).compile(&stores.storage).expect("rules").is_empty());
    let inner = stores.imply(right.clone(), left.clone());
    let negated = stores.not(right.clone());
    let pair = stores.and(inner, negated);
    let either = stores.or(pair, hidden);
    let rules = either.value.decompose_to_rewrite_rules("pair", &stores.storage);
    assert_eq!(rules.len(), 2);
    assert!(rules.iter().all(|r| r.replacement_is_bound()));
    // a formula one of whose rules would break the invariant gives no rule at all
    let unbound = stores.imply(left.clone(), right.clone());
    let sound = rules_source(&mut stores);
    let mixed = stores.and(sound, unbound.clone());
    assert!(unbound.value.decompose_to_rewrite_rules("unbound", &stores.storage).is_empty());
    assert!(mixed.value.decompose_to_rewrite_rules("mixed", &stores.storage).is_empty());
    assert!(matches!(rules[0].direction, RewriteDirection::Forward));
    assert!(matches!(rules[1].direction, RewriteDirection::Forward));
    // an equality gives a rule between its sides and a rule to true
    let zero = stores.number(0);
    let sum = stores.add(x.clone(), zero);
    let identity = stores.equals(sum, x.clone());
    let rules = NamedAxiom::new("sides", identity).compile(&stores.storage).expect("rules");
    assert_eq!(rules.len(), 2);
    // but not where one side has a variable that the other lacks
    match NamedAxiom::new("sides", right.clone()).compile(&stores.storage) {
        Err(AxiomError::UnboundVariable { index }) => assert_eq!(index, 1),
        _ => panic!("the rule should have been refused"),
    }
    assert!(rules[0].is_bidirectional());
    assert!(!rules[1].is_bidirectional());
    // a truth constant gives nothing
    let constant = stores.truth(BinaryTruth::True);
    assert!(constant.value.decompose_to_rewrite_rules("constant", &stores.storage).is_empty());
    let all = compile_all(&vec![broken, fine], &stores.storage);
    assert_eq!(all.len(), 1);
    let axioms = peano_arithmetic_axioms_with_goals(&mut stores);
    assert_eq!(compile_all(&axioms, &stores.storage).len(), 7);
}

#[test]
fn provers_carry_their_rules() {
    let prover = create_logical_prover(5);
    assert_eq!(prover.max_nodes, 5);
    assert_eq!(prover.rules.len(), 7);
    let prover = create_prover(9);
    assert_eq!(prover.max_nodes, 9);
    assert_eq!(prover.rules.len(), 4);
    assert_eq!(peano_arithmetic_rules().len(), 3);
}

#[test]
fn equalities_are_proved_and_refuted() {
    let mut stores = PeanoStores::new();
    let zero = stores.number(0);
    let one = stores.successor(zero.clone());
    let two = stores.successor(one.clone());
    let sum = stores.add(one.clone(), one.clone());
    let mut store = NodeStorage::<PeanoDomainExpression>::new();
    let theorem = HashNode::from_store(PeanoDomainExpression::Equality(sum, two.clone()), &mut store);
    let found = prove_pa(&theorem, 1000).expect("a proof");
    assert_eq!(found.truth_result, BinaryTruth::True);
    assert!(found.steps.len() >= 3);
    let wrong = HashNode::from_store(PeanoDomainExpression::Equality(one.clone(), zero.clone()), &mut store);
    let found = prove_pa(&wrong, 1000).expect("a refutation");
    assert_eq!(found.truth_result, BinaryTruth::False);
    assert_eq!(found.nodes_explored, 1);
    assert!(found.steps.is_empty());
    let open = HashNode::from_store(PeanoDomainExpression::Equality(zero.clone(), two.clone()), &mut store);
    assert!(prove_pa(&open, 1000).is_none());
    assert!(prove_pa(&theorem, 0).is_none());
}
