//! Axioms: named formulas that lower into rewrite rules.

use crate::classical::expression::{ClassicalLogicalExpression, DomainContent, LogicalStorage};
use crate::classical::pattern::{collect_rules, spec_logic_rules, LogicPatternTree};
use crate::nodes::{HashNode, HashNodeInner};
use crate::operators::ClassicalOperator;
use crate::rewriting::patterns::Rewritable;
use crate::rewriting::{
    accept_rules, accepted_shapes, all_named, first_offender, shapes_of, RewriteRule, RuleShape,
};
use crate::text::{decimal, decimal_text};
use vstd::prelude::*;

verus! {

/// In which direction an operator lets one side stand for the other.
#[derive(Debug, Clone, Copy, PartialEq, Eq, Structural)]
pub enum InferenceDirection {
    Both,
    Forward,
    Backward,
}

/// Operators that say in which direction they infer.
pub trait InferenceDirectional {
    spec fn spec_inference_direction(&self) -> InferenceDirection;

    fn inference_direction(&self) -> (direction: InferenceDirection)
        ensures
            direction == self.spec_inference_direction(),
    ;
}

impl InferenceDirectional for ClassicalOperator {
    /// An implication and a negation infer forward; every other operator
    /// infers in both directions.
    open spec fn spec_inference_direction(&self) -> InferenceDirection {
        match self {
            ClassicalOperator::Implies => InferenceDirection::Forward,
            ClassicalOperator::Not => InferenceDirection::Forward,
            _ => InferenceDirection::Both,
        }
    }

    fn inference_direction(&self) -> (direction: InferenceDirection) {
        match self {
            ClassicalOperator::Implies => InferenceDirection::Forward,
            ClassicalOperator::Not => InferenceDirection::Forward,
            _ => InferenceDirection::Both,
        }
    }
}

/// Why an axiom was refused.
#[derive(Debug, PartialEq)]
pub enum AxiomError {
    NotAnAxiom,
    UnsupportedOperator,
    MalformedAxiom { expected: usize, found: usize },
    MissingVariables(Vec<String>),
    ParseError { message: String, position: Option<usize> },
    InvalidTopLevelOperator { operator: String },
    /// A rule's replacement mentions a variable that its pattern does not bind.
    UnboundVariable { index: u32 },
}

/// The texts of `names` with `", "` between them, from `from` on.
pub open spec fn joined(names: Seq<String>, from: int) -> Seq<char>
    decreases names.len() - from,
{
    if from >= names.len() {
        Seq::empty()
    } else if from == names.len() - 1 {
        names[from]@
    } else {
        names[from]@ + ", "@ + joined(names, from + 1)
    }
}

/// The texts of `names` with `", "` between them, up to `n`.
pub open spec fn joined_first(names: Seq<String>, n: int) -> Seq<char>
    decreases n,
{
    if n <= 0 {
        Seq::empty()
    } else if n == 1 {
        names[0]@
    } else {
        joined_first(names, n - 1) + ", "@ + names[n - 1]@
    }
}

impl AxiomError {
    /// The message of the error.
    pub open spec fn message(&self) -> Seq<char> {
        match self {
            AxiomError::NotAnAxiom => "Expression is not an axiom (atomic)"@,
            AxiomError::UnsupportedOperator => "Operator does not support axiom conversion"@,
            AxiomError::MalformedAxiom { expected, found } => "Malformed axiom: expected "@
                + decimal_text(*expected as nat) + " operands, found "@ + decimal_text(
                *found as nat,
            ),
            AxiomError::MissingVariables(vars) => "Missing variables in pattern: "@ + joined_first(
                vars@,
                vars@.len() as int,
            ),
            AxiomError::ParseError { message, position } => match position {
                Some(at) => "Parse error at position "@ + decimal_text(*at as nat) + ": "@
                    + message@,
                None => "Parse error: "@ + message@,
            },
            AxiomError::InvalidTopLevelOperator { operator } =>
                "Invalid top-level operator for axiom: '"@ + operator@ + "'"@,
            AxiomError::UnboundVariable { index } => "Unbound variable in axiom: /"@
                + decimal_text(*index as nat),
        }
    }

    pub fn to_string(&self) -> (text: String)
        ensures
            text@ == self.message(),
    {
        match self {
            AxiomError::NotAnAxiom => "Expression is not an axiom (atomic)".to_owned(),
            AxiomError::UnsupportedOperator => "Operator does not support axiom conversion".to_owned(),
            AxiomError::MalformedAxiom { expected, found } => {
                "Malformed axiom: expected ".to_owned().concat(
                    decimal(*expected as u64).as_str(),
                ).concat(" operands, found ").concat(decimal(*found as u64).as_str())
            },
            AxiomError::MissingVariables(vars) => {
                let mut text = "Missing variables in pattern: ".to_owned();
                let ghost head = text@;
                let mut i: usize = 0;
                while i < vars.len()
                    invariant
                        i <= vars.len(),
                        text@ == head + joined_first(vars@, i as int),
                    decreases vars.len() - i,
                {
                    if i > 0 {
                        text = text.concat(", ");
                    }
                    text = text.concat(vars[i].as_str());
                    i += 1;
                }
                text
            },
            AxiomError::ParseError { message, position } => match position {
                Some(at) => "Parse error at position ".to_owned().concat(
                    decimal(*at as u64).as_str(),
                ).concat(": ").concat(message.as_str()),
                None => "Parse error: ".to_owned().concat(message.as_str()),
            },
            AxiomError::InvalidTopLevelOperator { operator } => {
                "Invalid top-level operator for axiom: '".to_owned().concat(
                    operator.as_str(),
                ).concat("'")
            },
            AxiomError::UnboundVariable { index } => "Unbound variable in axiom: /".to_owned().concat(
                decimal(*index as u64).as_str(),
            ),
        }
    }
}

/// A formula with a name, treated as true without proof.
pub struct NamedAxiom<D> {
    pub name: String,
    pub expression: HashNode<ClassicalLogicalExpression<D>>,
}

impl<D> Clone for NamedAxiom<D> {
    fn clone(&self) -> (copy: Self)
        ensures
            copy == *self,
    {
        NamedAxiom { name: self.name.clone(), expression: self.expression.clone() }
    }
}

/// The rules that the formula of a node lowers into, without their names.
pub open spec fn rules_of_formula<D: DomainContent>(
    formula: HashNode<ClassicalLogicalExpression<D>>,
) -> Seq<RuleShape<LogicPatternTree<D>>> {
    spec_logic_rules(*formula.value)
}

/// What lowering a formula under a name owes: all rules of the formula
/// under the name, where each of them keeps the rule-variable invariant;
/// else an error that names the first variable of the replacement of the
/// first offending rule that its pattern does not mention.
pub open spec fn compiles_to<D: DomainContent>(
    outcome: Result<Vec<RewriteRule<ClassicalLogicalExpression<D>>>, AxiomError>,
    formula: HashNode<ClassicalLogicalExpression<D>>,
    name: Seq<char>,
) -> bool {
    let shapes = rules_of_formula(formula);
    let at = first_offender::<ClassicalLogicalExpression<D>>(shapes, 0);
    match outcome {
        Ok(rules) => {
            &&& at == shapes.len()
            &&& shapes_of(rules@) == shapes
            &&& all_named(rules@, name)
            &&& forall|i: int| 0 <= i < rules@.len() ==> (#[trigger] rules@[i]).respects_variables()
        },
        Err(error) => {
            &&& 0 <= at < shapes.len()
            &&& error matches AxiomError::UnboundVariable { index }
            &&& Some(index) == RewriteRule::<ClassicalLogicalExpression<D>>::spec_first_unbound(
                shapes[at],
            )
            &&& shapes[at].replacement.mentions(index)
            &&& !shapes[at].pattern.mentions(index)
        },
    }
}

/// Lowers a formula into rewrite rules under a name, and refuses it where
/// a rule breaks the rule-variable invariant.
pub fn compile_formula<D: DomainContent>(
    formula: &HashNode<ClassicalLogicalExpression<D>>,
    name: &str,
    store: &LogicalStorage<D>,
) -> (outcome: Result<Vec<RewriteRule<ClassicalLogicalExpression<D>>>, AxiomError>)
    ensures
        compiles_to(outcome, *formula, name@),
{
    let mut rules: Vec<RewriteRule<ClassicalLogicalExpression<D>>> = Vec::new();
    proof {
        assert(shapes_of(rules@) =~= Seq::empty());
    }
    collect_rules(&formula.value, name, store, &mut rules);
    proof {
        assert(shapes_of(rules@) =~= rules_of_formula(*formula));
    }
    match accept_rules(rules) {
        Ok(kept) => Ok(kept),
        Err((at, index)) => {
            proof {
                assert(rules_of_formula(*formula)[at as int] == rules@[at as int].shape());
            }
            Err(AxiomError::UnboundVariable { index })
        },
    }
}

/// What can act as an axiom.
pub trait Axiom<D: DomainContent> {
    /// The formula of the axiom.
    spec fn spec_expression(&self) -> HashNode<ClassicalLogicalExpression<D>>;

    /// The name of the axiom.
    spec fn spec_name(&self) -> Seq<char>;

    /// The rules of the axiom; none where the axiom is refused.
    fn to_rewrite_rules(&self, store: &LogicalStorage<D>) -> (rules: Vec<
        RewriteRule<ClassicalLogicalExpression<D>>,
    >)
        ensures
            shapes_of(rules@) == accepted_rules(self.spec_expression()),
            all_named(rules@, self.spec_name()),
            forall|i: int| 0 <= i < rules@.len() ==> (#[trigger] rules@[i]).respects_variables(),
    ;

    fn name(&self) -> (name: &str)
        ensures
            name@ == self.spec_name(),
    ;

    /// The operator at the top of the formula.
    fn operator(&self) -> (op: Option<ClassicalOperator>)
        ensures
            op == self.spec_expression().value.spec_operator(),
    ;

    fn expression(&self) -> (expression: &HashNode<ClassicalLogicalExpression<D>>)
        ensures
            *expression == self.spec_expression(),
    ;

    /// Whether an operator stands at the top of the formula.
    fn is_valid(&self) -> (valid: bool)
        ensures
            valid == self.spec_expression().value.spec_operator() is Some,
    ;
}

/// Lowers formulas into rewrite rules.
pub trait AxiomConverter<D: DomainContent> {
    fn convert_axiom(
        &self,
        expr: &HashNode<ClassicalLogicalExpression<D>>,
        name: &str,
        store: &LogicalStorage<D>,
    ) -> (outcome: Result<Vec<RewriteRule<ClassicalLogicalExpression<D>>>, AxiomError>)
        ensures
            compiles_to(outcome, *expr, name@),
    ;
}

/// The lowering of classical logic.
pub struct ClassicalAxiomConverter;

impl<D: DomainContent> AxiomConverter<D> for ClassicalAxiomConverter {
    fn convert_axiom(
        &self,
        expr: &HashNode<ClassicalLogicalExpression<D>>,
        name: &str,
        store: &LogicalStorage<D>,
    ) -> (outcome: Result<Vec<RewriteRule<ClassicalLogicalExpression<D>>>, AxiomError>) {
        compile_formula(expr, name, store)
    }
}

impl<D: DomainContent> NamedAxiom<D> {
    pub fn new(name: &str, expression: HashNode<ClassicalLogicalExpression<D>>) -> (named: Self)
        ensures
            named.name@ == name@,
            named.expression == expression,
    {
        NamedAxiom { name: name.to_owned(), expression }
    }

    pub fn name(&self) -> (name: &str)
        ensures
            name@ == self.name@,
    {
        self.name.as_str()
    }

    /// The operator at the top of the formula.
    pub fn operator(&self) -> (op: Option<ClassicalOperator>)
        ensures
            op == self.expression.value.spec_operator(),
    {
        self.expression.value.operator()
    }

    pub fn expression(&self) -> (expression: &HashNode<ClassicalLogicalExpression<D>>)
        ensures
            *expression == self.expression,
    {
        &self.expression
    }

    /// Whether an operator stands at the top of the formula.
    pub fn is_valid(&self) -> (valid: bool)
        ensures
            valid == self.expression.value.spec_operator() is Some,
    {
        self.operator().is_some()
    }

    /// The rules that the axiom lowers into, without their names.
    pub open spec fn spec_rules(&self) -> Seq<RuleShape<LogicPatternTree<D>>> {
        spec_logic_rules(*self.expression.value)
    }

    /// Lowers the axiom into rewrite rules under its name, and refuses it
    /// where the replacement of a rule mentions a variable that the rule's
    /// pattern does not: the error names such a variable of the first such rule.
    pub fn compile(&self, store: &LogicalStorage<D>) -> (outcome: Result<
        Vec<RewriteRule<ClassicalLogicalExpression<D>>>,
        AxiomError,
    >)
        ensures
            compiles_to(outcome, self.expression, self.name@),
    {
        compile_formula(&self.expression, self.name.as_str(), store)
    }

    /// The rules of the axiom; none where the axiom is refused.
    pub fn to_rewrite_rules(&self, store: &LogicalStorage<D>) -> (rules: Vec<
        RewriteRule<ClassicalLogicalExpression<D>>,
    >)
        ensures
            shapes_of(rules@) == accepted_rules(self.expression),
            all_named(rules@, self.name@),
            forall|i: int| 0 <= i < rules@.len() ==> (#[trigger] rules@[i]).respects_variables(),
    {
        match self.compile(store) {
            Ok(rules) => rules,
            Err(_) => {
                let rules: Vec<RewriteRule<ClassicalLogicalExpression<D>>> = Vec::new();
                proof {
                    assert(shapes_of(rules@) =~= Seq::empty());
                }
                rules
            },
        }
    }
}

impl<D: DomainContent> Axiom<D> for NamedAxiom<D> {
    open spec fn spec_expression(&self) -> HashNode<ClassicalLogicalExpression<D>> {
        self.expression
    }

    open spec fn spec_name(&self) -> Seq<char> {
        self.name@
    }

    fn to_rewrite_rules(&self, store: &LogicalStorage<D>) -> (rules: Vec<
        RewriteRule<ClassicalLogicalExpression<D>>,
    >) {
        NamedAxiom::to_rewrite_rules(self, store)
    }

    fn name(&self) -> (name: &str) {
        NamedAxiom::name(self)
    }

    fn operator(&self) -> (op: Option<ClassicalOperator>) {
        NamedAxiom::operator(self)
    }

    fn expression(&self) -> (expression: &HashNode<ClassicalLogicalExpression<D>>) {
        NamedAxiom::expression(self)
    }

    fn is_valid(&self) -> (valid: bool) {
        NamedAxiom::is_valid(self)
    }
}

/// The rules that a formula gives as an axiom: those it lowers into where
/// all of them keep the rule-variable invariant, else none.
pub open spec fn accepted_rules<D: DomainContent>(
    formula: HashNode<ClassicalLogicalExpression<D>>,
) -> Seq<RuleShape<LogicPatternTree<D>>> {
    accepted_shapes::<ClassicalLogicalExpression<D>>(rules_of_formula(formula))
}

/// The rules of the first `n` formulas of a list, formula by formula.
pub open spec fn accepted_rules_of<D: DomainContent>(
    formulas: Seq<HashNode<ClassicalLogicalExpression<D>>>,
    n: nat,
) -> Seq<RuleShape<LogicPatternTree<D>>>
    decreases n,
{
    if n == 0 || n > formulas.len() {
        Seq::empty()
    } else {
        accepted_rules_of(formulas, (n - 1) as nat) + accepted_rules(formulas[n - 1])
    }
}

/// The names of the rules of the first `n` formulas of a list: each rule
/// has the name of its axiom.
pub open spec fn accepted_names_of<D: DomainContent>(
    formulas: Seq<HashNode<ClassicalLogicalExpression<D>>>,
    names: Seq<Seq<char>>,
    n: nat,
) -> Seq<Seq<char>>
    decreases n,
{
    if n == 0 || n > formulas.len() || n > names.len() {
        Seq::empty()
    } else {
        accepted_names_of(formulas, names, (n - 1) as nat) + Seq::new(
            accepted_rules(formulas[n - 1]).len(),
            |i: int| names[n - 1],
        )
    }
}

/// The formulas of a list of axioms.
pub open spec fn formulas_of<D>(axioms: Seq<NamedAxiom<D>>) -> Seq<
    HashNode<ClassicalLogicalExpression<D>>,
> {
    Seq::new(axioms.len(), |i: int| axioms[i].expression)
}

/// The names of a list of axioms.
pub open spec fn names_of<D>(axioms: Seq<NamedAxiom<D>>) -> Seq<Seq<char>> {
    Seq::new(axioms.len(), |i: int| axioms[i].name@)
}

/// The names of a list of rules.
pub open spec fn rule_names<D: DomainContent>(
    rules: Seq<RewriteRule<ClassicalLogicalExpression<D>>>,
) -> Seq<Seq<char>> {
    Seq::new(rules.len(), |i: int| rules[i].name@)
}

/// Whether a list of rules is the rules of a list of axioms: for each axiom
/// in its order the rules that it gives, under its name, each of them
/// keeping the rule-variable invariant.
pub open spec fn compiled_from<D: DomainContent>(
    rules: Seq<RewriteRule<ClassicalLogicalExpression<D>>>,
    formulas: Seq<HashNode<ClassicalLogicalExpression<D>>>,
    names: Seq<Seq<char>>,
) -> bool {
    &&& shapes_of(rules) == accepted_rules_of(formulas, formulas.len())
    &&& rule_names(rules) == accepted_names_of(formulas, names, formulas.len())
    &&& forall|i: int| 0 <= i < rules.len() ==> (#[trigger] rules[i]).respects_variables()
}

/// Lowers each axiom of a list into its rules, in the order of the list; an
/// axiom that is refused gives none. Every rule that comes out keeps the
/// rule-variable invariant.
pub fn compile_all<D: DomainContent>(
    axioms: &Vec<NamedAxiom<D>>,
    store: &LogicalStorage<D>,
) -> (rules: Vec<RewriteRule<ClassicalLogicalExpression<D>>>)
    ensures
        compiled_from(rules@, formulas_of(axioms@), names_of(axioms@)),
{
    let ghost formulas = formulas_of(axioms@);
    let ghost names = names_of(axioms@);
    let mut rules: Vec<RewriteRule<ClassicalLogicalExpression<D>>> = Vec::new();
    let mut i: usize = 0;
    proof {
        assert(shapes_of(rules@) =~= accepted_rules_of(formulas, 0));
        assert(rule_names(rules@) =~= accepted_names_of(formulas, names, 0));
    }
    while i < axioms.len()
        invariant
            i <= axioms.len(),
            formulas == formulas_of(axioms@),
            names == names_of(axioms@),
            shapes_of(rules@) == accepted_rules_of(formulas, i as nat),
            rule_names(rules@) == accepted_names_of(formulas, names, i as nat),
            forall|k: int| 0 <= k < rules@.len() ==> (#[trigger] rules@[k]).respects_variables(),
        decreases axioms.len() - i,
    {
        let ghost before = rules@;
        let mut compiled = axioms[i].to_rewrite_rules(store);
        let ghost added = compiled@;
        rules.append(&mut compiled);
        proof {
            assert(rules@ =~= before + added);
            assert(formulas[i as int] == axioms@[i as int].expression);
            assert(names[i as int] == axioms@[i as int].name@);
            assert(shapes_of(added) == accepted_rules(formulas[i as int]));
            assert(shapes_of(rules@) =~= shapes_of(before) + shapes_of(added));
            assert(rule_names(added) =~= Seq::new(
                accepted_rules(formulas[i as int]).len(),
                |k: int| names[i as int],
            )) by {
                assert(rule_names(added).len() == shapes_of(added).len());
                assert forall|k: int| 0 <= k < added.len() implies rule_names(added)[k]
                    == names[i as int] by {
                    assert(added[k].name@ == axioms@[i as int].name@);
                }
            }
            assert(rule_names(rules@) =~= rule_names(before) + rule_names(added));
        }
        i += 1;
    }
    rules
}

} // verus!
