//! Best-first proof search.

pub mod context;

use crate::nodes::{saturated, HashNode, HashNodeInner};
use crate::rewriting::patterns::Rewritable;
use crate::rewriting::RewriteRule;
use crate::truth::BinaryTruth;
use std::collections::HashSet;
use vstd::prelude::*;

verus! {

/// One rewrite step of a proof: which rule turned what into what.
pub struct ProofStep<T> {
    pub rule_name: String,
    pub old_expr: HashNode<T>,
    pub new_expr: HashNode<T>,
}

/// A proof step with its name as text.
pub struct StepModel<T> {
    pub rule_name: Seq<char>,
    pub old_expr: HashNode<T>,
    pub new_expr: HashNode<T>,
}

impl<T> View for ProofStep<T> {
    type V = StepModel<T>;

    open spec fn view(&self) -> StepModel<T> {
        StepModel { rule_name: self.rule_name@, old_expr: self.old_expr, new_expr: self.new_expr }
    }
}

impl<T> Clone for ProofStep<T> {
    fn clone(&self) -> (copy: Self)
        ensures
            copy@ == self@,
    {
        ProofStep {
            rule_name: self.rule_name.clone(),
            old_expr: self.old_expr.clone(),
            new_expr: self.new_expr.clone(),
        }
    }
}

/// The models of a list of steps.
pub open spec fn step_models<T>(steps: Seq<ProofStep<T>>) -> Seq<StepModel<T>> {
    Seq::new(steps.len(), |i: int| steps[i]@)
}

/// A state of the search: an expression, the steps that led to it, and its cost.
pub struct ProofState<T> {
    pub expr: HashNode<T>,
    pub steps: Vec<ProofStep<T>>,
    pub estimated_cost: u64,
}

/// A state of the search as a mathematical value.
pub struct StateModel<T> {
    pub expr: HashNode<T>,
    pub steps: Seq<StepModel<T>>,
    pub estimated_cost: u64,
}

impl<T> View for ProofState<T> {
    type V = StateModel<T>;

    open spec fn view(&self) -> StateModel<T> {
        StateModel {
            expr: self.expr,
            steps: step_models(self.steps@),
            estimated_cost: self.estimated_cost,
        }
    }
}

/// The models of a list of states.
pub open spec fn state_models<T>(states: Seq<ProofState<T>>) -> Seq<StateModel<T>> {
    Seq::new(states.len(), |i: int| states[i]@)
}

/// A proof that was found.
pub struct ProofResult<T> {
    /// The steps from the theorem to the final expression.
    pub steps: Vec<ProofStep<T>>,
    /// How many states the search took from the frontier.
    pub nodes_explored: usize,
    /// The expression that the goal checker recognised.
    pub final_expr: HashNode<T>,
    /// What the goal checker recognised it as.
    pub truth_result: BinaryTruth,
}

/// A proof as a mathematical value.
pub struct ResultModel<T> {
    pub steps: Seq<StepModel<T>>,
    pub nodes_explored: nat,
    pub final_expr: HashNode<T>,
    pub truth_result: BinaryTruth,
}

impl<T> View for ProofResult<T> {
    type V = ResultModel<T>;

    open spec fn view(&self) -> ResultModel<T> {
        ResultModel {
            steps: step_models(self.steps@),
            nodes_explored: self.nodes_explored as nat,
            final_expr: self.final_expr,
            truth_result: self.truth_result,
        }
    }
}

/// Orders the states of the frontier: lower is more promising.
pub trait CostEstimator<T: HashNodeInner> {
    /// The cost of `candidate`, reached from `previous` where there is one.
    spec fn spec_cost(&self, previous: Option<StateModel<T>>, candidate: HashNode<T>) -> u64;

    fn estimate_cost(&self, previous: Option<&ProofState<T>>, candidate: &HashNode<T>) -> (cost: u64)
        ensures
            cost == self.spec_cost(
                match previous {
                    Some(state) => Some(state@),
                    None => None,
                },
                *candidate,
            ),
    ;
}

/// Recognises the expressions at which the search halts.
pub trait GoalChecker<T: HashNodeInner> {
    /// `Some(True)` for a proven expression, `Some(False)` for a disproven
    /// one, `None` for any other.
    spec fn spec_check(&self, expr: HashNode<T>) -> Option<BinaryTruth>;

    fn check(&self, expr: &HashNode<T>) -> (verdict: Option<BinaryTruth>)
        ensures
            verdict == self.spec_check(*expr),
    ;
}

/// Expressions that a rewriting function can be tried on.
pub trait SubtermRewritable: Sized {
    /// The kind of expression that is rewritten.
    type Expr: HashNodeInner;

    /// The node that the function is tried on.
    spec fn spec_node(&self) -> HashNode<Self::Expr>;

    /// Tries `try_rewrite` on the expression and hands back what it gives.
    fn rewrite_any_subterm<F: Fn(&HashNode<Self::Expr>) -> Option<HashNode<Self::Expr>>>(
        &self,
        try_rewrite: &F,
    ) -> (rewritten: Option<HashNode<Self::Expr>>)
        requires
            try_rewrite.requires((&self.spec_node(),)),
        ensures
            try_rewrite.ensures((&self.spec_node(),), rewritten),
    ;
}

impl<T: HashNodeInner> SubtermRewritable for HashNode<T> {
    type Expr = T;

    open spec fn spec_node(&self) -> HashNode<T> {
        *self
    }

    fn rewrite_any_subterm<F: Fn(&HashNode<T>) -> Option<HashNode<T>>>(&self, try_rewrite: &F) -> (rewritten:
        Option<HashNode<T>>) {
        try_rewrite(self)
    }
}

/// The reference estimator: the number of steps behind the previous state
/// plus the size of the candidate, held at `u64::MAX`.
pub struct SizeCostEstimator;

impl<T: HashNodeInner> CostEstimator<T> for SizeCostEstimator {
    open spec fn spec_cost(&self, previous: Option<StateModel<T>>, candidate: HashNode<T>) -> u64 {
        match previous {
            Some(state) => saturated(state.steps.len() + candidate.spec_size()),
            None => saturated(candidate.spec_size()),
        }
    }

    fn estimate_cost(&self, previous: Option<&ProofState<T>>, candidate: &HashNode<T>) -> (cost: u64) {
        let size = candidate.size();
        match previous {
            Some(state) => {
                let depth = state.steps.len() as u64;
                proof {
                    assert(state@.steps.len() == state.steps@.len());
                    crate::nodes::lemma_saturated_add(depth as nat, candidate.spec_size());
                }
                depth.saturating_add(size)
            },
            None => size,
        }
    }
}

/// A distance between two expressions: their sizes and the distance of
/// their fingerprints, added up and held at `u64::MAX`.
pub struct SizeHashCostEstimator;

impl SizeHashCostEstimator {
    pub open spec fn spec_distance<T: HashNodeInner>(lhs: HashNode<T>, rhs: HashNode<T>) -> u64 {
        let gap = if lhs.spec_hash() >= rhs.spec_hash() {
            lhs.spec_hash() - rhs.spec_hash()
        } else {
            rhs.spec_hash() - lhs.spec_hash()
        };
        saturated(lhs.spec_size() + rhs.spec_size() + gap as nat)
    }

    pub fn estimate_cost<T: HashNodeInner>(&self, lhs: &HashNode<T>, rhs: &HashNode<T>) -> (cost: u64)
        ensures
            cost == Self::spec_distance(*lhs, *rhs),
    {
        let lhs_size = lhs.size();
        let rhs_size = rhs.size();
        let a = lhs.hash();
        let b = rhs.hash();
        let hash_distance = if a >= b {
            a - b
        } else {
            b - a
        };
        lhs_size.saturating_add(rhs_size).saturating_add(hash_distance)
    }
}

/// Two expressions are at the goal when their fingerprints agree.
pub struct HashEqualityGoalChecker;

impl HashEqualityGoalChecker {
    pub fn is_goal<T: HashNodeInner>(&self, lhs: &HashNode<T>, rhs: &HashNode<T>) -> (goal: bool)
        ensures
            goal == (lhs.spec_hash() == rhs.spec_hash()),
    {
        lhs.hash() == rhs.hash()
    }
}

/// Whether some rule of `rules` with the name of `step` rewrites the old
/// expression of the step into the new one at some position.
pub open spec fn step_justified<T: Rewritable>(step: StepModel<T>, rules: Seq<RewriteRule<T>>) -> bool {
    exists|k: int|
        0 <= k < rules.len() && (#[trigger] rules[k]).name@ == step.rule_name
            && rules[k].spec_apply_recursive(step.old_expr).contains(step.new_expr)
}

/// Whether `steps` lead from `initial` to `last`, each step justified by a
/// rule and starting where the one before ended.
pub open spec fn derivation<T: Rewritable>(
    initial: HashNode<T>,
    steps: Seq<StepModel<T>>,
    last: HashNode<T>,
    rules: Seq<RewriteRule<T>>,
) -> bool {
    &&& steps.len() == 0 ==> last == initial
    &&& steps.len() > 0 ==> steps[0].old_expr == initial && steps.last().new_expr == last
    &&& forall|i: int| 0 <= i < steps.len() ==> step_justified(#[trigger] steps[i], rules)
    &&& forall|i: int|
        0 <= i < steps.len() - 1 ==> (#[trigger] steps[i]).new_expr == steps[i + 1].old_expr
}

/// A derivation with one more justified step at its end is a derivation.
pub proof fn lemma_derivation_extends<T: Rewritable>(
    initial: HashNode<T>,
    steps: Seq<StepModel<T>>,
    last: HashNode<T>,
    rules: Seq<RewriteRule<T>>,
    step: StepModel<T>,
)
    requires
        derivation(initial, steps, last, rules),
        step.old_expr == last,
        step_justified(step, rules),
    ensures
        derivation(initial, steps.push(step), step.new_expr, rules),
{
    let longer = steps.push(step);
    assert forall|i: int| 0 <= i < longer.len() implies step_justified(
        #[trigger] longer[i],
        rules,
    ) by {
        if i < steps.len() {
            assert(longer[i] == steps[i]);
        }
    }
    assert forall|i: int| 0 <= i < longer.len() - 1 implies (#[trigger] longer[i]).new_expr
        == longer[i + 1].old_expr by {
        if i < steps.len() - 1 {
            assert(longer[i] == steps[i]);
            assert(longer[i + 1] == steps[i + 1]);
        }
    }
}

/// The index of the first state of least cost among the first `n` states.
pub open spec fn spec_min_index<T>(frontier: Seq<StateModel<T>>, n: nat) -> int
    decreases n,
{
    if n <= 1 {
        0
    } else {
        let best = spec_min_index(frontier, (n - 1) as nat);
        if frontier[n - 1].estimated_cost < frontier[best].estimated_cost {
            n - 1
        } else {
            best
        }
    }
}

/// `spec_min_index` is in range.
pub proof fn lemma_min_index_in_range<T>(frontier: Seq<StateModel<T>>, n: nat)
    requires
        1 <= n <= frontier.len(),
    ensures
        0 <= spec_min_index(frontier, n) < n,
    decreases n,
{
    if n > 1 {
        lemma_min_index_in_range(frontier, (n - 1) as nat);
    }
}

/// The states that one rule leads to from `state`, in the order of its rewrites.
pub open spec fn spec_successors<T: Rewritable, C: CostEstimator<T>>(
    state: StateModel<T>,
    rule: RewriteRule<T>,
    estimator: C,
) -> Seq<StateModel<T>> {
    let rewrites = rule.spec_apply_recursive(state.expr);
    Seq::new(
        rewrites.len(),
        |j: int|
            StateModel {
                expr: rewrites[j],
                steps: state.steps.push(
                    StepModel { rule_name: rule.name@, old_expr: state.expr, new_expr: rewrites[j] },
                ),
                estimated_cost: estimator.spec_cost(Some(state), rewrites[j]),
            },
    )
}

/// The states that the first `n` rules lead to from `state`, rule by rule.
pub open spec fn spec_expand<T: Rewritable, C: CostEstimator<T>>(
    state: StateModel<T>,
    rules: Seq<RewriteRule<T>>,
    n: nat,
    estimator: C,
) -> Seq<StateModel<T>>
    decreases n,
{
    if n == 0 || n > rules.len() {
        Seq::empty()
    } else {
        spec_expand(state, rules, (n - 1) as nat, estimator) + spec_successors(
            state,
            rules[n - 1],
            estimator,
        )
    }
}

/// The search as a mathematical value.
pub struct SearchModel<T> {
    pub frontier: Seq<StateModel<T>>,
    pub visited: Set<u64>,
    pub explored: nat,
}

/// How one step of the search ends.
pub enum StepOutcome<T> {
    /// The state taken from the frontier is a goal.
    Proved(ProofResult<T>),
    /// The frontier is empty or the budget is spent.
    NoConclusion,
    /// The search goes on.
    Continue,
}

/// How one step of the search ends, as a mathematical value.
pub enum OutcomeModel<T> {
    Proved(ResultModel<T>),
    NoConclusion,
    Continue,
}

impl<T> View for StepOutcome<T> {
    type V = OutcomeModel<T>;

    open spec fn view(&self) -> OutcomeModel<T> {
        match self {
            StepOutcome::Proved(result) => OutcomeModel::Proved(result@),
            StepOutcome::NoConclusion => OutcomeModel::NoConclusion,
            StepOutcome::Continue => OutcomeModel::Continue,
        }
    }
}

/// One step of the search. With an empty frontier or the budget spent it
/// ends without conclusion. Else it takes the first state of least cost from
/// the frontier and counts it; a goal ends the search; a state whose
/// fingerprint was expanded before is dropped; any other state is marked as
/// visited and its successors under every rule join the frontier.
pub open spec fn spec_step<T: Rewritable, C: CostEstimator<T>, G: GoalChecker<T>>(
    search: SearchModel<T>,
    rules: Seq<RewriteRule<T>>,
    estimator: C,
    checker: G,
    max_nodes: nat,
) -> (SearchModel<T>, OutcomeModel<T>) {
    if search.frontier.len() == 0 || search.explored >= max_nodes {
        (search, OutcomeModel::NoConclusion)
    } else {
        let index = spec_min_index(search.frontier, search.frontier.len());
        let state = search.frontier[index];
        let rest = search.frontier.remove(index);
        let explored = search.explored + 1;
        match checker.spec_check(state.expr) {
            Some(truth) => (
                SearchModel { frontier: rest, visited: search.visited, explored },
                OutcomeModel::Proved(
                    ResultModel {
                        steps: state.steps,
                        nodes_explored: explored,
                        final_expr: state.expr,
                        truth_result: truth,
                    },
                ),
            ),
            None => if search.visited.contains(state.expr.spec_hash()) {
                (
                    SearchModel { frontier: rest, visited: search.visited, explored },
                    OutcomeModel::Continue,
                )
            } else {
                (
                    SearchModel {
                        frontier: rest + spec_expand(state, rules, rules.len(), estimator),
                        visited: search.visited.insert(state.expr.spec_hash()),
                        explored,
                    },
                    OutcomeModel::Continue,
                )
            },
        }
    }
}

/// The search run to its end: steps until one ends it.
pub open spec fn spec_run<T: Rewritable, C: CostEstimator<T>, G: GoalChecker<T>>(
    search: SearchModel<T>,
    rules: Seq<RewriteRule<T>>,
    estimator: C,
    checker: G,
    max_nodes: nat,
) -> Option<ResultModel<T>>
    decreases max_nodes - search.explored,
{
    let (next, outcome) = spec_step(search, rules, estimator, checker, max_nodes);
    match outcome {
        OutcomeModel::Proved(result) => Some(result),
        OutcomeModel::NoConclusion => None,
        OutcomeModel::Continue => if search.explored < max_nodes && next.explored
            == search.explored + 1 {
            spec_run(next, rules, estimator, checker, max_nodes)
        } else {
            None
        },
    }
}

/// The fingerprints of the states that the search expands, in the order in
/// which it expands them.
pub open spec fn spec_expansions<T: Rewritable, C: CostEstimator<T>, G: GoalChecker<T>>(
    search: SearchModel<T>,
    rules: Seq<RewriteRule<T>>,
    estimator: C,
    checker: G,
    max_nodes: nat,
) -> Seq<u64>
    decreases max_nodes - search.explored,
{
    let (next, outcome) = spec_step(search, rules, estimator, checker, max_nodes);
    if outcome is Continue && search.explored < max_nodes && next.explored == search.explored + 1 {
        let later = spec_expansions(next, rules, estimator, checker, max_nodes);
        if next.visited == search.visited {
            later
        } else {
            seq![
                search.frontier[spec_min_index(search.frontier, search.frontier.len())].expr.spec_hash(),
            ] + later
        }
    } else {
        Seq::empty()
    }
}

/// No fingerprint is expanded twice in one run of the search, and none
/// that was marked as visited before.
pub proof fn lemma_no_fingerprint_expanded_twice<
    T: Rewritable,
    C: CostEstimator<T>,
    G: GoalChecker<T>,
>(search: SearchModel<T>, rules: Seq<RewriteRule<T>>, estimator: C, checker: G, max_nodes: nat)
    ensures
        spec_expansions(search, rules, estimator, checker, max_nodes).no_duplicates(),
        forall|h: u64|
            spec_expansions(search, rules, estimator, checker, max_nodes).contains(h)
                ==> !search.visited.contains(h),
    decreases max_nodes - search.explored,
{
    let (next, outcome) = spec_step(search, rules, estimator, checker, max_nodes);
    let all = spec_expansions(search, rules, estimator, checker, max_nodes);
    if outcome is Continue && search.explored < max_nodes && next.explored == search.explored + 1 {
        lemma_no_fingerprint_expanded_twice(next, rules, estimator, checker, max_nodes);
        let later = spec_expansions(next, rules, estimator, checker, max_nodes);
        let first = search.frontier[spec_min_index(
            search.frontier,
            search.frontier.len(),
        )].expr.spec_hash();
        if next.visited == search.visited {
        } else {
            assert(next.visited == search.visited.insert(first));
            assert(!search.visited.contains(first));
            assert(all == seq![first] + later);
            assert(next.visited.contains(first));
            assert forall|k: int| 1 <= k < all.len() implies #[trigger] all[k] == later[k - 1]
                && later.contains(all[k]) && !next.visited.contains(all[k]) by {
                assert(all[k] == later[k - 1]);
                assert(later.contains(later[k - 1]));
            }
            assert(all[0] == first);
            assert forall|h: u64| all.contains(h) implies !search.visited.contains(h) by {
                let k = choose|k: int| 0 <= k < all.len() && all[k] == h;
                if k > 0 {
                    assert(!next.visited.contains(all[k]));
                }
            }
            assert forall|i: int, j: int| 0 <= i < all.len() && 0 <= j < all.len() && i != j implies all[i]
                != all[j] by {
                if i > 0 && j > 0 {
                    assert(all[i] == later[i - 1]);
                    assert(all[j] == later[j - 1]);
                } else if i > 0 {
                    assert(!next.visited.contains(all[i]));
                } else {
                    assert(!next.visited.contains(all[j]));
                }
            }
        }
    }
}

/// A proof that the search finds within a budget it finds within every
/// larger budget: more budget never changes a conclusion.
pub proof fn lemma_budget_monotone<T: Rewritable, C: CostEstimator<T>, G: GoalChecker<T>>(
    search: SearchModel<T>,
    rules: Seq<RewriteRule<T>>,
    estimator: C,
    checker: G,
    smaller: nat,
    larger: nat,
)
    requires
        smaller <= larger,
        spec_run(search, rules, estimator, checker, smaller) is Some,
    ensures
        spec_run(search, rules, estimator, checker, larger) == spec_run(
            search,
            rules,
            estimator,
            checker,
            smaller,
        ),
    decreases smaller - search.explored,
{
    let (next, outcome) = spec_step(search, rules, estimator, checker, smaller);
    assert(spec_step(search, rules, estimator, checker, larger) == (next, outcome));
    if outcome is Continue {
        lemma_budget_monotone(next, rules, estimator, checker, smaller, larger);
    }
}

/// A conclusion that the search reaches within a budget took more
/// expansions than were counted before it, and is reached within every
/// budget that allows as many expansions as it took: a larger budget changes
/// the outcome only where the conclusion needs more than the smaller one.
pub proof fn lemma_budget_enough<T: Rewritable, C: CostEstimator<T>, G: GoalChecker<T>>(
    search: SearchModel<T>,
    rules: Seq<RewriteRule<T>>,
    estimator: C,
    checker: G,
    smaller: nat,
    larger: nat,
)
    requires
        spec_run(search, rules, estimator, checker, larger) is Some,
        spec_run(search, rules, estimator, checker, larger).unwrap().nodes_explored <= smaller,
    ensures
        spec_run(search, rules, estimator, checker, larger).unwrap().nodes_explored
            > search.explored,
        spec_run(search, rules, estimator, checker, smaller) == spec_run(
            search,
            rules,
            estimator,
            checker,
            larger,
        ),
    decreases larger - search.explored,
{
    let (next, outcome) = spec_step(search, rules, estimator, checker, larger);
    if outcome is Continue {
        lemma_budget_enough(next, rules, estimator, checker, smaller, larger);
    }
    assert(spec_step(search, rules, estimator, checker, smaller) == (next, outcome));
}

/// The search from the theorem alone.
pub open spec fn spec_prove<T: Rewritable, C: CostEstimator<T>, G: GoalChecker<T>>(
    initial: HashNode<T>,
    rules: Seq<RewriteRule<T>>,
    estimator: C,
    checker: G,
    max_nodes: nat,
) -> Option<ResultModel<T>> {
    spec_run(
        SearchModel {
            frontier: seq![
                StateModel {
                    expr: initial,
                    steps: Seq::empty(),
                    estimated_cost: estimator.spec_cost(None, initial),
                },
            ],
            visited: Set::empty(),
            explored: 0,
        },
        rules,
        estimator,
        checker,
        max_nodes,
    )
}

/// The steps of a list, shared.
pub fn copy_steps<T>(steps: &Vec<ProofStep<T>>) -> (copy: Vec<ProofStep<T>>)
    ensures
        step_models(copy@) == step_models(steps@),
{
    let mut copy: Vec<ProofStep<T>> = Vec::new();
    let mut i: usize = 0;
    while i < steps.len()
        invariant
            i <= steps.len(),
            copy@.len() == i,
            forall|k: int| 0 <= k < i ==> (#[trigger] copy@[k])@ == steps@[k]@,
        decreases steps.len() - i,
    {
        copy.push(steps[i].clone());
        i += 1;
    }
    proof {
        assert(step_models(copy@) =~= step_models(steps@));
    }
    copy
}

/// The frontier, the visited set and the count of a search in progress.
pub struct Search<T> {
    pub initial: HashNode<T>,
    pub frontier: Vec<ProofState<T>>,
    pub visited: HashSet<u64>,
    pub explored: usize,
}

impl<T> View for Search<T> {
    type V = SearchModel<T>;

    open spec fn view(&self) -> SearchModel<T> {
        SearchModel {
            frontier: state_models(self.frontier@),
            visited: self.visited@,
            explored: self.explored as nat,
        }
    }
}

impl<T: Rewritable> Search<T> {
    /// Every state of the frontier was derived from the theorem by the rules.
    pub open spec fn wf(&self, rules: Seq<RewriteRule<T>>) -> bool {
        Self::derived_from(self@.frontier, self.initial, rules)
    }

    /// Every state of `frontier` was derived from `initial` by the rules.
    pub open spec fn derived_from(
        frontier: Seq<StateModel<T>>,
        initial: HashNode<T>,
        rules: Seq<RewriteRule<T>>,
    ) -> bool {
        forall|k: int|
            0 <= k < frontier.len() ==> derivation(
                initial,
                (#[trigger] frontier[k]).steps,
                frontier[k].expr,
                rules,
            )
    }

    /// The search that has the theorem alone on its frontier.
    pub fn new(initial: &HashNode<T>, cost: u64) -> (search: Self)
        ensures
            search.initial == *initial,
            forall|rules: Seq<RewriteRule<T>>| search.wf(rules),
            search@ == (SearchModel {
                frontier: seq![
                    StateModel { expr: *initial, steps: Seq::empty(), estimated_cost: cost },
                ],
                visited: Set::empty(),
                explored: 0,
            }),
    {
        let mut frontier: Vec<ProofState<T>> = Vec::new();
        frontier.push(ProofState { expr: initial.clone(), steps: Vec::new(), estimated_cost: cost });
        let search = Search {
            initial: initial.clone(),
            frontier,
            visited: HashSet::new(),
            explored: 0,
        };
        proof {
            assert(step_models(Seq::<ProofStep<T>>::empty()) =~= Seq::empty());
            assert(search@.frontier =~= seq![
                StateModel { expr: *initial, steps: Seq::empty(), estimated_cost: cost },
            ]);
        }
        search
    }

    /// Takes the first state of least cost from the frontier.
    pub fn pop_min(&mut self) -> (state: ProofState<T>)
        requires
            old(self).frontier@.len() > 0,
        ensures
            state@ == old(self)@.frontier[spec_min_index(
                old(self)@.frontier,
                old(self)@.frontier.len(),
            )],
            final(self)@.frontier == old(self)@.frontier.remove(
                spec_min_index(old(self)@.frontier, old(self)@.frontier.len()),
            ),
            final(self).visited == old(self).visited,
            final(self).explored == old(self).explored,
            final(self).initial == old(self).initial,
    {
        let ghost models = self@.frontier;
        let mut best: usize = 0;
        let mut i: usize = 1;
        while i < self.frontier.len()
            invariant
                1 <= i <= self.frontier.len(),
                models == state_models(self.frontier@),
                best == spec_min_index(models, i as nat),
                best < i,
            decreases self.frontier.len() - i,
        {
            if self.frontier[i].estimated_cost < self.frontier[best].estimated_cost {
                best = i;
            }
            i += 1;
        }
        let state = self.frontier.remove(best);
        proof {
            assert(state_models(self.frontier@) =~= models.remove(best as int));
            assert(state@ == models[best as int]);
        }
        state
    }

    /// One step of the search.
    pub fn step<C: CostEstimator<T>, G: GoalChecker<T>>(
        &mut self,
        rules: &Vec<RewriteRule<T>>,
        store: &mut T::Storage,
        estimator: &C,
        checker: &G,
        max_nodes: usize,
    ) -> (outcome: StepOutcome<T>)
        requires
            old(self).wf(rules@),
        ensures
            (final(self)@, outcome@) == spec_step(
                old(self)@,
                rules@,
                *estimator,
                *checker,
                max_nodes as nat,
            ),
            final(self).wf(rules@),
            final(self).initial == old(self).initial,
            outcome matches StepOutcome::Proved(result) ==> derivation(
                old(self).initial,
                result@.steps,
                result@.final_expr,
                rules@,
            ),
            T::storage_extends(*old(store), *final(store)),
    {
        broadcast use vstd::std_specs::hash::group_hash_axioms;

        let ghost before = self@;
        let ghost initial = self.initial;
        let ghost start = *store;
        proof {
            T::lemma_storage_extends(start, start, start);
        }
        if self.frontier.len() == 0 || self.explored >= max_nodes {
            return StepOutcome::NoConclusion;
        }
        proof {
            lemma_min_index_in_range(before.frontier, before.frontier.len());
        }
        let state = self.pop_min();
        let ghost rest = self@.frontier;
        self.explored = self.explored + 1;
        proof {
            let index = spec_min_index(before.frontier, before.frontier.len());
            assert forall|k: int| 0 <= k < rest.len() implies derivation(
                initial,
                (#[trigger] rest[k]).steps,
                rest[k].expr,
                rules@,
            ) by {
                if k < index {
                    assert(rest[k] == before.frontier[k]);
                } else {
                    assert(rest[k] == before.frontier[k + 1]);
                }
            }
        }
        if let Some(truth) = checker.check(&state.expr) {
            return StepOutcome::Proved(
                ProofResult {
                    steps: state.steps,
                    nodes_explored: self.explored,
                    final_expr: state.expr,
                    truth_result: truth,
                },
            );
        }
        let key = state.expr.hash();
        if self.visited.contains(&key) {
            return StepOutcome::Continue;
        }
        self.visited.insert(key);
        let mut r: usize = 0;
        proof {
            assert(state_models(self.frontier@) =~= rest + spec_expand(
                state@,
                rules@,
                0,
                *estimator,
            ));
        }
        while r < rules.len()
            invariant
                r <= rules.len(),
                state_models(self.frontier@) == rest + spec_expand(
                    state@,
                    rules@,
                    r as nat,
                    *estimator,
                ),
                Self::derived_from(state_models(self.frontier@), initial, rules@),
                derivation(initial, state@.steps, state@.expr, rules@),
                self.visited@ == before.visited.insert(key),
                self.explored == before.explored + 1,
                self.initial == initial,
                T::storage_extends(start, *store),
            decreases rules.len() - r,
        {
            let ghost middle = *store;
            let ghost so_far = state_models(self.frontier@);
            let rewrites = rules[r].apply_recursive(&state.expr, store);
            proof {
                T::lemma_storage_extends(start, middle, *store);
            }
            let ghost wanted = spec_successors(state@, rules@[r as int], *estimator);
            let mut j: usize = 0;
            proof {
                assert(so_far =~= so_far + wanted.take(0));
            }
            while j < rewrites.len()
                invariant
                    j <= rewrites.len(),
                    r < rules.len(),
                    rewrites@ == rules@[r as int].spec_apply_recursive(state@.expr),
                    wanted == spec_successors(state@, rules@[r as int], *estimator),
                    state_models(self.frontier@) == so_far + wanted.take(j as int),
                    Self::derived_from(state_models(self.frontier@), initial, rules@),
                    derivation(initial, state@.steps, state@.expr, rules@),
                    self.visited@ == before.visited.insert(key),
                    self.explored == before.explored + 1,
                    self.initial == initial,
                decreases rewrites.len() - j,
            {
                let ghost frontier_before = state_models(self.frontier@);
                let mut steps = copy_steps(&state.steps);
                let ghost copied = step_models(steps@);
                steps.push(
                    ProofStep {
                        rule_name: rules[r].name.clone(),
                        old_expr: state.expr.clone(),
                        new_expr: rewrites[j].clone(),
                    },
                );
                let cost = estimator.estimate_cost(Some(&state), &rewrites[j]);
                let successor = ProofState { expr: rewrites[j].clone(), steps, estimated_cost: cost };
                proof {
                    let step = StepModel {
                        rule_name: rules@[r as int].name@,
                        old_expr: state@.expr,
                        new_expr: rewrites@[j as int],
                    };
                    assert(step_models(successor.steps@) =~= state@.steps.push(step));
                    assert(successor@ == wanted[j as int]);
                    assert(rules@[r as int].spec_apply_recursive(state@.expr).contains(
                        rewrites@[j as int],
                    ));
                    assert(step_justified(step, rules@));
                    lemma_derivation_extends(initial, state@.steps, state@.expr, rules@, step);
                }
                self.frontier.push(successor);
                proof {
                    assert(state_models(self.frontier@) =~= frontier_before.push(wanted[j as int]));
                    assert(state_models(self.frontier@) =~= so_far + wanted.take(j + 1));
                    assert forall|k: int|
                        0 <= k < state_models(self.frontier@).len() implies derivation(
                        initial,
                        (#[trigger] state_models(self.frontier@)[k]).steps,
                        state_models(self.frontier@)[k].expr,
                        rules@,
                    ) by {
                        if k < frontier_before.len() {
                            assert(state_models(self.frontier@)[k] == frontier_before[k]);
                        }
                    }
                }
                j += 1;
            }
            proof {
                assert(wanted.take(j as int) =~= wanted);
                assert(state_models(self.frontier@) =~= rest + spec_expand(
                    state@,
                    rules@,
                    (r + 1) as nat,
                    *estimator,
                ));
            }
            r += 1;
        }
        StepOutcome::Continue
    }
}

/// A prover: rules, stores, a budget, a cost estimator and a goal checker.
pub struct Prover<T: Rewritable, C: CostEstimator<T>, G: GoalChecker<T>> {
    pub rules: Vec<RewriteRule<T>>,
    pub store: T::Storage,
    pub max_nodes: usize,
    pub cost_estimator: C,
    pub goal_checker: G,
}

impl<T: Rewritable, C: CostEstimator<T>, G: GoalChecker<T>> Prover<T, C, G> {
    /// A prover without rules that takes at most `max_nodes` states from the frontier.
    pub fn new(max_nodes: usize, cost_estimator: C, goal_checker: G, store: T::Storage) -> (prover:
        Self)
        ensures
            prover.rules@ == Seq::<RewriteRule<T>>::empty(),
            prover.store == store,
            prover.max_nodes == max_nodes,
            prover.cost_estimator == cost_estimator,
            prover.goal_checker == goal_checker,
    {
        Prover { rules: Vec::new(), store, max_nodes, cost_estimator, goal_checker }
    }

    pub fn add_rule(&mut self, rule: RewriteRule<T>)
        ensures
            final(self).rules@ == old(self).rules@.push(rule),
            final(self).store == old(self).store,
            final(self).max_nodes == old(self).max_nodes,
            final(self).cost_estimator == old(self).cost_estimator,
            final(self).goal_checker == old(self).goal_checker,
    {
        self.rules.push(rule);
    }

    /// Searches for a chain of rewrite steps from `initial` to an expression
    /// that the goal checker recognises. `None` is the search without
    /// conclusion: the frontier ran empty or the budget was spent.
    pub fn prove(&mut self, initial: &HashNode<T>) -> (result: Option<ProofResult<T>>)
        ensures
            match result {
                Some(proof_found) => Some(proof_found@),
                None => None,
            } == spec_prove(
                *initial,
                old(self).rules@,
                old(self).cost_estimator,
                old(self).goal_checker,
                old(self).max_nodes as nat,
            ),
            result matches Some(proof_found) ==> {
                &&& 1 <= proof_found.nodes_explored <= old(self).max_nodes
                &&& old(self).goal_checker.spec_check(proof_found.final_expr) == Some(
                    proof_found.truth_result,
                )
                &&& derivation(
                    *initial,
                    proof_found@.steps,
                    proof_found.final_expr,
                    old(self).rules@,
                )
            },
            final(self).rules == old(self).rules,
            final(self).max_nodes == old(self).max_nodes,
            final(self).cost_estimator == old(self).cost_estimator,
            final(self).goal_checker == old(self).goal_checker,
            T::storage_extends(old(self).store, final(self).store),
    {
        let ghost start = self.store;
        let cost = self.cost_estimator.estimate_cost(None, initial);
        let mut search = Search::new(initial, cost);
        proof {
            T::lemma_storage_extends(start, start, start);
        }
        loop
            invariant
                search.wf(self.rules@),
                search.initial == *initial,
                spec_run(
                    search@,
                    self.rules@,
                    self.cost_estimator,
                    self.goal_checker,
                    self.max_nodes as nat,
                ) == spec_prove(
                    *initial,
                    old(self).rules@,
                    old(self).cost_estimator,
                    old(self).goal_checker,
                    old(self).max_nodes as nat,
                ),
                self.rules == old(self).rules,
                self.max_nodes == old(self).max_nodes,
                self.cost_estimator == old(self).cost_estimator,
                self.goal_checker == old(self).goal_checker,
                T::storage_extends(start, self.store),
                start == old(self).store,
            decreases self.max_nodes - search.explored,
        {
            let ghost middle = self.store;
            let outcome = search.step(
                &self.rules,
                &mut self.store,
                &self.cost_estimator,
                &self.goal_checker,
                self.max_nodes,
            );
            proof {
                T::lemma_storage_extends(start, middle, self.store);
            }
            match outcome {
                StepOutcome::Proved(proof_found) => {
                    return Some(proof_found);
                },
                StepOutcome::NoConclusion => {
                    return None;
                },
                StepOutcome::Continue => {},
            }
        }
    }
}

} // verus!
