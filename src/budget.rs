//! Budgets and the pre-flight constraint checker.
//!
//! Latencies are in milliseconds, costs in nano-dollars (see `plan::USD`),
//! risk in millionths.
use crate::json::{text_of, Json};
use crate::plan::{Plan, Signals, Node};
use crate::tools::{cost_of, find_spec, latency_of, spec_named, tokens_of, ToolSpec};
use vstd::prelude::*;

verus! {

#[derive(Clone, Copy, Debug, PartialEq, Eq, Structural)]
pub struct Budget {
    pub latency_remaining_ms: Option<u64>,
    pub cost_remaining_usd: Option<u64>,
    pub tokens_remaining: Option<u64>,
}

pub struct ConstraintChecker;

impl ConstraintError {
    /// The error's message.
    pub fn message(&self) -> String {
        match self {
            ConstraintError::LatencyBudgetExceeded { .. } => String::from_str("Latency budget exceeded"),
            ConstraintError::CostBudgetExceeded { .. } => String::from_str("Cost budget exceeded"),
            ConstraintError::InputTokensExceeded { .. } => String::from_str("Input tokens exceeded"),
            ConstraintError::InvalidRiskValue(_) => String::from_str("Invalid risk value, must be between 0.0 and 1.0"),
            ConstraintError::TokenEstimationError(m) => {
                let mut s = String::from_str("Token estimation error: ");
                s.append(m.as_str());
                s
            },
        }
    }
}

pub enum ConstraintError {
    LatencyBudgetExceeded { estimated: u128, budget: u64 },
    CostBudgetExceeded { estimated: u128, budget: u64 },
    InputTokensExceeded { required: u128, max: u64 },
    /// The risk signal lies outside 0 to 1_000_000.
    InvalidRiskValue(i64),
    TokenEstimationError(String),
}

/// What remains of `remaining` after spending `used`, clamped at zero.
pub open spec fn after_spend(remaining: Option<u64>, used: u64) -> Option<u64> {
    match remaining {
        Some(r) => Some(if r < used { 0 } else { (r - used) as u64 }),
        None => None,
    }
}

/// Spending `used` from `remaining` stays within it.
pub open spec fn spend_fits(remaining: Option<u64>, used: u64) -> bool {
    match remaining {
        Some(r) => used <= r,
        None => true,
    }
}

impl Budget {
    /// The budget that `signals` sets; no token budget.
    pub fn new(signals: Option<&Signals>) -> (r: Budget)
        ensures
            r.latency_remaining_ms == (match signals {
                Some(s) => s.latency_budget_ms,
                None => None,
            }),
            r.cost_remaining_usd == (match signals {
                Some(s) => s.cost_cap_usd,
                None => None,
            }),
            r.tokens_remaining is None,
    {
        match signals {
            Some(s) => Budget {
                latency_remaining_ms: s.latency_budget_ms,
                cost_remaining_usd: s.cost_cap_usd,
                tokens_remaining: None,
            },
            None => Budget { latency_remaining_ms: None, cost_remaining_usd: None, tokens_remaining: None },
        }
    }

    /// Whether no set budget is used up.
    pub fn has_remaining(&self) -> (r: bool)
        ensures
            r == (self.latency_remaining_ms != Some(0u64) && self.cost_remaining_usd != Some(0u64)
                && self.tokens_remaining != Some(0u64)),
    {
        if let Some(remaining) = self.latency_remaining_ms {
            if remaining == 0 {
                return false;
            }
        }
        if let Some(remaining) = self.cost_remaining_usd {
            if remaining == 0 {
                return false;
            }
        }
        if let Some(remaining) = self.tokens_remaining {
            if remaining == 0 {
                return false;
            }
        }
        true
    }

    /// Spends `used_ms` of latency; false, with the budget clamped to zero,
    /// when it does not fit.
    pub fn subtract_latency(&mut self, used_ms: u64) -> (r: bool)
        ensures
            r == spend_fits(old(self).latency_remaining_ms, used_ms),
            final(self).latency_remaining_ms == after_spend(old(self).latency_remaining_ms, used_ms),
            final(self).cost_remaining_usd == old(self).cost_remaining_usd,
            final(self).tokens_remaining == old(self).tokens_remaining,
    {
        match self.latency_remaining_ms {
            Some(remaining) => {
                if remaining < used_ms {
                    self.latency_remaining_ms = Some(0);
                    false
                } else {
                    self.latency_remaining_ms = Some(remaining - used_ms);
                    true
                }
            },
            None => true,
        }
    }

    /// Spends `used_usd` nano-dollars; false, with the budget clamped to
    /// zero, when it does not fit.
    pub fn subtract_cost(&mut self, used_usd: u64) -> (r: bool)
        ensures
            r == spend_fits(old(self).cost_remaining_usd, used_usd),
            final(self).cost_remaining_usd == after_spend(old(self).cost_remaining_usd, used_usd),
            final(self).latency_remaining_ms == old(self).latency_remaining_ms,
            final(self).tokens_remaining == old(self).tokens_remaining,
    {
        match self.cost_remaining_usd {
            Some(remaining) => {
                if remaining < used_usd {
                    self.cost_remaining_usd = Some(0);
                    false
                } else {
                    self.cost_remaining_usd = Some(remaining - used_usd);
                    true
                }
            },
            None => true,
        }
    }

    /// Spends `used_tokens`; false, with the budget clamped to zero, when it
    /// does not fit.
    pub fn subtract_tokens(&mut self, used_tokens: u64) -> (r: bool)
        ensures
            r == spend_fits(old(self).tokens_remaining, used_tokens),
            final(self).tokens_remaining == after_spend(old(self).tokens_remaining, used_tokens),
            final(self).latency_remaining_ms == old(self).latency_remaining_ms,
            final(self).cost_remaining_usd == old(self).cost_remaining_usd,
    {
        match self.tokens_remaining {
            Some(remaining) => {
                if remaining < used_tokens {
                    self.tokens_remaining = Some(0);
                    false
                } else {
                    self.tokens_remaining = Some(remaining - used_tokens);
                    true
                }
            },
            None => true,
        }
    }
}

/// The spec of the tool a node names, if it names one with a spec.
pub open spec fn node_spec(n: Node, specs: Seq<ToolSpec>) -> Option<ToolSpec> {
    match n.tool {
        Some(t) => spec_named(specs, t@),
        None => None,
    }
}

/// Estimated plan latency: the declared latencies of the nodes' tools.
pub open spec fn est_latency(nodes: Seq<Node>, specs: Seq<ToolSpec>) -> int
    decreases nodes.len(),
{
    if nodes.len() == 0 {
        0
    } else {
        est_latency(nodes.drop_last(), specs) + match node_spec(nodes.last(), specs) {
            Some(s) => latency_of(s) as int,
            None => 0,
        }
    }
}

/// Estimated plan cost: the declared costs of the nodes' tools.
pub open spec fn est_cost(nodes: Seq<Node>, specs: Seq<ToolSpec>) -> int
    decreases nodes.len(),
{
    if nodes.len() == 0 {
        0
    } else {
        est_cost(nodes.drop_last(), specs) + match node_spec(nodes.last(), specs) {
            Some(s) => cost_of(s) as int,
            None => 0,
        }
    }
}

pub open spec fn latency_over(p: Plan, specs: Seq<ToolSpec>) -> bool {
    match p.signals {
        Some(s) => match s.latency_budget_ms {
            Some(b) => est_latency(p.nodes@, specs) > b,
            None => false,
        },
        None => false,
    }
}

pub open spec fn cost_over(p: Plan, specs: Seq<ToolSpec>) -> bool {
    match p.signals {
        Some(s) => match s.cost_cap_usd {
            Some(b) => est_cost(p.nodes@, specs) > b,
            None => false,
        },
        None => false,
    }
}

pub open spec fn risk_invalid(p: Plan) -> bool {
    match p.signals {
        Some(s) => match s.risk {
            Some(r) => r < 0 || r > 1_000_000,
            None => false,
        },
        None => false,
    }
}

proof fn lemma_estimates_bounded(nodes: Seq<Node>, specs: Seq<ToolSpec>)
    ensures
        0 <= est_latency(nodes, specs) <= nodes.len() * 0xffff_ffff_ffff_ffff,
        0 <= est_cost(nodes, specs) <= nodes.len() * 0xffff_ffff_ffff_ffff,
    decreases nodes.len(),
{
    if nodes.len() > 0 {
        lemma_estimates_bounded(nodes.drop_last(), specs);
        assert((nodes.len() - 1) * 0xffff_ffff_ffff_ffff + 0xffff_ffff_ffff_ffff == nodes.len()
            * 0xffff_ffff_ffff_ffff) by (nonlinear_arith);
    }
}

/// The estimated token count of a value: its compact JSON text length over four.
pub open spec fn token_estimate(v: Json) -> int {
    text_of(v@).len() as int / 4
}

/// Estimates the tokens of a value at four characters per token.
pub fn estimate_token_count(value: &Json) -> (r: u64)
    ensures
        r == token_estimate(*value),
{
    let text = value.to_text();
    let n = text.as_str().unicode_len();
    (n / 4) as u64
}

impl ConstraintChecker {
    /// Pre-flight check: sums the declared latency and cost of every node's
    /// tool that has a spec in `tool_specs` and compares them with the plan's
    /// signals, then checks that the risk signal lies in range.
    pub fn check_plan_constraints(plan: &Plan, tool_specs: &[ToolSpec]) -> (r: Result<(), ConstraintError>)
        ensures
            r is Ok <==> !latency_over(*plan, tool_specs@) && !cost_over(*plan, tool_specs@)
                && !risk_invalid(*plan),
            (r is Err && r->Err_0 is LatencyBudgetExceeded) <==> latency_over(*plan, tool_specs@),
            (r is Err && r->Err_0 is CostBudgetExceeded) <==> (!latency_over(*plan, tool_specs@)
                && cost_over(*plan, tool_specs@)),
            (r is Err && r->Err_0 is InvalidRiskValue) <==> (!latency_over(*plan, tool_specs@)
                && !cost_over(*plan, tool_specs@) && risk_invalid(*plan)),
            r matches Err(ConstraintError::LatencyBudgetExceeded { estimated, .. }) ==> estimated
                == est_latency(plan.nodes@, tool_specs@),
            r matches Err(ConstraintError::CostBudgetExceeded { estimated, .. }) ==> estimated
                == est_cost(plan.nodes@, tool_specs@),
    {
        let mut est_cost_sum: u128 = 0;
        let mut est_latency_sum: u128 = 0;
        let mut i: usize = 0;
        while i < plan.nodes.len()
            invariant
                i <= plan.nodes@.len(),
                est_latency_sum == est_latency(plan.nodes@.subrange(0, i as int), tool_specs@),
                est_cost_sum == est_cost(plan.nodes@.subrange(0, i as int), tool_specs@),
            decreases plan.nodes@.len() - i,
        {
            proof {
                let next = plan.nodes@.subrange(0, i as int + 1);
                assert(next.drop_last() =~= plan.nodes@.subrange(0, i as int));
                lemma_estimates_bounded(next, tool_specs@);
                assert((i + 1) * 0xffff_ffff_ffff_ffff <= 0xffff_ffff_ffff_ffff * 0xffff_ffff_ffff_ffff)
                    by (nonlinear_arith)
                    requires
                        i < 0xffff_ffff_ffff_ffff,
                ;
            }
            let node = &plan.nodes[i];
            match &node.tool {
                Some(t) => match find_spec(tool_specs, t.as_str()) {
                    Some(spec) => {
                        est_latency_sum = est_latency_sum + spec.latency() as u128;
                        est_cost_sum = est_cost_sum + spec.cost() as u128;
                    },
                    None => {},
                },
                None => {},
            }
            i += 1;
        }
        proof {
            assert(plan.nodes@.subrange(0, plan.nodes@.len() as int) =~= plan.nodes@);
        }
        if let Some(signals) = &plan.signals {
            if let Some(budget_ms) = signals.latency_budget_ms {
                if est_latency_sum > budget_ms as u128 {
                    return Err(
                        ConstraintError::LatencyBudgetExceeded {
                            estimated: est_latency_sum,
                            budget: budget_ms,
                        },
                    );
                }
            }
            if let Some(budget_usd) = signals.cost_cap_usd {
                if est_cost_sum > budget_usd as u128 {
                    return Err(
                        ConstraintError::CostBudgetExceeded { estimated: est_cost_sum, budget: budget_usd },
                    );
                }
            }
            if let Some(risk) = signals.risk {
                if risk < 0 || risk > 1_000_000 {
                    return Err(ConstraintError::InvalidRiskValue(risk));
                }
            }
        }
        Ok(())
    }

    /// Checks the estimated token count of `args` against the tool's
    /// declared input token bound.
    pub fn check_tool_constraints(tool_spec: &ToolSpec, args: &Json) -> (r: Result<(), ConstraintError>)
        ensures
            r is Ok <==> (match tool_spec.constraints {
                Some(c) => match c.input_tokens_max {
                    Some(m) => token_estimate(*args) <= m,
                    None => true,
                },
                None => true,
            }),
            r matches Err(ConstraintError::InputTokensExceeded { required, max }) ==> required
                == token_estimate(*args) && max == tokens_of(*tool_spec),
    {
        if let Some(c) = &tool_spec.constraints {
            if let Some(max_tokens) = c.input_tokens_max {
                let count = estimate_token_count(args);
                if count > max_tokens as u64 {
                    return Err(
                        ConstraintError::InputTokensExceeded { required: count as u128, max: max_tokens as u64 },
                    );
                }
            }
        }
        Ok(())
    }

    /// The budget left after one call of the tool at its declared cost,
    /// latency and token bound; the first dimension that does not fit fails,
    /// in that order.
    pub fn estimate_remaining_budget(initial_budget: &Budget, tool_spec: &ToolSpec) -> (r: Result<Budget, ConstraintError>)
        ensures
            tool_spec.constraints is None ==> r == Ok::<Budget, ConstraintError>(*initial_budget),
            tool_spec.constraints is Some ==> (r is Ok <==> (spend_fits(initial_budget.cost_remaining_usd, cost_of(*tool_spec))
                && spend_fits(initial_budget.latency_remaining_ms, latency_of(*tool_spec))
                && spend_fits(initial_budget.tokens_remaining, tokens_of(*tool_spec)))),
            tool_spec.constraints is Some && r is Ok ==> r->Ok_0 == (Budget {
                latency_remaining_ms: after_spend(initial_budget.latency_remaining_ms, latency_of(*tool_spec)),
                cost_remaining_usd: after_spend(initial_budget.cost_remaining_usd, cost_of(*tool_spec)),
                tokens_remaining: after_spend(initial_budget.tokens_remaining, tokens_of(*tool_spec)),
            }),
            (r is Err && r->Err_0 is CostBudgetExceeded) <==> (tool_spec.constraints is Some
                && !spend_fits(initial_budget.cost_remaining_usd, cost_of(*tool_spec))),
    {
        let mut b = *initial_budget;
        if let Some(c) = &tool_spec.constraints {
            let cost = tool_spec.cost();
            if !b.subtract_cost(cost) {
                return Err(
                    ConstraintError::CostBudgetExceeded {
                        estimated: cost as u128,
                        budget: match initial_budget.cost_remaining_usd {
                            Some(v) => v,
                            None => 0,
                        },
                    },
                );
            }
            let latency = tool_spec.latency();
            if !b.subtract_latency(latency) {
                return Err(
                    ConstraintError::LatencyBudgetExceeded {
                        estimated: latency as u128,
                        budget: match initial_budget.latency_remaining_ms {
                            Some(v) => v,
                            None => 0,
                        },
                    },
                );
            }
            let tokens = tool_spec.tokens();
            if !b.subtract_tokens(tokens) {
                return Err(
                    ConstraintError::InputTokensExceeded {
                        required: tokens as u128,
                        max: match initial_budget.tokens_remaining {
                            Some(v) => v,
                            None => 0,
                        },
                    },
                );
            }
        }
        Ok(b)
    }
}

} // verus!
