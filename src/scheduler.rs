//! The scheduler's decisions: plan preparation, the optimiser's ranking, the
//! dependency-respecting rounds, and the handlers of the ten operations,
//! each split at the points where a tool is invoked.
use crate::context::{counters_grow, any_routable, route_cost, route_latency, same_state, same_totals, selected_for, spec_of, ExecutionContext, ExecutionError};
use crate::json::{field_views, member, Json, JsonView};
use crate::number::u64_text;
use crate::plan::{message_of, ids_unique, PlanValidationError, edges_of, node_fault, requires_tool, structurally_valid, Node, Plan};
use crate::table::find_entry;
use crate::text::{find_text, has_text, owned, str_eq};
use crate::tools::{cost_of, latency_of};
use crate::trace::Trace;
use vstd::prelude::*;

verus! {

pub struct Scheduler;

/// The most rounds a plan runs for.
pub const MAX_ROUNDS: usize = 100;

/// A plan's execution in progress: the nodes of the current round still to
/// run, the nodes left for later rounds, and the rounds completed.
pub struct PlanRun {
    pub current: Vec<usize>,
    pub remaining: Vec<usize>,
    pub rounds: usize,
    pub in_round: bool,
}

impl PlanRun {
    /// Every node index that the run holds names a node of `plan`.
    pub open spec fn well_formed(&self, plan: Plan) -> bool {
        &&& forall|k: int| 0 <= k < self.current@.len() ==> #[trigger] self.current@[k] < plan.nodes@.len()
        &&& forall|k: int| 0 <= k < self.remaining@.len() ==> #[trigger] self.remaining@[k] < plan.nodes@.len()
        &&& self.rounds <= MAX_ROUNDS
        &&& (self.in_round ==> self.rounds < MAX_ROUNDS)
    }
}

/// The optimiser's estimate for one node.
pub struct NodePriority {
    pub node_index: usize,
    /// In nano-dollars.
    pub estimated_cost: u64,
    pub estimated_latency: u64,
    pub selected_tool: Option<String>,
}

/// The nodes of one round: those to run now, and those left for later.
pub struct Round {
    pub executable: Vec<usize>,
    pub next: Vec<usize>,
}

/// The names of the registered tools.
pub open spec fn tool_names(ctx: ExecutionContext) -> Seq<String> {
    ctx.tool_urls@.map_values(|p: (String, String)| p.0)
}

/// What the optimiser estimates for a node: nothing for an operation that
/// invokes no tool; the declared cost and latency of its named tool, when
/// that has a spec; else those of the tool its capability routes to; else
/// the largest values, which sink it to the end.
pub open spec fn estimate_is(ctx: ExecutionContext, n: Node, cost: u64, latency: u64, tool: Option<String>) -> bool {
    if !requires_tool(n.op) {
        cost == 0 && latency == 0 && tool is None
    } else if n.tool is Some && spec_of(ctx, n.tool->0@) is Some {
        cost == cost_of(spec_of(ctx, n.tool->0@)->0) && latency == latency_of(spec_of(ctx, n.tool->0@)->0)
            && tool == n.tool
    } else if n.capability is Some && any_routable(ctx, n.capability->0@) {
        tool is Some && selected_for(ctx, n.capability->0@, tool->0@) && cost == route_cost(ctx, tool->0@)
            && latency == route_latency(ctx, tool->0@)
    } else {
        cost == u64::MAX && latency == u64::MAX && tool is None
    }
}

/// `a` is ranked before `b`: cheaper, then faster, then earlier in the plan.
pub open spec fn priority_before(a: NodePriority, b: NodePriority) -> bool {
    a.estimated_cost < b.estimated_cost || (a.estimated_cost == b.estimated_cost && (a.estimated_latency
        < b.estimated_latency || (a.estimated_latency == b.estimated_latency && a.node_index < b.node_index)))
}

/// The optimiser's data lists, in rank order, one entry per node naming it.
pub open spec fn lists_ranking(data: JsonView, plan: Plan, v: Seq<NodePriority>) -> bool {
    &&& member(data, "ordered_nodes"@) is Some
    &&& member(data, "ordered_nodes"@)->0 is Array
    &&& member(data, "ordered_nodes"@)->0->Array_0.len() == v.len()
    &&& forall|p: int| 0 <= p < v.len() ==> member(
        #[trigger] member(data, "ordered_nodes"@)->0->Array_0[p],
        "node"@,
    ) == Some(JsonView::Str(plan.nodes@[v[p].node_index as int].id@))
}

/// Node `i` is placed somewhere in the ranking.
pub open spec fn ranked(v: Seq<NodePriority>, i: int) -> bool {
    exists|p: int| 0 <= p < v.len() && #[trigger] v[p].node_index == i
}

/// Every edge into `id` starts at a completed node.
pub open spec fn dependencies_met(ctx: ExecutionContext, plan: Plan, id: Seq<char>) -> bool {
    forall|e: int|
        0 <= e < edges_of(plan).len() && (#[trigger] edges_of(plan)[e]).to@ == id ==> has_text(
            ctx.completed_nodes@,
            edges_of(plan)[e].from@,
        )
}

/// Node `i` can run this round.
pub open spec fn ready(ctx: ExecutionContext, plan: Plan, i: int) -> bool {
    &&& !has_text(ctx.completed_nodes@, plan.nodes@[i].id@)
    &&& !has_text(ctx.running_nodes@, plan.nodes@[i].id@)
    &&& dependencies_met(ctx, plan, plan.nodes@[i].id@)
}

/// The nodes of `rem`, in order, that can run this round.
pub open spec fn ready_of(ctx: ExecutionContext, plan: Plan, rem: Seq<usize>) -> Seq<usize>
    decreases rem.len(),
{
    if rem.len() == 0 {
        Seq::empty()
    } else if ready(ctx, plan, rem.last() as int) {
        ready_of(ctx, plan, rem.drop_last()).push(rem.last())
    } else {
        ready_of(ctx, plan, rem.drop_last())
    }
}

/// The nodes of `rem`, in order, that wait for a later round: not completed,
/// and running or with unmet dependencies.
pub open spec fn waiting_of(ctx: ExecutionContext, plan: Plan, rem: Seq<usize>) -> Seq<usize>
    decreases rem.len(),
{
    if rem.len() == 0 {
        Seq::empty()
    } else if !has_text(ctx.completed_nodes@, plan.nodes@[rem.last() as int].id@) && !ready(ctx, plan, rem.last() as int) {
        waiting_of(ctx, plan, rem.drop_last()).push(rem.last())
    } else {
        waiting_of(ctx, plan, rem.drop_last())
    }
}

proof fn lemma_ready_of_in_range(ctx: ExecutionContext, plan: Plan, rem: Seq<usize>)
    requires
        forall|k: int| 0 <= k < rem.len() ==> #[trigger] rem[k] < plan.nodes@.len(),
    ensures
        forall|k: int| 0 <= k < ready_of(ctx, plan, rem).len() ==> #[trigger] ready_of(ctx, plan, rem)[k] < plan.nodes@.len(),
    decreases rem.len(),
{
    if rem.len() > 0 {
        assert forall|k: int| 0 <= k < rem.drop_last().len() implies #[trigger] rem.drop_last()[k] < plan.nodes@.len() by {
            assert(rem.drop_last()[k] == rem[k]);
        }
        lemma_ready_of_in_range(ctx, plan, rem.drop_last());
        let prev = ready_of(ctx, plan, rem.drop_last());
        assert(rem.last() == rem[rem.len() - 1]);
        assert forall|k: int| 0 <= k < ready_of(ctx, plan, rem).len() implies #[trigger] ready_of(ctx, plan, rem)[k] < plan.nodes@.len() by {
            if k < prev.len() {
                assert(ready_of(ctx, plan, rem)[k] == prev[k]);
            }
        }
    }
}

proof fn lemma_waiting_of_in_range(ctx: ExecutionContext, plan: Plan, rem: Seq<usize>)
    requires
        forall|k: int| 0 <= k < rem.len() ==> #[trigger] rem[k] < plan.nodes@.len(),
    ensures
        forall|k: int| 0 <= k < waiting_of(ctx, plan, rem).len() ==> #[trigger] waiting_of(ctx, plan, rem)[k] < plan.nodes@.len(),
    decreases rem.len(),
{
    if rem.len() > 0 {
        assert forall|k: int| 0 <= k < rem.drop_last().len() implies #[trigger] rem.drop_last()[k] < plan.nodes@.len() by {
            assert(rem.drop_last()[k] == rem[k]);
        }
        lemma_waiting_of_in_range(ctx, plan, rem.drop_last());
        let prev = waiting_of(ctx, plan, rem.drop_last());
        assert(rem.last() == rem[rem.len() - 1]);
        assert forall|k: int| 0 <= k < waiting_of(ctx, plan, rem).len() implies #[trigger] waiting_of(ctx, plan, rem)[k] < plan.nodes@.len() by {
            if k < prev.len() {
                assert(waiting_of(ctx, plan, rem)[k] == prev[k]);
            }
        }
    }
}

fn dependencies_met_exec(ctx: &ExecutionContext, plan: &Plan, id: &String) -> (r: bool)
    ensures
        r == dependencies_met(*ctx, *plan, id@),
{
    match &plan.edges {
        Some(edges) => {
            let mut e: usize = 0;
            while e < edges.len()
                invariant
                    edges@ == edges_of(*plan),
                    e <= edges@.len(),
                    forall|j: int|
                        0 <= j < e && (#[trigger] edges@[j]).to@ == id@ ==> has_text(ctx.completed_nodes@, edges@[j].from@),
                decreases edges@.len() - e,
            {
                if str_eq(edges[e].to.as_str(), id.as_str()) && !find_text(&ctx.completed_nodes, edges[e].from.as_str()) {
                    return false;
                }
                e += 1;
            }
            true
        },
        None => true,
    }
}

impl Scheduler {
    /// Starts executing a prepared plan: ranks its nodes (see
    /// `optimized_node_order`) and makes them all pending.
    pub fn start_run(&self, ctx: &mut ExecutionContext, plan: &Plan) -> (r: PlanRun)
        ensures
            r.well_formed(*plan),
            r.rounds == 0 && !r.in_round && r.current@.len() == 0,
            r.remaining@.len() == plan.nodes@.len(),
            same_state(*old(ctx), *final(ctx)),
            same_totals(*old(ctx), *final(ctx)),
            final(ctx).trace_events@.drop_last() == old(ctx).trace_events@,
            final(ctx).trace_events@.last().event_type@ == "plan_optimizer"@,
    {
        let order = Scheduler::optimized_node_order(ctx, plan);
        let mut remaining: Vec<usize> = Vec::new();
        let mut i: usize = 0;
        while i < order.len()
            invariant
                i <= order@.len(),
                remaining@.len() == i,
                forall|p: int| 0 <= p < order@.len() ==> (#[trigger] order@[p]).node_index < plan.nodes@.len(),
                forall|k: int| 0 <= k < remaining@.len() ==> #[trigger] remaining@[k] < plan.nodes@.len(),
            decreases order@.len() - i,
        {
            remaining.push(order[i].node_index);
            i += 1;
        }
        PlanRun { current: Vec::new(), remaining, rounds: 0, in_round: false }
    }

    /// The next node to execute, marked as running; `None` once the plan is
    /// done, when no node is pending or `MAX_ROUNDS` rounds have run, after
    /// a final budget summary trace. Between rounds the budgets are checked,
    /// and a round with nothing to run fails as a cycle.
    pub fn next_node(ctx: &mut ExecutionContext, plan: &Plan, run: &mut PlanRun) -> (r: Result<Option<usize>, ExecutionError>)
        requires
            old(run).well_formed(*plan),
        ensures
            final(run).well_formed(*plan),
            counters_grow(*old(ctx), *final(ctx)),
            crate::context::log_extends(old(ctx).trace_events@, final(ctx).trace_events@),
            r matches Ok(Some(i)) ==> i < plan.nodes@.len() && has_text(final(ctx).running_nodes@, plan.nodes@[i as int].id@),
            r matches Ok(None) ==> crate::context::is_budget_summary(final(ctx).trace_events@.last(), *final(ctx)),
            r is Err ==> r->Err_0 is BudgetExceeded || r->Err_0 is ValidationError,
            old(run).current@.len() > 0 ==> r == Ok::<Option<usize>, ExecutionError>(Some(old(run).current@[0]))
                && final(run).current@ == old(run).current@.drop_first()
                && final(run).remaining@ == old(run).remaining@ && final(run).rounds == old(run).rounds,
            old(run).current@.len() == 0 && old(run).in_round && crate::context::overrun(*old(ctx))
                ==> r is Err && r->Err_0 is BudgetExceeded,
            old(run).current@.len() == 0 && !(old(run).in_round && crate::context::overrun(*old(ctx))) ==> {
                let rounds = old(run).rounds + if old(run).in_round { 1int } else { 0int };
                let ready = ready_of(*old(ctx), *plan, old(run).remaining@);
                if old(run).remaining@.len() == 0 || rounds >= MAX_ROUNDS {
                    r == Ok::<Option<usize>, ExecutionError>(None)
                } else {
                    &&& (r is Err <==> ready.len() == 0)
                    &&& r is Err ==> r->Err_0 == ExecutionError::ValidationError(r->Err_0->ValidationError_0)
                        && r->Err_0->ValidationError_0@ == "No executable nodes found - possible circular dependency"@
                    &&& r is Ok ==> r == Ok::<Option<usize>, ExecutionError>(Some(ready[0]))
                        && final(run).current@ == ready.drop_first()
                        && final(run).remaining@ == waiting_of(*old(ctx), *plan, old(run).remaining@)
                        && final(run).rounds == rounds
                }
            },
    {
        if run.current.len() == 0 {
            if run.in_round {
                run.in_round = false;
                run.rounds = run.rounds + 1;
                ctx.check_budget_overrun()?;
            }
            if run.remaining.len() == 0 || run.rounds >= MAX_ROUNDS {
                let ghost t0 = ctx.trace_events@;
                ctx.push_budget_summary_trace();
                proof {
                    assert forall|i: int| 0 <= i < t0.len() implies #[trigger] ctx.trace_events@[i] == t0[i] by {
                        assert(ctx.trace_events@.drop_last()[i] == t0[i]);
                    }
                }
                return Ok(None);
            }
            let round = Scheduler::next_round(ctx, plan, &run.remaining)?;
            proof {
                lemma_ready_of_in_range(*ctx, *plan, run.remaining@);
                lemma_waiting_of_in_range(*ctx, *plan, run.remaining@);
            }
            run.remaining = round.next;
            run.current = round.executable;
            run.in_round = true;
        }
        let ghost before = run.current@;
        let idx = run.current.remove(0);
        proof {
            assert(run.current@ =~= before.drop_first());
        }
        Scheduler::start_node_run(ctx, &plan.nodes[idx].id);
        Ok(Some(idx))
    }

    /// Records that node `idx` ran, with `result`: it is completed either
    /// way, and its failure ends the plan.
    pub fn node_done(ctx: &mut ExecutionContext, plan: &Plan, idx: usize, result: Result<(), ExecutionError>) -> (r: Result<(), ExecutionError>)
        requires
            idx < plan.nodes@.len(),
        ensures
            r == result,
            has_text(final(ctx).completed_nodes@, plan.nodes@[idx as int].id@),
            final(ctx).variables == old(ctx).variables,
            final(ctx).trace_events == old(ctx).trace_events,
            same_totals(*old(ctx), *final(ctx)),
    {
        Scheduler::finish_node_run(ctx, &plan.nodes[idx].id);
        result
    }

    /// Splits the pending nodes into those that run this round (not
    /// completed, not running, every dependency completed) and those that
    /// wait; completed nodes drop out. A round with nothing to run fails: the
    /// remaining nodes wait on each other.
    pub fn next_round(ctx: &ExecutionContext, plan: &Plan, remaining: &Vec<usize>) -> (r: Result<Round, ExecutionError>)
        requires
            forall|k: int| 0 <= k < remaining@.len() ==> #[trigger] remaining@[k] < plan.nodes@.len(),
        ensures
            r is Err <==> ready_of(*ctx, *plan, remaining@).len() == 0,
            r matches Err(e) ==> e is ValidationError && e->ValidationError_0@
                == "No executable nodes found - possible circular dependency"@,
            r matches Ok(round) ==> round.executable@ == ready_of(*ctx, *plan, remaining@)
                && round.next@ == waiting_of(*ctx, *plan, remaining@),
    {
        let mut executable: Vec<usize> = Vec::new();
        let mut next: Vec<usize> = Vec::new();
        let mut k: usize = 0;
        while k < remaining.len()
            invariant
                k <= remaining@.len(),
                forall|q: int| 0 <= q < remaining@.len() ==> #[trigger] remaining@[q] < plan.nodes@.len(),
                executable@ == ready_of(*ctx, *plan, remaining@.subrange(0, k as int)),
                next@ == waiting_of(*ctx, *plan, remaining@.subrange(0, k as int)),
            decreases remaining@.len() - k,
        {
            proof {
                assert(remaining@.subrange(0, k as int + 1).drop_last() =~= remaining@.subrange(0, k as int));
            }
            let idx = remaining[k];
            let node = &plan.nodes[idx];
            let completed = find_text(&ctx.completed_nodes, node.id.as_str());
            let running = find_text(&ctx.running_nodes, node.id.as_str());
            if !completed {
                if !running && dependencies_met_exec(ctx, plan, &node.id) {
                    executable.push(idx);
                } else {
                    next.push(idx);
                }
            }
            k += 1;
        }
        proof {
            assert(remaining@.subrange(0, remaining@.len() as int) =~= remaining@);
        }
        if executable.len() == 0 {
            return Err(ExecutionError::ValidationError(owned("No executable nodes found - possible circular dependency")));
        }
        Ok(Round { executable, next })
    }

    /// Marks node `id` as running.
    pub fn start_node_run(ctx: &mut ExecutionContext, id: &String)
        ensures
            has_text(final(ctx).running_nodes@, id@),
            final(ctx).completed_nodes == old(ctx).completed_nodes,
            final(ctx).variables == old(ctx).variables,
            final(ctx).tool_urls == old(ctx).tool_urls,
            final(ctx).tool_specs == old(ctx).tool_specs,
            final(ctx).capability_index == old(ctx).capability_index,
            final(ctx).signals == old(ctx).signals,
            final(ctx).trace_events == old(ctx).trace_events,
            same_totals(*old(ctx), *final(ctx)),
    {
        ctx.running_nodes.push(id.clone());
        assert(ctx.running_nodes@[ctx.running_nodes@.len() - 1]@ == id@);
    }

    /// Marks node `id` as completed and no longer running.
    pub fn finish_node_run(ctx: &mut ExecutionContext, id: &String)
        ensures
            has_text(final(ctx).completed_nodes@, id@),
            !has_text(final(ctx).running_nodes@, id@),
            forall|x: Seq<char>| has_text(old(ctx).completed_nodes@, x) ==> has_text(final(ctx).completed_nodes@, x),
            final(ctx).variables == old(ctx).variables,
            final(ctx).tool_urls == old(ctx).tool_urls,
            final(ctx).tool_specs == old(ctx).tool_specs,
            final(ctx).capability_index == old(ctx).capability_index,
            final(ctx).signals == old(ctx).signals,
            final(ctx).trace_events == old(ctx).trace_events,
            same_totals(*old(ctx), *final(ctx)),
    {
        let mut kept: Vec<String> = Vec::new();
        let mut i: usize = 0;
        while i < ctx.running_nodes.len()
            invariant
                i <= ctx.running_nodes@.len(),
                forall|j: int| 0 <= j < kept@.len() ==> (#[trigger] kept@[j])@ != id@,
            decreases ctx.running_nodes@.len() - i,
        {
            if !str_eq(ctx.running_nodes[i].as_str(), id.as_str()) {
                kept.push(ctx.running_nodes[i].clone());
            }
            i += 1;
        }
        ctx.running_nodes = kept;
        let ghost before = ctx.completed_nodes@;
        if !find_text(&ctx.completed_nodes, id.as_str()) {
            ctx.completed_nodes.push(id.clone());
            proof {
                assert(ctx.completed_nodes@[before.len() as int]@ == id@);
                assert forall|x: Seq<char>| has_text(before, x) implies has_text(ctx.completed_nodes@, x) by {
                    let j = choose|j: int| 0 <= j < before.len() && #[trigger] before[j]@ == x;
                    assert(ctx.completed_nodes@[j] == before[j]);
                }
            }
        }
    }

    /// Validates the plan (against the registered tools, when there are
    /// any) and adopts its signals when the context has none.
    pub fn prepare_plan(&self, ctx: &mut ExecutionContext, plan: &Plan) -> (r: Result<(), ExecutionError>)
        ensures
            old(ctx).tool_urls@.len() == 0 ==> (r is Ok <==> structurally_valid(*plan)),
            old(ctx).tool_urls@.len() > 0 ==> (r is Ok <==> (structurally_valid(*plan) && forall|i: int|
                0 <= i < plan.nodes@.len() ==> node_fault(#[trigger] plan.nodes@[i], tool_names(*old(ctx))) is None)),
            r is Err ==> r->Err_0 is ValidationError && *final(ctx) == *old(ctx)
                && exists|e: PlanValidationError| r->Err_0->ValidationError_0@ == message_of(e)
                    && (e is EmptyPlan <==> plan.nodes@.len() == 0)
                    && (e is DuplicateNodeId <==> (plan.nodes@.len() > 0 && !ids_unique(plan.nodes@)))
                    && (structurally_valid(*plan) ==> exists|i: int| 0 <= i < plan.nodes@.len()
                        && node_fault(plan.nodes@[i], tool_names(*old(ctx))) == Some(e)),
            r is Ok ==> final(ctx).signals == (if old(ctx).signals is None { plan.signals } else { old(ctx).signals }),
            final(ctx).variables == old(ctx).variables,
            final(ctx).tool_urls == old(ctx).tool_urls,
            final(ctx).tool_specs == old(ctx).tool_specs,
            final(ctx).capability_index == old(ctx).capability_index,
            final(ctx).trace_events == old(ctx).trace_events,
            final(ctx).completed_nodes == old(ctx).completed_nodes,
            final(ctx).running_nodes == old(ctx).running_nodes,
            same_totals(*old(ctx), *final(ctx)),
    {
        let checked = if ctx.tool_urls.len() == 0 {
            plan.validate()
        } else {
            let mut names: Vec<String> = Vec::new();
            let mut i: usize = 0;
            while i < ctx.tool_urls.len()
                invariant
                    i <= ctx.tool_urls@.len(),
                    names@.len() == i,
                    forall|j: int| 0 <= j < i ==> #[trigger] names@[j] == ctx.tool_urls@[j].0,
                decreases ctx.tool_urls@.len() - i,
            {
                names.push(ctx.tool_urls[i].0.clone());
                i += 1;
            }
            proof {
                assert(names@ =~= tool_names(*ctx));
            }
            plan.validate_with_tools(names.as_slice())
        };
        match checked {
            Err(e) => {
                let m = e.message();
                return Err(ExecutionError::ValidationError(m));
            },
            Ok(()) => {},
        }
        if ctx.signals.is_none() {
            ctx.signals = match &plan.signals {
                Some(s) => Some(*s),
                None => None,
            };
        }
        Ok(())
    }

    /// The optimiser's estimate for one node, as `estimate_is` says.
    pub fn estimate_node_cost(ctx: &ExecutionContext, node: &Node) -> (r: (u64, u64, Option<String>))
        ensures
            estimate_is(*ctx, *node, r.0, r.1, r.2),
    {
        if !crate::plan::operation_requires_tool(node.op) {
            return (0, 0, None);
        }
        if let Some(t) = &node.tool {
            if let Some(spec) = find_entry(&ctx.tool_specs, t.as_str()) {
                return (spec.cost(), spec.latency(), Some(t.clone()));
            }
        }
        if let Some(c) = &node.capability {
            if let Some(d) = ctx.select_tool_for_capability(c.as_str()) {
                if let Some(spec) = find_entry(&ctx.tool_specs, d.tool_name.as_str()) {
                    return (spec.cost(), spec.latency(), Some(d.tool_name));
                }
            }
        }
        (u64::MAX, u64::MAX, None)
    }

    /// Ranks the nodes by estimated cost, then latency, then plan order, and
    /// records the ranking in one `plan_optimizer` trace. The ranking is
    /// advisory: dependencies decide when a node runs.
    pub fn optimized_node_order(ctx: &mut ExecutionContext, plan: &Plan) -> (r: Vec<NodePriority>)
        ensures
            same_state(*old(ctx), *final(ctx)),
            same_totals(*old(ctx), *final(ctx)),
            final(ctx).trace_events@.len() == old(ctx).trace_events@.len() + 1,
            final(ctx).trace_events@.drop_last() == old(ctx).trace_events@,
            final(ctx).trace_events@.last().event_type@ == "plan_optimizer"@,
            final(ctx).trace_events@.last().data is Some && lists_ranking(final(ctx).trace_events@.last().data->0@, *plan, r@),
            r@.len() == plan.nodes@.len(),
            forall|p: int| 0 <= p < r@.len() ==> (#[trigger] r@[p]).node_index < plan.nodes@.len()
                && estimate_is(*old(ctx), plan.nodes@[r@[p].node_index as int], r@[p].estimated_cost,
                    r@[p].estimated_latency, r@[p].selected_tool),
            forall|i: int| 0 <= i < plan.nodes@.len() ==> ranked(r@, i),
            forall|a: int, b: int| 0 <= a < b < r@.len() ==> priority_before(r@[a], r@[b]),
    {
        let mut v: Vec<NodePriority> = Vec::new();
        let mut i: usize = 0;
        while i < plan.nodes.len()
            invariant
                i <= plan.nodes@.len(),
                v@.len() == i,
                forall|p: int| 0 <= p < v@.len() ==> (#[trigger] v@[p]).node_index < i
                    && estimate_is(*ctx, plan.nodes@[v@[p].node_index as int], v@[p].estimated_cost,
                        v@[p].estimated_latency, v@[p].selected_tool),
                forall|j: int| 0 <= j < i ==> ranked(v@, j),
                forall|a: int, b: int| 0 <= a < b < v@.len() ==> priority_before(v@[a], v@[b]),
            decreases plan.nodes@.len() - i,
        {
            let (cost, latency, tool) = Scheduler::estimate_node_cost(ctx, &plan.nodes[i]);
            let item = NodePriority { node_index: i, estimated_cost: cost, estimated_latency: latency, selected_tool: tool };
            let mut pos: usize = 0;
            while pos < v.len() && (v[pos].estimated_cost < cost || (v[pos].estimated_cost == cost
                && v[pos].estimated_latency <= latency))
                invariant
                    pos <= v@.len(),
                    item.node_index == i && item.estimated_cost == cost && item.estimated_latency == latency,
                    forall|p: int| 0 <= p < pos ==> priority_before(#[trigger] v@[p], item),
                    forall|p: int| 0 <= p < v@.len() ==> (#[trigger] v@[p]).node_index < i,
                    forall|a: int, b: int| 0 <= a < b < v@.len() ==> priority_before(v@[a], v@[b]),
                    forall|j: int| 0 <= j < i ==> ranked(v@, j),
                    forall|p: int| 0 <= p < v@.len() ==> estimate_is(*ctx, plan.nodes@[(#[trigger] v@[p]).node_index as int], v@[p].estimated_cost,
                        v@[p].estimated_latency, v@[p].selected_tool),
                    i < plan.nodes@.len(),
                    estimate_is(*ctx, plan.nodes@[i as int], cost, latency, item.selected_tool),
                decreases v@.len() - pos,
            {
                pos += 1;
            }
            let ghost before = v@;
            proof {
                assert forall|p: int| pos <= p < before.len() implies priority_before(item, #[trigger] before[p]) by {
                    if p > pos {
                        assert(priority_before(before[pos as int], before[p]));
                    }
                }
            }
            v.insert(pos, item);
            proof {
                assert forall|a: int, b: int| 0 <= a < b < v@.len() implies priority_before(v@[a], v@[b]) by {
                    if b < pos {
                        assert(v@[a] == before[a] && v@[b] == before[b]);
                    } else if b == pos {
                        assert(v@[a] == before[a]);
                    } else if a < pos {
                        assert(v@[a] == before[a] && v@[b] == before[b - 1]);
                        assert(priority_before(before[a], item));
                        assert(priority_before(item, before[b - 1]));
                    } else if a == pos {
                        assert(v@[b] == before[b - 1]);
                    } else {
                        assert(v@[a] == before[a - 1] && v@[b] == before[b - 1]);
                    }
                }
                assert forall|j: int| 0 <= j < i + 1 implies ranked(v@, j) by {
                    if j < i {
                        assert(ranked(before, j));
                        let p = choose|p: int| 0 <= p < before.len() && #[trigger] before[p].node_index == j;
                        if p < pos {
                            assert(v@[p] == before[p]);
                        } else {
                            assert(v@[p + 1] == before[p]);
                        }
                    } else {
                        assert(v@[pos as int].node_index == i);
                    }
                }
                assert forall|p: int| 0 <= p < v@.len() implies (#[trigger] v@[p]).node_index < i + 1
                    && estimate_is(*ctx, plan.nodes@[v@[p].node_index as int], v@[p].estimated_cost,
                        v@[p].estimated_latency, v@[p].selected_tool) by {
                    if p < pos {
                        assert(v@[p] == before[p]);
                    } else if p > pos {
                        assert(v@[p] == before[p - 1]);
                    }
                }
            }
            i += 1;
        }
        let mut listing: Vec<Json> = Vec::new();
        let mut k: usize = 0;
        while k < v.len()
            invariant
                k <= v@.len(),
                forall|p: int| 0 <= p < v@.len() ==> (#[trigger] v@[p]).node_index < plan.nodes@.len(),
                listing@.len() == k,
                forall|p: int| 0 <= p < k ==> member((#[trigger] listing@[p])@, "node"@) == Some(
                    JsonView::Str(plan.nodes@[v@[p].node_index as int].id@),
                ),
            decreases v@.len() - k,
        {
            let node = &plan.nodes[v[k].node_index];
            let mut fields: Vec<(String, Json)> = Vec::new();
            fields.push((owned("node"), Json::Str(node.id.clone())));
            fields.push((owned("capability"), match &node.capability {
                Some(c) => Json::Str(c.clone()),
                None => Json::Null,
            }));
            fields.push((owned("selected_tool"), match &v[k].selected_tool {
                Some(t) => Json::Str(t.clone()),
                None => Json::Null,
            }));
            fields.push((owned("estimated_cost_usd"), Json::Number(crate::number::scaled_to_text(v[k].estimated_cost, 9))));
            fields.push((owned("estimated_latency_ms"), Json::Number(u64_text(v[k].estimated_latency))));
            fields.push((owned("original_index"), Json::Number(u64_text(v[k].node_index as u64))));
            let entry = Json::Object(fields);
            proof {
                crate::json::lemma_members_view(fields@);
                crate::json::lemma_lookup_at(field_views(fields@), "node"@, 0);
            }
            listing.push(entry);
            k += 1;
        }
        let mut data: Vec<(String, Json)> = Vec::new();
        let ghost lv = crate::json::views(listing@);
        let listed = Json::Array(listing);
        proof {
            assert(lv =~= listed@->Array_0);
        }
        data.push((owned("ordered_nodes"), listed));
        let summary = Json::Object(data);
        proof {
            crate::json::lemma_members_view(data@);
            crate::json::lemma_lookup_at(field_views(data@), "ordered_nodes"@, 0);
        }
        let mut trace = Trace::new(owned("plan_optimizer"), owned("plan"), owned("Plan optimizer determined execution order"));
        trace.data = Some(summary);
        ctx.trace_events.push(trace);
        proof {
            assert(ctx.trace_events@.drop_last() =~= old(ctx).trace_events@);
        }
        v
    }
}

} // verus!
