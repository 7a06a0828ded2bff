//! The handlers of the ten operations. Those that invoke a tool are split at
//! the invocation: a `begin_*` step resolves the tool, the arguments and the
//! policy, and a `finish_*` step takes what the invocation produced.
use crate::context::{args_view, chosen_tool, policy_passes, tool_resolves, url_of, overrun, counters_grow, log_extends, same_state, same_totals, var_of, ExecutionContext, ExecutionError};
use crate::evidence::{EvidenceVerifier, Evidence};
use crate::json::{field_views, lookup, lookup_field, member, Json, JsonView};
use crate::number::u64_text;
use crate::plan::Node;
use crate::scheduler::Scheduler;
use crate::text::{owned, str_eq};
use crate::trace::Trace;
use vstd::prelude::*;

verus! {

/// What one tool invocation produced.
pub enum Outcome {
    /// The tool's result.
    Response(Json),
    /// The invocation failed, with the transport's or the tool's message.
    Failed(String),
    /// The invocation exceeded its time limit.
    TimedOut,
}

/// A tool invocation that a handler asks for.
pub struct Invocation {
    pub tool_name: String,
    pub tool_url: String,
    pub capability: Option<String>,
    pub args: Json,
}

/// What a retry handler asks for after an attempt.
pub enum RetryStep {
    /// The node is done.
    Done,
    /// Try again after waiting `wait_ms`; `attempts` have been made.
    Again { attempts: u32, wait_ms: u64 },
}

/// The number of attempts the retry operation makes.
pub const MAX_ATTEMPTS: u32 = 3;

/// The wait between retry attempts, in milliseconds.
pub const RETRY_WAIT_MS: u64 = 500;

/// The argument `key` of a node, unresolved.
pub open spec fn arg_of(n: Node, key: Seq<char>) -> Option<JsonView> {
    match n.args {
        Some(a) => lookup(field_views(a@), key),
        None => None,
    }
}

/// The node's arguments, as a sequence, when it has any.
pub open spec fn node_args(n: Node) -> Option<Seq<(String, Json)>> {
    match n.args {
        Some(a) => Some(a@),
        None => None,
    }
}

/// A node's invocation can start: its tool resolves and the tool's policy
/// lets `args` through.
pub open spec fn invocable(ctx: ExecutionContext, n: Node, args: JsonView) -> bool {
    tool_resolves(ctx, n) && policy_passes(ctx, chosen_tool(ctx, n), args)
}

/// `inv` invokes the tool that `n` resolves to, with `args`.
pub open spec fn invocation_of(ctx: ExecutionContext, n: Node, inv: Invocation, args: JsonView) -> bool {
    &&& inv.tool_name@ == chosen_tool(ctx, n)
    &&& url_of(ctx, inv.tool_name@) == Some(inv.tool_url)
    &&& inv.args@ == args
    &&& inv.capability == (if n.tool is Some { None } else { n.capability })
}

/// How a failed start is reported: an unresolvable tool as a validation
/// error, a blocked policy as a tool execution error.
pub open spec fn start_error(ctx: ExecutionContext, n: Node, args: JsonView, e: ExecutionError) -> bool {
    if !tool_resolves(ctx, n) {
        e is ValidationError
    } else {
        let pats = crate::context::deny_patterns(ctx, chosen_tool(ctx, n));
        &&& e is ToolExecutionError
        &&& exists|i: int|
            0 <= i < pats.len() && crate::context::blocks((#[trigger] pats[i])@, crate::context::args_text(Some(args)))
                && (forall|j: int| 0 <= j < i ==> !crate::context::blocks((#[trigger] pats[j])@, crate::context::args_text(Some(args))))
                && e->ToolExecutionError_0@ == crate::context::policy_message(chosen_tool(ctx, n), pats[i]@)
    }
}

/// Policy and argument views depend only on the specs, the URLs, the index
/// and the variables.
proof fn lemma_same_views(a: ExecutionContext, b: ExecutionContext, n: Node, args: JsonView)
    requires
        a.tool_specs == b.tool_specs,
        a.variables == b.variables,
        a.tool_urls == b.tool_urls,
        a.capability_index == b.capability_index,
        n.tool is Some || (n.capability is Some && exists|w: Seq<char>| crate::context::selected_for(a, n.capability->0@, w)),
    ensures
        crate::context::deny_patterns(a, chosen_tool(a, n)) == crate::context::deny_patterns(b, chosen_tool(b, n)),
        policy_passes(a, chosen_tool(a, n), args) == policy_passes(b, chosen_tool(b, n), args),
        args_view(a, node_args(n)) == args_view(b, node_args(n)),
        tool_resolves(a, n) == tool_resolves(b, n),
        chosen_tool(a, n) == chosen_tool(b, n),
{
    if n.tool is None {
        let c = n.capability->0@;
        let w = choose|w: Seq<char>| crate::context::selected_for(a, c, w);
        assert(crate::context::candidates(a, c) == crate::context::candidates(b, c));
        assert(crate::context::selected_for(b, c, w));
        let ca = chosen_tool(a, n);
        let cb = chosen_tool(b, n);
        crate::context::lemma_selection_unique(a, c, ca, w);
        crate::context::lemma_selection_unique(b, c, cb, w);
    }
    let name = chosen_tool(a, n);
    assert(crate::context::spec_of(a, name) == crate::context::spec_of(b, name));
    assert(crate::context::deny_patterns(a, name) == crate::context::deny_patterns(b, name));
}

/// The counters rose by what one invocation of tool `name` measured at
/// `latency_ms` is charged.
pub open spec fn charged(before: ExecutionContext, after: ExecutionContext, name: Seq<char>, latency_ms: u64) -> bool {
    &&& after.total_latency_ms == crate::context::sat_add(before.total_latency_ms,
        crate::context::charged_latency(latency_ms, crate::context::limits_for(before, name)))
    &&& after.total_cost_usd == crate::context::sat_add(before.total_cost_usd,
        crate::context::charged_cost(crate::context::limits_for(before, name)))
    &&& after.total_tokens == crate::context::sat_add(before.total_tokens,
        crate::context::charged_tokens(None, crate::context::limits_for(before, name)))
}

/// `k` is one of the node's output variable names.
pub open spec fn is_out_name(n: Node, k: Seq<char>) -> bool {
    exists|j: int| 0 <= j < out_names(n).len() && (#[trigger] out_names(n)[j]).0@ == k
}

/// What a verify step records for evidence `v`: the summary variables hold
/// `sj`, the summary JSON of its verification, and a trace at `t` carries it.
pub open spec fn summary_recorded(before: ExecutionContext, after: ExecutionContext, n: Node, v: JsonView) -> bool {
    exists|ev: Evidence, vr: crate::evidence::VerificationResult, sj: JsonView, t: int|
        crate::evidence_json::evidence_from(v, ev) && crate::evidence::verification_of(vr, ev)
        && crate::evidence_json::summary_json_facts(sj, vr)
        && (forall|i: int| 0 <= i < out_names(n).len() && !is_out_name(n, summary_name((#[trigger] out_names(n)[i]).0@))
            ==> var_of(after, summary_name(out_names(n)[i].0@)) == Some(sj))
        && before.trace_events@.len() <= t < after.trace_events@.len() && step_trace(after.trace_events@[t], "evidence_summary"@, n)
        && after.trace_events@[t].data is Some && after.trace_events@[t].data->0@ == sj
}

/// The output variable names of a node.
pub open spec fn out_names(n: Node) -> Seq<(String, String)> {
    match n.out {
        Some(o) => o@,
        None => Seq::empty(),
    }
}

/// Every output variable of `n` is bound to `v`.
pub open spec fn outputs_bound_to(ctx: ExecutionContext, n: Node, v: JsonView) -> bool {
    forall|i: int| 0 <= i < out_names(n).len() ==> var_of(ctx, (#[trigger] out_names(n)[i]).0@) == Some(v)
}

/// Every output variable of `n` is bound.
pub open spec fn outputs_exist(ctx: ExecutionContext, n: Node) -> bool {
    forall|i: int| 0 <= i < out_names(n).len() ==> var_of(ctx, (#[trigger] out_names(n)[i]).0@) is Some
}

/// `t` is a step trace of kind `event` for node `n`.
pub open spec fn step_trace(t: Trace, event: Seq<char>, n: Node) -> bool {
    t.event_type@ == event && t.step_id@ == n.id@
}

/// The JSON text of each value followed by a newline, concatenated.
pub open spec fn joined_lines(items: Seq<JsonView>) -> Seq<char>
    decreases items.len(),
{
    if items.len() == 0 {
        Seq::empty()
    } else {
        joined_lines(items.drop_last()) + crate::json::text_of(items.last()) + seq!['\n']
    }
}

/// The log is the old one with exactly one trace appended.
pub open spec fn appended_one(before: Seq<Trace>, after: Seq<Trace>) -> bool {
    after.len() == before.len() + 1 && after.drop_last() == before
}

pub fn node_arg<'a>(node: &'a Node, key: &str) -> (r: Option<&'a Json>)
    ensures
        r matches Some(v) ==> arg_of(*node, key@) == Some(v@),
        r is None ==> arg_of(*node, key@) is None,
{
    match &node.args {
        Some(a) => lookup_field(a, key),
        None => None,
    }
}

/// Binds every output variable of `node` to a copy of `value`.
pub fn bind_outputs(ctx: &mut ExecutionContext, node: &Node, value: &Json)
    ensures
        outputs_bound_to(*final(ctx), *node, value@),
        forall|k: Seq<char>|
            (forall|i: int| 0 <= i < out_names(*node).len() ==> (#[trigger] out_names(*node)[i]).0@ != k)
                ==> var_of(*final(ctx), k) == var_of(*old(ctx), k),
        final(ctx).trace_events == old(ctx).trace_events,
        final(ctx).tool_urls == old(ctx).tool_urls,
        final(ctx).tool_specs == old(ctx).tool_specs,
        final(ctx).signals == old(ctx).signals,
        same_totals(*old(ctx), *final(ctx)),
{
    let empty: Vec<(String, String)> = Vec::new();
    let outs: &Vec<(String, String)> = match &node.out {
        Some(o) => o,
        None => &empty,
    };
    assert(outs@ == out_names(*node));
    let mut i: usize = 0;
    while i < outs.len()
        invariant
            outs@ == out_names(*node),
            i <= outs@.len(),
            forall|j: int| 0 <= j < i ==> var_of(*ctx, (#[trigger] outs@[j]).0@) == Some(value@),
            forall|k: Seq<char>|
                (forall|j: int| 0 <= j < i ==> (#[trigger] outs@[j]).0@ != k) ==> var_of(*ctx, k) == var_of(*old(ctx), k),
            ctx.trace_events == old(ctx).trace_events,
            ctx.tool_urls == old(ctx).tool_urls,
            ctx.tool_specs == old(ctx).tool_specs,
            ctx.signals == old(ctx).signals,
            same_totals(*old(ctx), *ctx),
        decreases outs@.len() - i,
    {
        ctx.set_variable(outs[i].0.clone(), value.copy());
        i += 1;
    }
}

/// Appends a trace of kind `event` for `step_id`.
pub fn push_trace(
    ctx: &mut ExecutionContext,
    event: &str,
    step_id: &String,
    description: String,
    data: Option<Json>,
) -> (r: ())
    ensures
        appended_one(old(ctx).trace_events@, final(ctx).trace_events@),
        final(ctx).trace_events@.last().event_type@ == event@,
        final(ctx).trace_events@.last().step_id@ == step_id@,
        data is Some ==> final(ctx).trace_events@.last().data == data,
        same_state(*old(ctx), *final(ctx)),
        same_totals(*old(ctx), *final(ctx)),
{
    let mut trace = Trace::new(owned(event), step_id.clone(), description);
    if data.is_some() {
        trace.data = data;
    }
    ctx.trace_events.push(trace);
    assert(ctx.trace_events@.drop_last() =~= old(ctx).trace_events@);
}

fn message(head: &str, subject: &str, tail: &str) -> (r: String)
    ensures
        r@ == head@ + subject@ + tail@,
{
    let mut m = owned(head);
    m.append(subject);
    m.append(tail);
    m
}

/// The data of a step end: the tool, its capability, the latency charged,
/// and the running totals.
/// The data of a `step_end` trace names the tool and carries the totals.
pub open spec fn step_end_shows(d: JsonView, ctx: ExecutionContext, tool: Seq<char>) -> bool {
    &&& member(d, "tool"@) == Some(JsonView::Str(tool))
    &&& member(d, "total_latency_ms"@) == Some(JsonView::Number(crate::number::decimal_text(ctx.total_latency_ms as nat)))
    &&& member(d, "total_cost_usd"@) == Some(JsonView::Number(crate::number::scaled_text(ctx.total_cost_usd as nat, 9)))
    &&& member(d, "total_tokens"@) == Some(JsonView::Number(crate::number::decimal_text(ctx.total_tokens as nat)))
}

fn step_end_data(ctx: &ExecutionContext, inv: &Invocation, latency_ms: u64) -> (r: Json)
    ensures
        step_end_shows(r@, *ctx, inv.tool_name@),
{
    let mut fields: Vec<(String, Json)> = Vec::new();
    fields.push((owned("tool"), Json::Str(inv.tool_name.clone())));
    fields.push((owned("capability"), match &inv.capability {
        Some(c) => Json::Str(c.clone()),
        None => Json::Null,
    }));
    fields.push((owned("latency_ms"), Json::Number(u64_text(latency_ms))));
    fields.push((owned("total_latency_ms"), Json::Number(u64_text(ctx.total_latency_ms))));
    fields.push((owned("total_cost_usd"), Json::Number(crate::number::scaled_to_text(ctx.total_cost_usd, 9))));
    fields.push((owned("total_tokens"), Json::Number(u64_text(ctx.total_tokens))));
    proof {
        crate::json::lemma_members_view(fields@);
        let fv = field_views(fields@);
        reveal_strlit("tool");
        reveal_strlit("capability");
        reveal_strlit("latency_ms");
        reveal_strlit("total_latency_ms");
        reveal_strlit("total_cost_usd");
        reveal_strlit("total_tokens");
        assert(fv[0].0 == "tool"@ && fv[1].0 == "capability"@ && fv[2].0 == "latency_ms"@);
        assert(fv[3].0 == "total_latency_ms"@ && fv[4].0 == "total_cost_usd"@ && fv[5].0 == "total_tokens"@);
        assert("tool"@[2] == 'o' && "total_latency_ms"@[2] == 't' && "capability"@[0] == 'c' && "latency_ms"@[0] == 'l');
        assert("total_latency_ms"@[6] == 'l' && "total_cost_usd"@[6] == 'c' && "total_tokens"@[6] == 't');
        assert("tool"@.len() == 4);
        crate::json::lemma_lookup_at(fv, "tool"@, 0);
        crate::json::lemma_lookup_at(fv, "total_latency_ms"@, 3);
        crate::json::lemma_lookup_at(fv, "total_cost_usd"@, 4);
        crate::json::lemma_lookup_at(fv, "total_tokens"@, 5);
    }
    Json::Object(fields)
}

impl Scheduler {
    /// Starts a `call`: resolves the tool and the arguments, enforces the
    /// tool's policy, and appends the node's `step_start` trace.
    pub fn begin_call(&self, ctx: &mut ExecutionContext, node: &Node) -> (r: Result<Invocation, ExecutionError>)
        ensures
            same_state(*old(ctx), *final(ctx)),
            same_totals(*old(ctx), *final(ctx)),
            log_extends(old(ctx).trace_events@, final(ctx).trace_events@),
            r is Ok && node.tool is Some ==> r->Ok_0.tool_name@ == node.tool->0@,
            r is Ok && node.tool is None ==> node.capability is Some && crate::context::selected_for(
                *old(ctx),
                node.capability->0@,
                r->Ok_0.tool_name@,
            ),
            r matches Ok(inv) ==> crate::context::url_of(*old(ctx), inv.tool_name@) == Some(inv.tool_url),
            r matches Ok(inv) ==> inv.args@ is Object,
            r is Ok ==> step_trace(final(ctx).trace_events@.last(), "step_start"@, *node),
            r is Ok <==> invocable(*old(ctx), *node, args_view(*old(ctx), node_args(*node))),
            r is Ok ==> invocation_of(*old(ctx), *node, r->Ok_0, args_view(*old(ctx), node_args(*node))),
            r is Err ==> start_error(*old(ctx), *node, args_view(*old(ctx), node_args(*node)), r->Err_0),
    {
        let ghost ctx0 = *ctx;
        let resolution = ctx.resolve_tool(node)?;
        let ghost ctx1 = *ctx;
        proof {
            if node.tool is None {
                assert(crate::context::selected_for(ctx0, node.capability->0@, resolution.tool_name@));
            }
            lemma_same_views(ctx0, ctx1, *node, args_view(ctx0, node_args(*node)));
        }
        let args = ctx.resolve_args(match &node.args {
            Some(a) => Some(a),
            None => None,
        });
        let ghost mid = ctx.trace_events@;
        ctx.enforce_tool_policy(resolution.tool_name.as_str(), Some(&args))?;
        push_trace(ctx, "step_start", &node.id, message("Calling tool: ", resolution.tool_name.as_str(), ""), None);
        proof {
            assert forall|i: int| 0 <= i < old(ctx).trace_events@.len() implies #[trigger] ctx.trace_events@[i] == old(ctx).trace_events@[i] by {
                assert(ctx.trace_events@.drop_last()[i] == mid[i]);
            }
        }
        Ok(Invocation {
            tool_name: resolution.tool_name,
            tool_url: resolution.tool_url,
            capability: resolution.capability,
            args,
        })
    }

    /// Finishes a `call` with what its invocation produced: a time-out or a
    /// failure ends the node; a response is charged to the budget, bound to
    /// every output variable, and closed by the node's `step_end` trace.
    pub fn finish_call(
        &self,
        ctx: &mut ExecutionContext,
        node: &Node,
        inv: &Invocation,
        outcome: Outcome,
        latency_ms: u64,
    ) -> (r: Result<(), ExecutionError>)
        ensures
            counters_grow(*old(ctx), *final(ctx)),
            log_extends(old(ctx).trace_events@, final(ctx).trace_events@),
            outcome is TimedOut ==> r is Err && r->Err_0 is TimeoutError,
            outcome is Failed ==> r is Err && r->Err_0 is ToolExecutionError,
            outcome is Response ==> (r is Ok <==> !crate::context::overrun(*final(ctx))),
            r is Ok ==> outcome is Response && outputs_bound_to(*final(ctx), *node, outcome->Response_0@),
            r is Ok ==> step_trace(final(ctx).trace_events@.last(), "step_end"@, *node),
            r is Ok ==> final(ctx).trace_events@.len() > old(ctx).trace_events@.len(),
            outcome is Response ==> charged(*old(ctx), *final(ctx), inv.tool_name@, latency_ms),
            r is Err && r->Err_0 is BudgetExceeded ==> crate::context::budget_error(*final(ctx), r->Err_0),
            r is Ok ==> final(ctx).trace_events@.last().cost_usd == Some(crate::context::charged_cost(crate::context::limits_for(*old(ctx), inv.tool_name@)))
                && final(ctx).trace_events@.last().tokens_out == Some(crate::context::charged_tokens(None, crate::context::limits_for(*old(ctx), inv.tool_name@))),
            r is Ok ==> final(ctx).trace_events@.len() == old(ctx).trace_events@.len() + 1
                && final(ctx).trace_events@.last().data is Some
                && step_end_shows(final(ctx).trace_events@.last().data->0@, *final(ctx), inv.tool_name@),
    {
        let result = match outcome {
            Outcome::Response(v) => v,
            Outcome::Failed(m) => {
                return Err(ExecutionError::ToolExecutionError(m));
            },
            Outcome::TimedOut => {
                return Err(ExecutionError::TimeoutError(message("Tool call ", inv.tool_name.as_str(), " timed out")));
            },
        };
        let usage = ctx.record_usage_for(inv.tool_name.as_str(), latency_ms, None)?;
        let ghost mid = *ctx;
        bind_outputs(ctx, node, &result);
        let data = step_end_data(ctx, inv, usage.latency_ms);
        let ghost bound = *ctx;
        let mut trace = Trace::new(owned("step_end"), node.id.clone(), message("Tool ", usage.tool_name.as_str(), " call completed"));
        trace.cost_usd = Some(usage.cost_usd);
        trace.tokens_out = Some(usage.tokens);
        trace.data = Some(data);
        ctx.trace_events.push(trace);
        proof {
            assert forall|i: int| 0 <= i < old(ctx).trace_events@.len() implies #[trigger] ctx.trace_events@[i] == old(ctx).trace_events@[i] by {
                assert(ctx.trace_events@[i] == bound.trace_events@[i]);
            }
            assert forall|i: int| 0 <= i < out_names(*node).len() implies var_of(*ctx, (#[trigger] out_names(*node)[i]).0@) == Some(result@) by {
                assert(var_of(bound, out_names(*node)[i].0@) == Some(result@));
            }
        }
        Ok(())
    }
}

fn validation(m: &str) -> (r: ExecutionError)
    ensures
        r is ValidationError && r->ValidationError_0@ == m@,
{
    ExecutionError::ValidationError(owned(m))
}

/// Binds `{name}_summary` for every output variable `name` of `node`.
fn bind_summaries(ctx: &mut ExecutionContext, node: &Node, value: &Json)
    ensures
        forall|i: int| 0 <= i < out_names(*node).len() ==> var_of(*final(ctx), summary_name((#[trigger] out_names(*node)[i]).0@)) == Some(value@),
        final(ctx).trace_events == old(ctx).trace_events,
        final(ctx).tool_urls == old(ctx).tool_urls,
        final(ctx).tool_specs == old(ctx).tool_specs,
        final(ctx).signals == old(ctx).signals,
        same_totals(*old(ctx), *final(ctx)),
{
    let empty: Vec<(String, String)> = Vec::new();
    let outs: &Vec<(String, String)> = match &node.out {
        Some(o) => o,
        None => &empty,
    };
    assert(outs@ == out_names(*node));
    let mut i: usize = 0;
    while i < outs.len()
        invariant
            outs@ == out_names(*node),
            i <= outs@.len(),
            forall|j: int| 0 <= j < i ==> var_of(*ctx, summary_name((#[trigger] outs@[j]).0@)) == Some(value@),
            ctx.trace_events == old(ctx).trace_events,
            ctx.tool_urls == old(ctx).tool_urls,
            ctx.tool_specs == old(ctx).tool_specs,
            ctx.signals == old(ctx).signals,
            same_totals(*old(ctx), *ctx),
        decreases outs@.len() - i,
    {
        let mut name = outs[i].0.clone();
        name.append("_summary");
        proof {
            reveal_strlit("_summary");
        }
        assert(name@ == summary_name(outs@[i as int].0@));
        ctx.set_variable(name, value.copy());
        i += 1;
    }
}

/// The variable that holds the evidence summary of output `name`.
pub open spec fn summary_name(name: Seq<char>) -> Seq<char> {
    name + "_summary"@
}

/// The string elements of a list of values, in order.
pub open spec fn string_items_view(items: Seq<JsonView>) -> Seq<JsonView>
    decreases items.len(),
{
    if items.len() == 0 {
        Seq::empty()
    } else if items.last() is Str {
        string_items_view(items.drop_last()).push(items.last())
    } else {
        string_items_view(items.drop_last())
    }
}

/// The claims and sources of a verify node resolve to arrays.
pub open spec fn verify_ready(ctx: ExecutionContext, n: Node) -> bool {
    let vars = field_views(ctx.variables@);
    &&& arg_of(n, "claims"@) is Some && crate::resolve::resolved(vars, arg_of(n, "claims"@)->0) is Array
    &&& arg_of(n, "sources"@) is Some && crate::resolve::resolved(vars, arg_of(n, "sources"@)->0) is Array
}

/// The arguments a verify node sends: `{claims: the string claims, sources}`.
pub open spec fn verify_args(ctx: ExecutionContext, n: Node) -> JsonView {
    let vars = field_views(ctx.variables@);
    JsonView::Object(
        seq![
            ("claims"@, JsonView::Array(string_items_view(crate::resolve::resolved(vars, arg_of(n, "claims"@)->0)->Array_0))),
            ("sources"@, crate::resolve::resolved(vars, arg_of(n, "sources"@)->0)),
        ],
    )
}

fn string_items(items: &Vec<Json>) -> (r: Vec<Json>)
    ensures
        crate::json::views(r@) == string_items_view(crate::json::views(items@)),
{
    let mut out: Vec<Json> = Vec::new();
    let mut i: usize = 0;
    while i < items.len()
        invariant
            i <= items@.len(),
            crate::json::views(out@) == string_items_view(crate::json::views(items@).subrange(0, i as int)),
        decreases items@.len() - i,
    {
        proof {
            assert(crate::json::views(items@).subrange(0, i as int + 1).drop_last() =~= crate::json::views(items@).subrange(0, i as int));
        }
        let ghost before = out@;
        if let Json::Str(s) = &items[i] {
            out.push(Json::Str(s.clone()));
            proof {
                assert(crate::json::views(out@) =~= crate::json::views(before).push(items@[i as int]@));
            }
        }
        i += 1;
    }
    proof {
        assert(crate::json::views(items@).subrange(0, items@.len() as int) =~= crate::json::views(items@));
    }
    out
}

impl Scheduler {
    /// Starts a `verify`: requires `claims` and `sources` that resolve to
    /// arrays, resolves the tool, enforces its policy on
    /// `{claims, sources}`, and appends the node's `step_start` trace.
    pub fn begin_verify(&self, ctx: &mut ExecutionContext, node: &Node) -> (r: Result<Invocation, ExecutionError>)
        ensures
            same_state(*old(ctx), *final(ctx)),
            same_totals(*old(ctx), *final(ctx)),
            log_extends(old(ctx).trace_events@, final(ctx).trace_events@),
            arg_of(*node, "claims"@) is None ==> r is Err,
            arg_of(*node, "sources"@) is None ==> r is Err,
            r is Ok <==> verify_ready(*old(ctx), *node) && invocable(*old(ctx), *node, verify_args(*old(ctx), *node)),
            r is Ok ==> invocation_of(*old(ctx), *node, r->Ok_0, verify_args(*old(ctx), *node)),
            r is Err && !verify_ready(*old(ctx), *node) ==> r->Err_0 is ValidationError,
            r is Err && verify_ready(*old(ctx), *node) ==> start_error(*old(ctx), *node, verify_args(*old(ctx), *node), r->Err_0),
            r is Ok && node.tool is Some ==> r->Ok_0.tool_name@ == node.tool->0@,
            r is Ok && node.tool is None ==> node.capability is Some && crate::context::selected_for(
                *old(ctx),
                node.capability->0@,
                r->Ok_0.tool_name@,
            ),
            r matches Ok(inv) ==> crate::context::url_of(*old(ctx), inv.tool_name@) == Some(inv.tool_url),
            r is Ok ==> step_trace(final(ctx).trace_events@.last(), "step_start"@, *node),
    {
        let claims_value = match node_arg(node, "claims") {
            Some(v) => ctx.resolve_value(v),
            None => {
                return Err(validation("Verify operation requires a 'claims' argument"));
            },
        };
        let claims = match &claims_value {
            Json::Array(items) => {
                proof {
                    assert(crate::json::views(items@) =~= claims_value@->Array_0);
                }
                string_items(items)
            },
            _ => {
                return Err(validation("Verify claims must resolve to an array"));
            },
        };
        let sources_value = match node_arg(node, "sources") {
            Some(v) => ctx.resolve_value(v),
            None => {
                return Err(validation("Verify operation requires a 'sources' argument"));
            },
        };
        if !matches!(sources_value, Json::Array(_)) {
            return Err(validation("Verify sources must resolve to an array"));
        }
        let ghost ctx0 = *ctx;
        let resolution = ctx.resolve_tool(node)?;
        let ghost ctx1 = *ctx;
        let mut fields: Vec<(String, Json)> = Vec::new();
        let claims_json = Json::Array(claims);
        proof {
            assert(crate::json::views(claims@) =~= claims_json@->Array_0);
        }
        fields.push((owned("claims"), claims_json));
        fields.push((owned("sources"), sources_value));
        let args = Json::Object(fields);
        proof {
            crate::json::lemma_members_view(fields@);
            assert(field_views(fields@) =~= verify_args(ctx0, *node)->Object_0);
            if node.tool is None {
                assert(crate::context::selected_for(ctx0, node.capability->0@, resolution.tool_name@));
            }
            lemma_same_views(ctx0, ctx1, *node, args@);
        }
        let ghost mid = ctx.trace_events@;
        ctx.enforce_tool_policy(resolution.tool_name.as_str(), Some(&args))?;
        push_trace(ctx, "step_start", &node.id, owned("Verification step start"), None);
        proof {
            assert forall|i: int| 0 <= i < old(ctx).trace_events@.len() implies #[trigger] ctx.trace_events@[i] == old(ctx).trace_events@[i] by {
                assert(ctx.trace_events@.drop_last()[i] == mid[i]);
            }
        }
        Ok(Invocation {
            tool_name: resolution.tool_name,
            tool_url: resolution.tool_url,
            capability: resolution.capability,
            args,
        })
    }

    /// Finishes a `verify`: the response is charged to the budget; when it
    /// reads as evidence, its verification summary is bound to
    /// `{name}_summary` and recorded in an `evidence_summary` trace; the raw
    /// response is bound to every output variable; a `step_end` trace closes
    /// the node.
    pub fn finish_verify(
        &self,
        ctx: &mut ExecutionContext,
        node: &Node,
        inv: &Invocation,
        outcome: Outcome,
        latency_ms: u64,
    ) -> (r: Result<(), ExecutionError>)
        ensures
            counters_grow(*old(ctx), *final(ctx)),
            log_extends(old(ctx).trace_events@, final(ctx).trace_events@),
            outcome is TimedOut ==> r is Err && r->Err_0 is TimeoutError,
            outcome is Failed ==> r is Err && r->Err_0 is ToolExecutionError,
            outcome is Response ==> (r is Ok <==> !crate::context::overrun(*final(ctx))),
            r is Ok ==> outcome is Response && outputs_bound_to(*final(ctx), *node, outcome->Response_0@),
            r is Ok ==> step_trace(final(ctx).trace_events@.last(), "step_end"@, *node),
            r is Ok ==> final(ctx).trace_events@.len() > old(ctx).trace_events@.len(),
            r is Ok && crate::evidence_json::evidence_shape(outcome->Response_0@) ==> summary_recorded(*old(ctx), *final(ctx), *node, outcome->Response_0@),
            outcome is Response ==> charged(*old(ctx), *final(ctx), inv.tool_name@, latency_ms),
            r is Err && r->Err_0 is BudgetExceeded ==> crate::context::budget_error(*final(ctx), r->Err_0),
            r is Ok ==> final(ctx).trace_events@.last().cost_usd == Some(crate::context::charged_cost(crate::context::limits_for(*old(ctx), inv.tool_name@))),
    {
        let result = match outcome {
            Outcome::Response(v) => v,
            Outcome::Failed(m) => {
                return Err(ExecutionError::ToolExecutionError(message("Verification failed: ", m.as_str(), "")));
            },
            Outcome::TimedOut => {
                return Err(ExecutionError::TimeoutError(owned("Verification tool call timed out")));
            },
        };
        let usage = ctx.record_usage_for(inv.tool_name.as_str(), latency_ms, None)?;
        let ghost t1 = ctx.trace_events@;
        let ghost mut rec: (Evidence, crate::evidence::VerificationResult, JsonView) = arbitrary();
        if let Some(evidence) = Evidence::from_json(&result) {
            let summary = EvidenceVerifier.verify_evidence(&evidence);
            let summary_json = summary.to_json();
            proof {
                rec = (evidence, summary, summary_json@);
            }
            bind_summaries(ctx, node, &summary_json);
            push_trace(ctx, "evidence_summary", &node.id, message("Verification summary for ", node.id.as_str(), ""), Some(summary_json));
        }
        let ghost t2 = ctx.trace_events@;
        let ghost before_bind = *ctx;
        bind_outputs(ctx, node, &result);
        let ghost bound = *ctx;
        let data = step_end_data(ctx, inv, usage.latency_ms);
        let mut trace = Trace::new(owned("step_end"), node.id.clone(), owned("Verification step complete"));
        trace.cost_usd = Some(usage.cost_usd);
        trace.tokens_out = Some(usage.tokens);
        trace.data = Some(data);
        ctx.trace_events.push(trace);
        proof {
            assert forall|i: int| 0 <= i < old(ctx).trace_events@.len() implies #[trigger] ctx.trace_events@[i] == old(ctx).trace_events@[i] by {
                assert(ctx.trace_events@[i] == t2[i]);
                assert(t2[i] == t1[i]);
            }
            assert forall|i: int| 0 <= i < out_names(*node).len() implies var_of(*ctx, (#[trigger] out_names(*node)[i]).0@) == Some(result@) by {
                assert(var_of(bound, out_names(*node)[i].0@) == Some(result@));
            }
            assert(ctx.variables == bound.variables);
            if crate::evidence_json::evidence_shape(result@) {
                let sj = rec.2;
                assert forall|i: int| 0 <= i < out_names(*node).len() && !is_out_name(*node, summary_name((#[trigger] out_names(*node)[i]).0@))
                    implies var_of(*ctx, summary_name(out_names(*node)[i].0@)) == Some(sj) by {
                    let k = summary_name(out_names(*node)[i].0@);
                    assert(var_of(before_bind, k) == Some(sj));
                    assert forall|j: int| 0 <= j < out_names(*node).len() implies (#[trigger] out_names(*node)[j]).0@ != k by {
                        if out_names(*node)[j].0@ == k {
                            assert(is_out_name(*node, k));
                        }
                    }
                }
                let t = t2.len() - 1;
                assert(ctx.trace_events@[t] == t2[t]);
                assert(summary_recorded(*old(ctx), *ctx, *node, result@));
            }
        }
        Ok(())
    }

    /// Starts a `retry`: resolves the tool and the arguments and enforces
    /// the tool's policy.
    pub fn begin_retry(&self, ctx: &mut ExecutionContext, node: &Node) -> (r: Result<Invocation, ExecutionError>)
        ensures
            same_state(*old(ctx), *final(ctx)),
            same_totals(*old(ctx), *final(ctx)),
            log_extends(old(ctx).trace_events@, final(ctx).trace_events@),
            r is Ok && node.tool is Some ==> r->Ok_0.tool_name@ == node.tool->0@,
            r is Ok && node.tool is None ==> node.capability is Some && crate::context::selected_for(
                *old(ctx),
                node.capability->0@,
                r->Ok_0.tool_name@,
            ),
            r matches Ok(inv) ==> crate::context::url_of(*old(ctx), inv.tool_name@) == Some(inv.tool_url),
            r matches Ok(inv) ==> inv.args@ is Object,
            r is Ok <==> invocable(*old(ctx), *node, args_view(*old(ctx), node_args(*node))),
            r is Ok ==> invocation_of(*old(ctx), *node, r->Ok_0, args_view(*old(ctx), node_args(*node))),
            r is Err ==> start_error(*old(ctx), *node, args_view(*old(ctx), node_args(*node)), r->Err_0),
    {
        let ghost ctx0 = *ctx;
        let resolution = ctx.resolve_tool(node)?;
        let ghost ctx1 = *ctx;
        proof {
            if node.tool is None {
                assert(crate::context::selected_for(ctx0, node.capability->0@, resolution.tool_name@));
            }
            lemma_same_views(ctx0, ctx1, *node, args_view(ctx0, node_args(*node)));
        }
        let args = ctx.resolve_args(match &node.args {
            Some(a) => Some(a),
            None => None,
        });
        let ghost mid = ctx.trace_events@;
        ctx.enforce_tool_policy(resolution.tool_name.as_str(), Some(&args))?;
        Ok(Invocation {
            tool_name: resolution.tool_name,
            tool_url: resolution.tool_url,
            capability: resolution.capability,
            args,
        })
    }

    /// One attempt of a `retry`, made after `attempts` earlier ones. Every
    /// attempt is charged to the budget. A response is bound to every output
    /// variable; a failure or time-out asks for another attempt after
    /// `RETRY_WAIT_MS`, until `MAX_ATTEMPTS` have been made.
    pub fn retry_attempt(
        &self,
        ctx: &mut ExecutionContext,
        node: &Node,
        inv: &Invocation,
        attempts: u32,
        outcome: Outcome,
        latency_ms: u64,
    ) -> (r: Result<RetryStep, ExecutionError>)
        requires
            attempts < MAX_ATTEMPTS,
        ensures
            counters_grow(*old(ctx), *final(ctx)),
            log_extends(old(ctx).trace_events@, final(ctx).trace_events@),
            r matches Ok(RetryStep::Done) ==> outcome is Response && outputs_bound_to(*final(ctx), *node, outcome->Response_0@),
            r matches Ok(RetryStep::Again { attempts: a, wait_ms }) ==> !(outcome is Response) && a == attempts + 1
                && a < MAX_ATTEMPTS && wait_ms == RETRY_WAIT_MS,
            !(outcome is Response) && attempts + 1 >= MAX_ATTEMPTS ==> r is Err,
            r is Err && outcome is Failed && !(r->Err_0 is BudgetExceeded) ==> r->Err_0 is ToolExecutionError,
            r is Err && outcome is TimedOut && !(r->Err_0 is BudgetExceeded) ==> r->Err_0 is TimeoutError,
            final(ctx).total_latency_ms == crate::context::sat_add(old(ctx).total_latency_ms,
                crate::context::charged_latency(latency_ms, crate::context::limits_for(*old(ctx), inv.tool_name@))),
            final(ctx).total_cost_usd == crate::context::sat_add(old(ctx).total_cost_usd,
                crate::context::charged_cost(crate::context::limits_for(*old(ctx), inv.tool_name@))),
            final(ctx).total_tokens == crate::context::sat_add(old(ctx).total_tokens,
                crate::context::charged_tokens(None, crate::context::limits_for(*old(ctx), inv.tool_name@))),
            r is Err <==> (overrun(*final(ctx)) || (!(outcome is Response) && attempts + 1 >= MAX_ATTEMPTS)),
            outcome is Response && r is Ok ==> r->Ok_0 is Done,
            r is Err && r->Err_0 is BudgetExceeded ==> crate::context::budget_error(*final(ctx), r->Err_0),
    {
        let ghost t0 = ctx.trace_events@;
        ctx.record_usage_for(inv.tool_name.as_str(), latency_ms, None)?;
        match outcome {
            Outcome::Response(v) => {
                bind_outputs(ctx, node, &v);
                Ok(RetryStep::Done)
            },
            Outcome::Failed(m) => {
                if attempts + 1 >= MAX_ATTEMPTS {
                    Err(ExecutionError::ToolExecutionError(m))
                } else {
                    Ok(RetryStep::Again { attempts: attempts + 1, wait_ms: RETRY_WAIT_MS })
                }
            },
            Outcome::TimedOut => {
                if attempts + 1 >= MAX_ATTEMPTS {
                    Err(ExecutionError::TimeoutError(message("Tool call ", inv.tool_name.as_str(), " timed out after 3 attempts")))
                } else {
                    Ok(RetryStep::Again { attempts: attempts + 1, wait_ms: RETRY_WAIT_MS })
                }
            },
        }
    }

    /// `branch` is reserved for conditional edges: it always succeeds.
    pub fn execute_branch(&self, ctx: &mut ExecutionContext, node: &Node) -> (r: Result<(), ExecutionError>)
        ensures
            r is Ok,
            *final(ctx) == *old(ctx),
    {
        Ok(())
    }

    /// `spawn` is a placeholder: it always succeeds.
    pub fn execute_spawn(&self, ctx: &mut ExecutionContext, node: &Node) -> (r: Result<(), ExecutionError>)
        ensures
            r is Ok,
            *final(ctx) == *old(ctx),
    {
        Ok(())
    }

    /// `reduce`: the `collection` argument must resolve to an array; the
    /// JSON text of each element followed by a newline, concatenated, is
    /// bound to every output variable. No tool is invoked.
    pub fn execute_reduce(&self, ctx: &mut ExecutionContext, node: &Node) -> (r: Result<(), ExecutionError>)
        ensures
            counters_grow(*old(ctx), *final(ctx)),
            final(ctx).trace_events == old(ctx).trace_events,
            arg_of(*node, "collection"@) is None ==> r is Err && r->Err_0 is ValidationError,
            r is Ok ==> outputs_exist(*final(ctx), *node),
            r is Ok ==> exists|items: Seq<JsonView>| #![auto] crate::resolve::resolved(field_views(old(ctx).variables@), arg_of(*node, "collection"@)->0) == JsonView::Array(items)
                && outputs_bound_to(*final(ctx), *node, JsonView::Str(joined_lines(items))),
            arg_of(*node, "collection"@) is Some && crate::resolve::resolved(field_views(old(ctx).variables@),
                arg_of(*node, "collection"@)->0) is Array ==> r is Ok,
            same_totals(*old(ctx), *final(ctx)),
    {
        let value = match node_arg(node, "collection") {
            Some(v) => ctx.resolve_value(v),
            None => {
                return Err(validation("Reduce operation requires a 'collection' argument"));
            },
        };
        let items = match &value {
            Json::Array(items) => items,
            _ => {
                return Err(validation("Reduce operation requires an array input"));
            },
        };
        let ghost iv = crate::json::views(items@);
        assert(value@ == JsonView::Array(iv)) by {
            assert(iv =~= value@->Array_0);
        }
        let mut text = String::new();
        let mut i: usize = 0;
        while i < items.len()
            invariant
                i <= items@.len(),
                iv == crate::json::views(items@),
                text@ == joined_lines(iv.subrange(0, i as int)),
            decreases items@.len() - i,
        {
            items[i].write_text(&mut text);
            crate::text::push_char(&mut text, '\n');
            proof {
                assert(iv.subrange(0, i as int + 1).drop_last() =~= iv.subrange(0, i as int));
            }
            i += 1;
        }
        proof {
            assert(iv.subrange(0, items@.len() as int) =~= iv);
        }
        let joined = Json::Str(text);
        bind_outputs(ctx, node, &joined);
        proof {
            assert forall|i: int| 0 <= i < out_names(*node).len() implies var_of(*ctx, (#[trigger] out_names(*node)[i]).0@) is Some by {}
        }
        Ok(())
    }
}

/// A `map` in progress: the tool, the items, and the results so far.
pub struct MapRun {
    pub tool_name: String,
    pub tool_url: String,
    pub items: Vec<Json>,
    pub results: Vec<Json>,
}

/// A `mem.read` or `mem.write` request to the memory tool.
pub struct MemoryCall {
    pub tool_name: String,
    pub tool_url: String,
    pub key: String,
    pub body: Json,
    /// The evidence summary of a write, recorded once the write succeeds.
    pub evidence_summary: Option<Json>,
}

fn index_number(i: usize) -> (r: Json)
    ensures
        r@ == JsonView::Number(crate::number::decimal_text(i as nat)),
{
    Json::Number(u64_text(i as u64))
}

impl Scheduler {
    /// Starts a `map`: resolves the tool, and requires a `collection`
    /// argument that resolves to an array.
    pub fn begin_map(&self, ctx: &mut ExecutionContext, node: &Node) -> (r: Result<MapRun, ExecutionError>)
        ensures
            same_state(*old(ctx), *final(ctx)),
            same_totals(*old(ctx), *final(ctx)),
            log_extends(old(ctx).trace_events@, final(ctx).trace_events@),
            r matches Ok(run) ==> run.results@.len() == 0,
            r is Ok <==> tool_resolves(*old(ctx), *node) && arg_of(*node, "collection"@) is Some
                && crate::resolve::resolved(field_views(old(ctx).variables@), arg_of(*node, "collection"@)->0) is Array,
            r matches Ok(run) ==> run.tool_name@ == chosen_tool(*old(ctx), *node) && url_of(*old(ctx), run.tool_name@) == Some(run.tool_url)
                && JsonView::Array(crate::json::views(run.items@)) == crate::resolve::resolved(
                    field_views(old(ctx).variables@), arg_of(*node, "collection"@)->0),
            r is Err ==> r->Err_0 is ValidationError,
            (tool_resolves(*old(ctx), *node) && arg_of(*node, "collection"@) is Some
                && !(crate::resolve::resolved(field_views(old(ctx).variables@), arg_of(*node, "collection"@)->0) is Array))
                ==> r is Err && r->Err_0 == ExecutionError::ValidationError(r->Err_0->ValidationError_0)
                && r->Err_0->ValidationError_0@ == "Map operation requires an array input"@,
    {
        let resolution = ctx.resolve_tool(node)?;
        let value = match node_arg(node, "collection") {
            Some(v) => ctx.resolve_value(v),
            None => {
                return Err(validation("Map operation requires a 'collection' argument"));
            },
        };
        let ghost vv = value@;
        let items = match value {
            Json::Array(items) => {
                proof {
                    assert(crate::json::views(items@) =~= vv->Array_0);
                }
                items
            },
            _ => {
                return Err(validation("Map operation requires an array input"));
            },
        };
        Ok(MapRun { tool_name: resolution.tool_name, tool_url: resolution.tool_url, items, results: Vec::new() })
    }

    /// The arguments of item `index` of a `map`: the node's arguments with
    /// `item` and `index` set, resolved, and checked against the tool's policy.
    pub fn map_item_args(&self, ctx: &mut ExecutionContext, node: &Node, run: &MapRun, index: usize) -> (r: Result<Json, ExecutionError>)
        requires
            index < run.items@.len(),
        ensures
            same_state(*old(ctx), *final(ctx)),
            same_totals(*old(ctx), *final(ctx)),
            log_extends(old(ctx).trace_events@, final(ctx).trace_events@),
            r matches Ok(a) ==> a@ is Object,
            exists|a: JsonView| item_args(*old(ctx), *node, *run, index as int, a)
                && (r is Ok <==> policy_passes(*old(ctx), run.tool_name@, a))
                && (r is Ok ==> r->Ok_0@ == a),
            r is Err ==> r->Err_0 is ToolExecutionError,
    {
        let mut args: Vec<(String, Json)> = match &node.args {
            Some(a) => {
                let mut copy: Vec<(String, Json)> = Vec::new();
                let mut i: usize = 0;
                while i < a.len()
                    invariant
                        i <= a@.len(),
                        copy@.len() == i,
                        forall|j: int| 0 <= j < i ==> (#[trigger] copy@[j]).0@ == a@[j].0@ && copy@[j].1@ == a@[j].1@,
                    decreases a@.len() - i,
                {
                    copy.push((a[i].0.clone(), a[i].1.copy()));
                    i += 1;
                }
                proof {
                    assert(field_views(copy@) =~= field_views(a@));
                }
                copy
            },
            None => Vec::new(),
        };
        let ghost base = field_views(args@);
        assert(forall|k: Seq<char>| lookup(base, k) == arg_of(*node, k)) by {
            if node.args is None {
                assert forall|k: Seq<char>| lookup(base, k) == arg_of(*node, k) by {
                    assert(base.len() == 0);
                }
            }
        }
        crate::json::set_field(&mut args, owned("item"), run.items[index].copy());
        crate::json::set_field(&mut args, owned("index"), index_number(index));
        let resolved = ctx.resolve_args(Some(&args));
        proof {
            reveal_strlit("item");
            reveal_strlit("index");
            assert("item"@ != "index"@) by {
                assert("item"@.len() != "index"@.len());
            }
            let vars = field_views(old(ctx).variables@);
            let f = field_views(args@);
            crate::json::lemma_members_view(args@);
            assert(resolved@->Object_0 =~= resolved_fields(vars, f));
            assert forall|k: Seq<char>| #![auto] lookup(resolved@->Object_0, k) == (match lookup(f, k) {
                Some(v) => Some(crate::resolve::resolved(vars, v)),
                None => None,
            }) by {
                lemma_lookup_resolved(vars, f, k);
            }
            assert(item_args(*old(ctx), *node, *run, index as int, resolved@));
        }
        ctx.enforce_tool_policy(run.tool_name.as_str(), Some(&resolved))?;
        Ok(resolved)
    }

    /// Takes what the invocation for item `index` produced: a time-out or a
    /// failure ends the node; a response is charged and kept, in item order.
    pub fn finish_map_item(
        &self,
        ctx: &mut ExecutionContext,
        run: &mut MapRun,
        index: usize,
        outcome: Outcome,
        latency_ms: u64,
    ) -> (r: Result<(), ExecutionError>)
        ensures
            counters_grow(*old(ctx), *final(ctx)),
            log_extends(old(ctx).trace_events@, final(ctx).trace_events@),
            final(run).items == old(run).items,
            r is Ok ==> outcome is Response && final(run).results@.len() == old(run).results@.len() + 1
                && final(run).results@.drop_last() == old(run).results@
                && final(run).results@.last()@ == outcome->Response_0@,
            outcome is TimedOut ==> r is Err && r->Err_0 is TimeoutError,
            outcome is Failed ==> r is Err && r->Err_0 is ToolExecutionError,
            outcome is Response ==> (r is Ok <==> !overrun(*final(ctx))),
            outcome is Response ==> final(ctx).total_cost_usd == crate::context::sat_add(old(ctx).total_cost_usd,
                crate::context::charged_cost(crate::context::limits_for(*old(ctx), old(run).tool_name@))),
            outcome is Response ==> charged(*old(ctx), *final(ctx), old(run).tool_name@, latency_ms),
            r is Err && r->Err_0 is BudgetExceeded ==> crate::context::budget_error(*final(ctx), r->Err_0),
    {
        let result = match outcome {
            Outcome::Response(v) => v,
            Outcome::Failed(m) => {
                return Err(ExecutionError::ToolExecutionError(m));
            },
            Outcome::TimedOut => {
                let mut m = owned("Map operation item ");
                m.append(u64_text(index as u64).as_str());
                m.append(" timed out");
                return Err(ExecutionError::TimeoutError(m));
            },
        };
        ctx.record_usage_for(run.tool_name.as_str(), latency_ms, None)?;
        run.results.push(result);
        proof {
            assert(run.results@.drop_last() =~= old(run).results@);
        }
        Ok(())
    }

    /// Finishes a `map`: the results, in item order, are bound as an array
    /// to every output variable.
    pub fn finish_map(&self, ctx: &mut ExecutionContext, node: &Node, run: MapRun) -> (r: Result<(), ExecutionError>)
        ensures
            r is Ok,
            counters_grow(*old(ctx), *final(ctx)),
            final(ctx).trace_events == old(ctx).trace_events,
            outputs_bound_to(*final(ctx), *node, JsonView::Array(crate::json::views(run.results@))),
    {
        let results = Json::Array(run.results);
        proof {
            assert(crate::json::views(run.results@) =~= results@->Array_0);
        }
        bind_outputs(ctx, node, &results);
        Ok(())
    }

    /// The evidence text of an `assert` or `mem.write` node: its `evidence`
    /// argument, when it resolves to a string. `assert` also requires a
    /// string `condition`.
    pub fn evidence_text(&self, ctx: &ExecutionContext, node: &Node) -> (r: Option<String>)
        ensures
            r matches Some(t) ==> arg_of(*node, "evidence"@) is Some && crate::resolve::resolved(
                field_views(ctx.variables@),
                arg_of(*node, "evidence"@)->0,
            ) == JsonView::Str(t@),
    {
        match node_arg(node, "evidence") {
            Some(v) => match ctx.resolve_value(v) {
                Json::Str(t) => Some(t),
                _ => None,
            },
            None => None,
        }
    }

    /// Finishes an `assert`. `evidence` is the evidence text parsed as JSON,
    /// when the node carries evidence text. Evidence must read as evidence
    /// and be admissible for storage at 0.8; its summary is recorded in an
    /// `evidence_summary` trace. The condition holds only when it is the
    /// literal `true`.
    pub fn execute_assert(
        &self,
        ctx: &mut ExecutionContext,
        node: &Node,
        evidence: Option<Result<Json, String>>,
    ) -> (r: Result<(), ExecutionError>)
        ensures
            same_state(*old(ctx), *final(ctx)),
            same_totals(*old(ctx), *final(ctx)),
            log_extends(old(ctx).trace_events@, final(ctx).trace_events@),
            r is Err ==> r->Err_0 is ValidationError,
            r is Ok ==> arg_of(*node, "condition"@) == Some(JsonView::Str("true"@)),
            arg_of(*node, "condition"@) == Some(JsonView::Str("true"@)) && evidence is None ==> r is Ok,
            !(arg_of(*node, "condition"@) matches Some(JsonView::Str(_))) ==> r is Err,
            evidence matches Some(Err(_)) ==> r is Err,
            (evidence is Some && evidence->0 is Ok && !crate::evidence_json::evidence_shape(evidence->0->Ok_0@)) ==> r is Err,
            (r is Ok && evidence is Some && evidence->0 is Ok) ==> exists|ev: Evidence| crate::evidence_json::evidence_from(evidence->0->Ok_0@, ev)
                && crate::evidence::storable(ev, crate::evidence::MIN_STORAGE_CONFIDENCE),
            (arg_of(*node, "condition"@) is Some && arg_of(*node, "condition"@)->0 is Str
                && arg_of(*node, "condition"@)->0->Str_0 != "true"@ && evidence is None)
                ==> r is Err && r->Err_0 == ExecutionError::ValidationError(r->Err_0->ValidationError_0)
                && r->Err_0->ValidationError_0@ == "Assertion failed: "@ + arg_of(*node, "condition"@)->0->Str_0,
            evidence is None ==> *final(ctx) == *old(ctx),
            (r is Ok && evidence is Some && evidence->0 is Ok) ==> exists|ev: Evidence, vr: crate::evidence::VerificationResult|
                crate::evidence_json::evidence_from(evidence->0->Ok_0@, ev) && crate::evidence::verification_of(vr, ev)
                && final(ctx).trace_events@.len() == old(ctx).trace_events@.len() + 1
                && step_trace(final(ctx).trace_events@.last(), "evidence_summary"@, *node)
                && final(ctx).trace_events@.last().data is Some
                && crate::evidence_json::summary_json_facts(final(ctx).trace_events@.last().data->0@, vr),
            (arg_of(*node, "condition"@) == Some(JsonView::Str("true"@)) && evidence is Some && evidence->0 is Ok
                && crate::evidence_json::evidence_shape(evidence->0->Ok_0@)
                && forall|ev: Evidence| crate::evidence_json::evidence_from(evidence->0->Ok_0@, ev)
                    ==> #[trigger] crate::evidence::storable(ev, crate::evidence::MIN_STORAGE_CONFIDENCE)) ==> r is Ok,
    {
        let condition = match node_arg(node, "condition") {
            Some(Json::Str(c)) => c,
            _ => {
                return Err(validation("Assert operation requires a 'condition' argument"));
            },
        };
        match evidence {
            Some(Err(e)) => {
                return Err(ExecutionError::ValidationError(message("Invalid evidence format: ", e.as_str(), "")));
            },
            Some(Ok(j)) => {
                let ev = match Evidence::from_json(&j) {
                    Some(ev) => ev,
                    None => {
                        return Err(validation("Invalid evidence format: not an evidence object"));
                    },
                };
                let summary = EvidenceVerifier.verify_evidence(&ev);
                match EvidenceVerifier.validate_evidence_for_storage(&ev, crate::evidence::MIN_STORAGE_CONFIDENCE) {
                    Err(e) => {
                        return Err(ExecutionError::ValidationError(e.message()));
                    },
                    Ok(()) => {},
                }
                let ghost t0 = ctx.trace_events@;
                let summary_json = summary.to_json();
                push_trace(ctx, "evidence_summary", &node.id, message("Assertion evidence summary for ", node.id.as_str(), ""), Some(summary_json));
                proof {
                    assert forall|i: int| 0 <= i < t0.len() implies #[trigger] ctx.trace_events@[i] == t0[i] by {
                        assert(ctx.trace_events@.drop_last()[i] == t0[i]);
                    }
                    assert(crate::evidence_json::summary_json_facts(ctx.trace_events@.last().data->0@, summary));
                }
            },
            None => {},
        }
        if str_eq(condition.as_str(), "true") {
            Ok(())
        } else {
            proof {
                reveal_strlit("");
                assert(condition@ + ""@ =~= condition@);
            }
            Err(ExecutionError::ValidationError(message("Assertion failed: ", condition.as_str(), "")))
        }
    }
}

/// Members with their values resolved.
pub open spec fn resolved_fields(vars: Seq<(Seq<char>, JsonView)>, f: Seq<(Seq<char>, JsonView)>) -> Seq<(Seq<char>, JsonView)> {
    Seq::new(f.len(), |j: int| (f[j].0, crate::resolve::resolved(vars, f[j].1)))
}

/// Looking a member up after resolving is resolving what the lookup finds.
proof fn lemma_lookup_resolved(vars: Seq<(Seq<char>, JsonView)>, f: Seq<(Seq<char>, JsonView)>, k: Seq<char>)
    ensures
        lookup(resolved_fields(vars, f), k) == (match lookup(f, k) {
            Some(v) => Some(crate::resolve::resolved(vars, v)),
            None => None,
        }),
    decreases f.len(),
{
    if f.len() > 0 {
        assert(resolved_fields(vars, f).drop_first() =~= resolved_fields(vars, f.drop_first()));
        lemma_lookup_resolved(vars, f.drop_first(), k);
    }
}

/// `a` is what item `index` of a map sends: the node's arguments with
/// `item` and `index` set, every value resolved.
pub open spec fn item_args(ctx: ExecutionContext, n: Node, run: MapRun, index: int, a: JsonView) -> bool {
    let vars = field_views(ctx.variables@);
    &&& a is Object
    &&& lookup(a->Object_0, "item"@) == Some(crate::resolve::resolved(vars, run.items@[index]@))
    &&& lookup(a->Object_0, "index"@) == Some(JsonView::Number(crate::number::decimal_text(index as nat)))
    &&& forall|k: Seq<char>| k != "item"@ && k != "index"@ ==> lookup(a->Object_0, k) == (match arg_of(n, k) {
        Some(v) => Some(crate::resolve::resolved(vars, v)),
        None => None,
    })
}

/// The texts of the string elements of a list of values, in order.
pub open spec fn string_texts(items: Seq<JsonView>) -> Seq<Seq<char>>
    decreases items.len(),
{
    if items.len() == 0 {
        Seq::empty()
    } else if items.last() is Str {
        string_texts(items.drop_last()).push(items.last()->Str_0)
    } else {
        string_texts(items.drop_last())
    }
}

/// An argument of a node, resolved.
pub open spec fn resolved_arg_of(ctx: ExecutionContext, n: Node, key: Seq<char>) -> Option<JsonView> {
    match arg_of(n, key) {
        Some(v) => Some(crate::resolve::resolved(field_views(ctx.variables@), v)),
        None => None,
    }
}

/// The provenance a `mem.write` node gives: the strings of its resolved
/// `provenance` array.
pub open spec fn write_provenance(ctx: ExecutionContext, n: Node) -> Option<Seq<Seq<char>>> {
    match resolved_arg_of(ctx, n, "provenance"@) {
        Some(JsonView::Array(items)) => Some(string_texts(items)),
        _ => None,
    }
}

/// The confidence a `mem.write` node gives, in millionths.
pub open spec fn write_confidence(ctx: ExecutionContext, n: Node) -> Option<u64> {
    match resolved_arg_of(ctx, n, "confidence"@) {
        Some(v) => if crate::evidence_json::confidence_readable(v) {
            Some(crate::number::decimal_units(v->Number_0, 6) as u64)
        } else {
            None
        },
        None => None,
    }
}

/// The TTL a `mem.write` node gives.
pub open spec fn write_ttl(ctx: ExecutionContext, n: Node) -> Option<Seq<char>> {
    match resolved_arg_of(ctx, n, "ttl"@) {
        Some(JsonView::Str(t)) => Some(t),
        _ => None,
    }
}

/// A `mem.write` without evidence is admitted: a string key, a value, a
/// tool that resolves and lets the arguments through, non-empty provenance,
/// a confidence of at least 0.8, and a valid TTL.
pub open spec fn plain_write_admitted(ctx: ExecutionContext, n: Node) -> bool {
    &&& resolved_arg_of(ctx, n, "key"@) matches Some(JsonView::Str(_))
    &&& resolved_arg_of(ctx, n, "value"@) is Some
    &&& invocable(ctx, n, args_view(ctx, node_args(n)))
    &&& write_provenance(ctx, n) matches Some(p) && p.len() > 0
    &&& write_confidence(ctx, n) matches Some(c) && c >= crate::evidence::MIN_STORAGE_CONFIDENCE
    &&& crate::memory::ttl_valid(crate::memory::canonical_ttl(write_ttl(ctx, n)))
}

/// The memory write that the `mem.write` handler refuses without evidence:
/// a confidence argument that resolves to a number below 0.8.
pub open spec fn low_confidence_arg(ctx: ExecutionContext, n: Node) -> bool {
    arg_of(n, "confidence"@) is Some && exists|t: Seq<char>, c: u64|
        crate::resolve::resolved(field_views(ctx.variables@), arg_of(n, "confidence"@)->0) == JsonView::Number(t)
            && crate::evidence_json::confidence_from(JsonView::Number(t), c) && c < crate::evidence::MIN_STORAGE_CONFIDENCE
}

fn resolved_arg(ctx: &ExecutionContext, node: &Node, key: &str) -> (r: Option<Json>)
    ensures
        r matches Some(v) ==> arg_of(*node, key@) is Some && v@ == crate::resolve::resolved(field_views(ctx.variables@), arg_of(*node, key@)->0),
        r is None ==> arg_of(*node, key@) is None,
{
    match node_arg(node, key) {
        Some(v) => Some(ctx.resolve_value(v)),
        None => None,
    }
}

impl Scheduler {
    /// Starts a `mem.read`: requires a `key` argument that resolves to a
    /// string, resolves the memory tool, and builds the read request.
    pub fn begin_mem_read(&self, ctx: &mut ExecutionContext, node: &Node) -> (r: Result<MemoryCall, ExecutionError>)
        ensures
            same_state(*old(ctx), *final(ctx)),
            same_totals(*old(ctx), *final(ctx)),
            log_extends(old(ctx).trace_events@, final(ctx).trace_events@),
            arg_of(*node, "key"@) is None ==> r is Err,
            r matches Ok(c) ==> member(c.body@, "operation"@) == Some(JsonView::Str("read"@))
                && member(c.body@, "key"@) == Some(JsonView::Str(c.key@)),
            r is Ok <==> tool_resolves(*old(ctx), *node) && arg_of(*node, "key"@) is Some
                && crate::resolve::resolved(field_views(old(ctx).variables@), arg_of(*node, "key"@)->0) is Str,
            r matches Ok(c) ==> JsonView::Str(c.key@) == crate::resolve::resolved(field_views(old(ctx).variables@), arg_of(*node, "key"@)->0)
                && c.tool_name@ == chosen_tool(*old(ctx), *node) && url_of(*old(ctx), c.tool_name@) == Some(c.tool_url),
    {
        let key = match resolved_arg(ctx, node, "key") {
            Some(Json::Str(k)) => k,
            Some(_) => {
                return Err(validation("Memory read key must resolve to a string"));
            },
            None => {
                return Err(validation("Memory read operation requires a 'key' argument"));
            },
        };
        let resolution = ctx.resolve_tool(node)?;
        let body = crate::memory::key_request("read", key.as_str());
        Ok(MemoryCall { tool_name: resolution.tool_name, tool_url: resolution.tool_url, key, body, evidence_summary: None })
    }

    /// Finishes a `mem.read` with the memory tool's response: a transport
    /// failure or a malformed entry ends the node; otherwise the read is
    /// charged, and the entry's value, or null when there is no entry, is
    /// bound to every output variable.
    pub fn finish_mem_read(
        &self,
        ctx: &mut ExecutionContext,
        node: &Node,
        call: &MemoryCall,
        response: Result<Json, String>,
        latency_ms: u64,
    ) -> (r: Result<(), ExecutionError>)
        ensures
            counters_grow(*old(ctx), *final(ctx)),
            log_extends(old(ctx).trace_events@, final(ctx).trace_events@),
            response is Err ==> r is Err && r->Err_0 is ToolExecutionError,
            r is Ok ==> outputs_exist(*final(ctx), *node),
            r is Ok && !crate::memory::succeeded(response->Ok_0@) ==> outputs_bound_to(*final(ctx), *node, JsonView::Null),
            response matches Ok(b) && crate::memory::read_parses(b@) ==> (r is Ok <==> !overrun(*final(ctx))),
            (response matches Ok(b) && crate::memory::succeeded(b@) && member(crate::memory::payload_of(b@), "entry"@) is Some && r is Ok)
                ==> outputs_bound_to(*final(ctx), *node, member(member(crate::memory::payload_of(response->Ok_0@), "entry"@)->0, "value"@)->0),
            (response matches Ok(b) && !(crate::memory::succeeded(b@) && member(crate::memory::payload_of(b@), "entry"@) is Some) && r is Ok)
                ==> outputs_bound_to(*final(ctx), *node, JsonView::Null),
            r is Err && r->Err_0 is BudgetExceeded ==> crate::context::budget_error(*final(ctx), r->Err_0),
    {
        let body = match response {
            Ok(b) => b,
            Err(m) => {
                return Err(ExecutionError::ToolExecutionError(message("Memory read failed: Communication error: ", m.as_str(), "")));
            },
        };
        let entry = match crate::memory::parse_read_response(call.key.as_str(), &body) {
            Ok(e) => e,
            Err(e) => {
                return Err(ExecutionError::ToolExecutionError(message("Memory read failed: ", e.message().as_str(), "")));
            },
        };
        ctx.record_usage_for(call.tool_name.as_str(), latency_ms, None)?;
        let value = match entry {
            Some(e) => e.value,
            None => Json::Null,
        };
        bind_outputs(ctx, node, &value);
        proof {
            assert forall|i: int| 0 <= i < out_names(*node).len() implies var_of(*ctx, (#[trigger] out_names(*node)[i]).0@) is Some by {}
        }
        Ok(())
    }

    /// Starts a `mem.write`. `evidence` is the evidence text parsed as JSON,
    /// when the node carries evidence text. Requires `key` (a string),
    /// `value`, and non-empty `provenance`; resolves the memory tool and
    /// enforces its policy. With evidence, the evidence must read as
    /// evidence and be admissible at 0.8, and its mean confidence, when
    /// positive, becomes the write's confidence; without, a `confidence`
    /// below 0.8 is refused. The write request is then built.
    pub fn begin_mem_write(
        &self,
        ctx: &mut ExecutionContext,
        node: &Node,
        evidence: Option<Result<Json, String>>,
    ) -> (r: Result<MemoryCall, ExecutionError>)
        ensures
            same_state(*old(ctx), *final(ctx)),
            same_totals(*old(ctx), *final(ctx)),
            log_extends(old(ctx).trace_events@, final(ctx).trace_events@),
            arg_of(*node, "key"@) is None ==> r is Err,
            arg_of(*node, "value"@) is None ==> r is Err,
            evidence is None && low_confidence_arg(*old(ctx), *node) ==> r is Err,
            evidence is None ==> (r is Ok <==> plain_write_admitted(*old(ctx), *node)),
            evidence matches Some(Err(_)) ==> r is Err,
            (evidence is Some && evidence->0 is Ok && !crate::evidence_json::evidence_shape(evidence->0->Ok_0@)) ==> r is Err,
            r is Ok ==> invocable(*old(ctx), *node, args_view(*old(ctx), node_args(*node)))
                && write_provenance(*old(ctx), *node) is Some && write_provenance(*old(ctx), *node)->0.len() > 0
                && crate::memory::ttl_valid(crate::memory::canonical_ttl(write_ttl(*old(ctx), *node))),
            (r is Ok && evidence is Some && evidence->0 is Ok) ==> exists|ev: Evidence| crate::evidence_json::evidence_from(evidence->0->Ok_0@, ev)
                && crate::evidence::storable(ev, crate::evidence::MIN_STORAGE_CONFIDENCE),
            r matches Ok(c) ==> member(c.body@, "operation"@) == Some(JsonView::Str("write"@))
                && member(c.body@, "key"@) == Some(JsonView::Str(c.key@))
                && resolved_arg_of(*old(ctx), *node, "key"@) == Some(JsonView::Str(c.key@))
                && member(c.body@, "value"@) == resolved_arg_of(*old(ctx), *node, "value"@)
                && member(c.body@, "ttl"@) == Some(JsonView::Str(crate::memory::canonical_ttl(write_ttl(*old(ctx), *node))))
                && member(c.body@, "provenance"@) == Some(JsonView::Array(
                    Seq::new(write_provenance(*old(ctx), *node)->0.len(), |i: int| JsonView::Str(write_provenance(*old(ctx), *node)->0[i])))),
            (r is Ok && evidence is None) ==> member(r->Ok_0.body@, "confidence"@) == Some(JsonView::Number(
                crate::number::scaled_text(write_confidence(*old(ctx), *node)->0 as nat, 6))),
            (evidence is None && resolved_arg_of(*old(ctx), *node, "key"@) is Some
                && resolved_arg_of(*old(ctx), *node, "key"@)->0 is Str
                && resolved_arg_of(*old(ctx), *node, "value"@) is Some
                && invocable(*old(ctx), *node, args_view(*old(ctx), node_args(*node)))
                && write_confidence(*old(ctx), *node) is Some
                && write_confidence(*old(ctx), *node)->0 < crate::evidence::MIN_STORAGE_CONFIDENCE)
                ==> r is Err && r->Err_0 == ExecutionError::ValidationError(r->Err_0->ValidationError_0)
                && r->Err_0->ValidationError_0@ == "Memory write rejected: confidence "@
                    + resolved_arg_of(*old(ctx), *node, "confidence"@)->0->Number_0 + " < 0.8 threshold"@,
            node.tool is Some && r is Err && r->Err_0 is ValidationError ==> final(ctx).trace_events == old(ctx).trace_events,
            (r is Ok && evidence is Some && evidence->0 is Ok) ==> exists|ev: Evidence, vr: crate::evidence::VerificationResult|
                crate::evidence_json::evidence_from(evidence->0->Ok_0@, ev)
                && crate::evidence::storable(ev, crate::evidence::MIN_STORAGE_CONFIDENCE)
                && crate::evidence::verification_of(vr, ev)
                && r->Ok_0.evidence_summary is Some
                && crate::evidence_json::summary_json_facts(r->Ok_0.evidence_summary->0@, vr)
                && member(r->Ok_0.body@, "confidence"@) == Some(JsonView::Number(
                    crate::number::scaled_text(crate::evidence::mean_confidence(ev) as nat, 6))),
            (evidence is Some && evidence->0 is Ok && crate::evidence_json::evidence_shape(evidence->0->Ok_0@)
                && (forall|ev: Evidence| crate::evidence_json::evidence_from(evidence->0->Ok_0@, ev)
                    ==> #[trigger] crate::evidence::storable(ev, crate::evidence::MIN_STORAGE_CONFIDENCE))
                && resolved_arg_of(*old(ctx), *node, "key"@) is Some && resolved_arg_of(*old(ctx), *node, "key"@)->0 is Str
                && resolved_arg_of(*old(ctx), *node, "value"@) is Some
                && invocable(*old(ctx), *node, args_view(*old(ctx), node_args(*node)))
                && write_provenance(*old(ctx), *node) is Some && write_provenance(*old(ctx), *node)->0.len() > 0
                && crate::memory::ttl_valid(crate::memory::canonical_ttl(write_ttl(*old(ctx), *node)))) ==> r is Ok,
            (evidence is None && resolved_arg_of(*old(ctx), *node, "key"@) is Some
                && resolved_arg_of(*old(ctx), *node, "key"@)->0 is Str
                && resolved_arg_of(*old(ctx), *node, "value"@) is Some
                && invocable(*old(ctx), *node, args_view(*old(ctx), node_args(*node)))
                && !(write_confidence(*old(ctx), *node) is Some
                    && write_confidence(*old(ctx), *node)->0 < crate::evidence::MIN_STORAGE_CONFIDENCE)
                && !(write_provenance(*old(ctx), *node) is Some && write_provenance(*old(ctx), *node)->0.len() > 0))
                ==> r is Err && r->Err_0 == ExecutionError::ValidationError(r->Err_0->ValidationError_0)
                && r->Err_0->ValidationError_0@ == "Memory write operation requires non-empty provenance"@,
    {
        let key = match resolved_arg(ctx, node, "key") {
            Some(Json::Str(k)) => k,
            Some(_) => {
                return Err(validation("Memory write key must resolve to a string"));
            },
            None => {
                return Err(validation("Memory write operation requires a 'key' argument"));
            },
        };
        let value = match resolved_arg(ctx, node, "value") {
            Some(v) => v,
            None => {
                return Err(validation("Memory write operation requires a 'value' argument"));
            },
        };
        let prov_value = resolved_arg(ctx, node, "provenance");
        let provenance: Option<Vec<String>> = match &prov_value {
            Some(Json::Array(items)) => {
                let ghost iv = crate::json::views(items@);
                let mut out: Vec<String> = Vec::new();
                let mut i: usize = 0;
                while i < items.len()
                    invariant
                        i <= items@.len(),
                        iv == crate::json::views(items@),
                        out@.len() == string_texts(iv.subrange(0, i as int)).len(),
                        forall|j: int| 0 <= j < out@.len() ==> (#[trigger] out@[j])@ == string_texts(iv.subrange(0, i as int))[j],
                    decreases items@.len() - i,
                {
                    proof {
                        assert(iv.subrange(0, i as int + 1).drop_last() =~= iv.subrange(0, i as int));
                    }
                    if let Json::Str(s) = &items[i] {
                        out.push(s.clone());
                    }
                    i += 1;
                }
                proof {
                    assert(iv.subrange(0, items@.len() as int) =~= iv);
                    assert(iv =~= prov_value->0@->Array_0);
                }
                Some(out)
            },
            _ => None,
        };
        let confidence_value = resolved_arg(ctx, node, "confidence");
        let mut confidence: Option<u64> = match &confidence_value {
            Some(v) => crate::evidence_json::confidence_of(v),
            None => None,
        };
        let ttl: Option<String> = match resolved_arg(ctx, node, "ttl") {
            Some(Json::Str(t)) => Some(t),
            _ => None,
        };
        let ghost ctx0 = *ctx;
        let resolution = ctx.resolve_tool(node)?;
        let ghost ctx1 = *ctx;
        let args = ctx.resolve_args(match &node.args {
            Some(a) => Some(a),
            None => None,
        });
        proof {
            if node.tool is None {
                assert(crate::context::selected_for(ctx0, node.capability->0@, resolution.tool_name@));
            }
            lemma_same_views(ctx0, ctx1, *node, args@);
        }
        ctx.enforce_tool_policy(resolution.tool_name.as_str(), Some(&args))?;
        let mut summary_json: Option<Json> = None;
        let ghost mut ev_rec: (Evidence, crate::evidence::VerificationResult) = arbitrary();
        match evidence {
            Some(Err(e)) => {
                return Err(ExecutionError::ValidationError(message("Invalid evidence format: ", e.as_str(), "")));
            },
            Some(Ok(j)) => {
                let ev = match Evidence::from_json(&j) {
                    Some(ev) => ev,
                    None => {
                        return Err(validation("Invalid evidence format: not an evidence object"));
                    },
                };
                let summary = EvidenceVerifier.verify_evidence(&ev);
                summary_json = Some(summary.to_json());
                match EvidenceVerifier.validate_evidence_for_storage(&ev, crate::evidence::MIN_STORAGE_CONFIDENCE) {
                    Err(e) => {
                        return Err(ExecutionError::ValidationError(message("Evidence validation failed: ", e.message().as_str(), "")));
                    },
                    Ok(()) => {},
                }
                proof {
                    ev_rec = (ev, summary);
                }
                if summary.mean_confidence > 0 {
                    confidence = Some(summary.mean_confidence);
                }
            },
            None => {
                if let Some(c) = confidence {
                    if c < crate::evidence::MIN_STORAGE_CONFIDENCE {
                        let text = match &confidence_value {
                            Some(Json::Number(t)) => t.clone(),
                            _ => crate::number::scaled_to_text(c, 6),
                        };
                        return Err(ExecutionError::ValidationError(
                            message("Memory write rejected: confidence ", text.as_str(), " < 0.8 threshold"),
                        ));
                    }
                }
            },
        }
        let provenance = match provenance {
            Some(p) => if p.len() > 0 {
                p
            } else {
                return Err(validation("Memory write operation requires non-empty provenance"));
            },
            None => {
                return Err(validation("Memory write operation requires non-empty provenance"));
            },
        };
        let confidence = match confidence {
            Some(c) => c,
            None => {
                return Err(validation("Memory write operation requires confidence >= 0.8"));
            },
        };
        if confidence < crate::evidence::MIN_STORAGE_CONFIDENCE {
            return Err(ExecutionError::ValidationError(message(
                "Memory write rejected: confidence ",
                crate::number::scaled_to_text(confidence, 6).as_str(),
                " < 0.8 threshold",
            )));
        }
        let ttl_ref: Option<&str> = match &ttl {
            Some(t) => Some(t.as_str()),
            None => None,
        };
        proof {
            let wp = write_provenance(ctx0, *node)->0;
            assert(Seq::new(provenance@.len(), |i: int| JsonView::Str(provenance@[i]@)) =~= Seq::new(
                wp.len(),
                |i: int| JsonView::Str(wp[i]),
            ));
        }
        let body = match crate::memory::write_request(key.as_str(), &value, Some(&provenance), Some(confidence), ttl_ref, match &summary_json {
            Some(sj) => Some(sj),
            None => None,
        }) {
            Ok(b) => b,
            Err(e) => {
                return Err(ExecutionError::ToolExecutionError(message("Memory write failed: ", e.message().as_str(), "")));
            },
        };
        Ok(MemoryCall { tool_name: resolution.tool_name, tool_url: resolution.tool_url, key, body, evidence_summary: summary_json })
    }

    /// Finishes a `mem.write` with the memory tool's response: a transport
    /// failure or a refused write ends the node; otherwise the write is
    /// charged, and the evidence summary, if any, is recorded in an
    /// `evidence_summary` trace.
    pub fn finish_mem_write(
        &self,
        ctx: &mut ExecutionContext,
        node: &Node,
        call: MemoryCall,
        response: Result<Json, String>,
        latency_ms: u64,
    ) -> (r: Result<(), ExecutionError>)
        ensures
            counters_grow(*old(ctx), *final(ctx)),
            log_extends(old(ctx).trace_events@, final(ctx).trace_events@),
            response is Err ==> r is Err && r->Err_0 is ToolExecutionError,
            response matches Ok(b) && !crate::memory::succeeded(b@) ==> r is Err && r->Err_0 is ToolExecutionError,
            (response matches Ok(b) && crate::memory::succeeded(b@)) ==> final(ctx).total_latency_ms == crate::context::sat_add(old(ctx).total_latency_ms,
                crate::context::charged_latency(latency_ms, crate::context::limits_for(*old(ctx), call.tool_name@))),
            (response matches Ok(b) && crate::memory::succeeded(b@)) ==> final(ctx).total_cost_usd == crate::context::sat_add(old(ctx).total_cost_usd,
                crate::context::charged_cost(crate::context::limits_for(*old(ctx), call.tool_name@))),
            (response matches Ok(b) && crate::memory::succeeded(b@)) ==> final(ctx).total_tokens == crate::context::sat_add(old(ctx).total_tokens,
                crate::context::charged_tokens(None, crate::context::limits_for(*old(ctx), call.tool_name@))),
            response matches Ok(b) && crate::memory::succeeded(b@) ==> (r is Ok <==> !overrun(*final(ctx))),
            r is Ok && call.evidence_summary is Some ==> final(ctx).trace_events@.len() > old(ctx).trace_events@.len()
                && step_trace(final(ctx).trace_events@.last(), "evidence_summary"@, *node)
                && final(ctx).trace_events@.last().data == call.evidence_summary,
            r is Ok && call.evidence_summary is None ==> final(ctx).trace_events == old(ctx).trace_events,
            r is Err && r->Err_0 is BudgetExceeded ==> crate::context::budget_error(*final(ctx), r->Err_0),
    {
        let body = match response {
            Ok(b) => b,
            Err(m) => {
                return Err(ExecutionError::ToolExecutionError(message("Memory write failed: Communication error: ", m.as_str(), "")));
            },
        };
        match crate::memory::parse_status_response(&body) {
            Ok(()) => {},
            Err(e) => {
                return Err(ExecutionError::ToolExecutionError(message("Memory write failed: ", e.message().as_str(), "")));
            },
        }
        ctx.record_usage_for(call.tool_name.as_str(), latency_ms, None)?;
        if let Some(summary) = call.evidence_summary {
            let ghost t0 = ctx.trace_events@;
            push_trace(ctx, "evidence_summary", &node.id, message("Memory write evidence summary for ", call.key.as_str(), ""), Some(summary));
            proof {
                assert forall|i: int| 0 <= i < t0.len() implies #[trigger] ctx.trace_events@[i] == t0[i] by {
                    assert(ctx.trace_events@.drop_last()[i] == t0[i]);
                }
            }
        }
        Ok(())
    }
}

/// In a node's run, the `step_start` that its begin step appends comes
/// strictly before the `step_end` that its finish step appends.
pub proof fn lemma_step_start_precedes_end(t0: Seq<Trace>, t1: Seq<Trace>, t2: Seq<Trace>, n: Node)
    requires
        log_extends(t0, t1),
        t1.len() > 0,
        step_trace(t1.last(), "step_start"@, n),
        log_extends(t1, t2),
        t2.len() > t1.len(),
        step_trace(t2.last(), "step_end"@, n),
    ensures
        exists|i: int, j: int|
            0 <= i < j < t2.len() && step_trace(t2[i], "step_start"@, n) && step_trace(
                t2[j],
                "step_end"@,
                n,
            ),
{
    let i = t1.len() - 1;
    let j = t2.len() - 1;
    assert(t2[i] == t1[i]);
    assert(step_trace(t2[i], "step_start"@, n) && step_trace(t2[j], "step_end"@, n));
}

} // verus!
