//! The execution context: variables, registered tools and their specs, the
//! capability index, budget counters and the trace log.
use crate::json::{field_views, lookup, set_field, Json, JsonView};
use crate::number::{decimal_text, scaled_text, scaled_to_text, u64_text};
use crate::plan::Signals;
use crate::resolve::{reference_lookup, reference_value, resolve_json, resolve_map, resolved};
use crate::text::{lemma_text_lt_total, lemma_text_lt_irreflexive, lemma_text_lt_transitive, text_less, text_lt, contains_seq, contains_str, find_text, has_text, lower_of, lowercase, owned, starts_with_seq};
use crate::table::{entry, find_entry, find_index, set_entry};
use crate::json::text_of;
use crate::tools::{capabilities_of, cost_of, deny_patterns_of, latency_of};
use crate::plan::Node;
use crate::json::member;
use crate::tools::{Constraints, ToolSpec};
use crate::trace::Trace;
use vstd::prelude::*;

verus! {

pub struct ExecutionContext {
    /// Variable bindings; a name is bound at most once.
    pub variables: Vec<(String, Json)>,
    /// Registered specs by tool name, in registration order.
    pub tool_specs: Vec<(String, ToolSpec)>,
    /// Base URLs by tool name.
    pub tool_urls: Vec<(String, String)>,
    /// The tools declaring each capability, in registration order.
    pub capability_index: Vec<(String, Vec<String>)>,
    pub signals: Option<Signals>,
    pub trace_events: Vec<Trace>,
    pub completed_nodes: Vec<String>,
    pub running_nodes: Vec<String>,
    pub total_latency_ms: u64,
    /// In nano-dollars.
    pub total_cost_usd: u64,
    pub total_tokens: u64,
}

/// What one tool invocation consumed.
pub struct UsageRecord {
    pub tool_name: String,
    pub latency_ms: u64,
    /// In nano-dollars.
    pub cost_usd: u64,
    pub tokens: u64,
}

pub enum ExecutionError {
    ValidationError(String),
    ToolExecutionError(String),
    TimeoutError(String),
    BudgetExceeded(String),
}

/// The variables as a mathematical map from names to values.
pub open spec fn var_of(ctx: ExecutionContext, name: Seq<char>) -> Option<JsonView> {
    lookup(field_views(ctx.variables@), name)
}

/// The latency budget of some signals.
pub open spec fn latency_budget(s: Option<Signals>) -> Option<u64> {
    match s {
        Some(s) => s.latency_budget_ms,
        None => None,
    }
}

/// The cost cap of some signals.
pub open spec fn cost_cap(s: Option<Signals>) -> Option<u64> {
    match s {
        Some(s) => s.cost_cap_usd,
        None => None,
    }
}

pub open spec fn latency_overrun(ctx: ExecutionContext) -> bool {
    match latency_budget(ctx.signals) {
        Some(b) => ctx.total_latency_ms > b,
        None => false,
    }
}

pub open spec fn cost_overrun(ctx: ExecutionContext) -> bool {
    match cost_cap(ctx.signals) {
        Some(c) => ctx.total_cost_usd > c,
        None => false,
    }
}

/// The totals exceed a budget that the signals set.
pub open spec fn overrun(ctx: ExecutionContext) -> bool {
    latency_overrun(ctx) || cost_overrun(ctx)
}

pub open spec fn sat_add(a: u64, b: u64) -> u64 {
    if a + b > u64::MAX {
        u64::MAX
    } else {
        (a + b) as u64
    }
}

/// Latency charged for a call: the measured latency, raised to the declared
/// median where one is declared.
pub open spec fn charged_latency(actual: u64, c: Option<Constraints>) -> u64 {
    match c {
        Some(c) => match c.latency_p50_ms {
            Some(l) => if actual >= l { actual } else { l as u64 },
            None => actual,
        },
        None => actual,
    }
}

/// Cost charged for a call: the declared cost per call, or 0.
pub open spec fn charged_cost(c: Option<Constraints>) -> u64 {
    match c {
        Some(c) => match c.cost_per_call_usd {
            Some(v) => v,
            None => 0,
        },
        None => 0,
    }
}

/// Tokens charged for a call: the reported count, or the declared input
/// bound when none was reported.
pub open spec fn charged_tokens(tokens: Option<u64>, c: Option<Constraints>) -> u64 {
    let t = match tokens {
        Some(t) => t,
        None => 0,
    };
    if t == 0 {
        match c {
            Some(c) => match c.input_tokens_max {
                Some(m) => m as u64,
                None => 0,
            },
            None => 0,
        }
    } else {
        t
    }
}

/// The limits that the spec registered under `name` declares.
pub open spec fn limits_for(ctx: ExecutionContext, name: Seq<char>) -> Option<Constraints> {
    match spec_of(ctx, name) {
        Some(s) => s.constraints,
        None => None,
    }
}

pub open spec fn limits_of(spec: Option<&ToolSpec>) -> Option<Constraints> {
    match spec {
        Some(s) => s.constraints,
        None => None,
    }
}

/// `e` is the budget error that `ctx`'s totals call for: the latency
/// message when latency is over, else the cost message.
pub open spec fn budget_error(ctx: ExecutionContext, e: ExecutionError) -> bool {
    &&& e is BudgetExceeded
    &&& overrun(ctx)
    &&& latency_overrun(ctx) ==> starts_with_seq(e->BudgetExceeded_0@, "Latency budget exceeded"@)
    &&& !latency_overrun(ctx) ==> starts_with_seq(e->BudgetExceeded_0@, "Cost budget exceeded"@)
}

/// The trace log only grows, and nothing already in it changes.
pub open spec fn log_extends(before: Seq<Trace>, after: Seq<Trace>) -> bool {
    before.len() <= after.len() && forall|i: int| 0 <= i < before.len() ==> #[trigger] after[i] == before[i]
}

/// The counters never fall.
pub open spec fn counters_grow(before: ExecutionContext, after: ExecutionContext) -> bool {
    before.total_latency_ms <= after.total_latency_ms && before.total_cost_usd
        <= after.total_cost_usd && before.total_tokens <= after.total_tokens
}

/// Everything but the trace log and the counters is as it was.
pub open spec fn same_state(a: ExecutionContext, b: ExecutionContext) -> bool {
    &&& a.variables == b.variables
    &&& a.tool_specs == b.tool_specs
    &&& a.tool_urls == b.tool_urls
    &&& a.capability_index == b.capability_index
    &&& a.signals == b.signals
    &&& a.completed_nodes == b.completed_nodes
    &&& a.running_nodes == b.running_nodes
}

/// The counters are as they were.
pub open spec fn same_totals(a: ExecutionContext, b: ExecutionContext) -> bool {
    a.total_latency_ms == b.total_latency_ms && a.total_cost_usd == b.total_cost_usd
        && a.total_tokens == b.total_tokens
}

pub open spec fn opt_number(v: Option<u64>) -> JsonView {
    match v {
        Some(n) => JsonView::Number(decimal_text(n as nat)),
        None => JsonView::Null,
    }
}

pub open spec fn opt_dollars(v: Option<u64>) -> JsonView {
    match v {
        Some(n) => JsonView::Number(scaled_text(n as nat, 9)),
        None => JsonView::Null,
    }
}

/// The data of a budget summary: the totals beside the budgets, with costs
/// in dollars.
pub open spec fn budget_summary_data(ctx: ExecutionContext) -> JsonView {
    JsonView::Object(
        seq![
            ("total_latency_ms"@, JsonView::Number(decimal_text(ctx.total_latency_ms as nat))),
            ("latency_budget_ms"@, opt_number(latency_budget(ctx.signals))),
            ("total_cost_usd"@, JsonView::Number(scaled_text(ctx.total_cost_usd as nat, 9))),
            ("cost_cap_usd"@, opt_dollars(cost_cap(ctx.signals))),
            ("total_tokens"@, JsonView::Number(decimal_text(ctx.total_tokens as nat))),
        ],
    )
}

/// `t` is a budget summary trace of `ctx`.
pub open spec fn is_budget_summary(t: Trace, ctx: ExecutionContext) -> bool {
    &&& t.event_type@ == "budget_summary"@
    &&& t.step_id@ == "plan"@
    &&& t.cost_usd == Some(ctx.total_cost_usd)
    &&& t.tokens_out == Some(ctx.total_tokens)
    &&& t.data is Some && t.data->0@ == budget_summary_data(ctx)
}

fn opt_number_json(v: Option<u64>) -> (r: Json)
    ensures
        r@ == opt_number(v),
{
    match v {
        Some(n) => Json::Number(u64_text(n)),
        None => Json::Null,
    }
}

fn opt_dollars_json(v: Option<u64>) -> (r: Json)
    ensures
        r@ == opt_dollars(v),
{
    match v {
        Some(n) => Json::Number(scaled_to_text(n, 9)),
        None => Json::Null,
    }
}

/// The spec registered under `name`.
pub open spec fn spec_of(ctx: ExecutionContext, name: Seq<char>) -> Option<ToolSpec> {
    entry(ctx.tool_specs@, name)
}

/// The URL registered under `name`.
pub open spec fn url_of(ctx: ExecutionContext, name: Seq<char>) -> Option<String> {
    entry(ctx.tool_urls@, name)
}

/// The deny patterns of the tool registered under `name`.
pub open spec fn deny_patterns(ctx: ExecutionContext, name: Seq<char>) -> Seq<String> {
    match spec_of(ctx, name) {
        Some(s) => deny_patterns_of(s),
        None => Seq::empty(),
    }
}

/// The lower-cased JSON text of resolved arguments; `null` when absent.
pub open spec fn args_text(args: Option<JsonView>) -> Seq<char> {
    match args {
        Some(a) => lower_of(text_of(a)),
        None => "null"@,
    }
}

/// Pattern `p` blocks arguments with lower-cased text `t`.
pub open spec fn blocks(p: Seq<char>, t: Seq<char>) -> bool {
    lower_of(p).len() > 0 && contains_seq(t, lower_of(p))
}

/// The message of a policy block.
pub open spec fn policy_message(tool: Seq<char>, pattern: Seq<char>) -> Seq<char> {
    "Tool "@ + tool + " invocation blocked by policy pattern '"@ + pattern + "'"@
}

/// Tool `n` is registered under `n` in `specs` and declares capability `c`.
pub open spec fn declares(specs: Seq<(String, ToolSpec)>, n: Seq<char>, c: Seq<char>) -> bool {
    exists|j: int|
        0 <= j < specs.len() && #[trigger] specs[j].0@ == n && has_text(capabilities_of(specs[j].1), c)
}

/// Each capability appears once in the index, and lists each tool once.
pub open spec fn index_distinct(index: Seq<(String, Vec<String>)>) -> bool {
    &&& forall|a: int, b: int| 0 <= a < b < index.len() ==> index[a].0@ != index[b].0@
    &&& forall|a: int, i: int, j: int|
        0 <= a < index.len() && 0 <= i < j < index[a].1@.len() ==> (#[trigger] index[a].1@[i])@ != (#[trigger] index[a].1@[j])@
}

/// Tool `n` is listed under capability `c`.
pub open spec fn listed(index: Seq<(String, Vec<String>)>, c: Seq<char>, n: Seq<char>) -> bool {
    exists|a: int| 0 <= a < index.len() && #[trigger] index[a].0@ == c && has_text(index[a].1@, n)
}

/// The tools listed under capability `cap`.
pub open spec fn candidates(ctx: ExecutionContext, cap: Seq<char>) -> Seq<String> {
    match entry(ctx.capability_index@, cap) {
        Some(v) => v@,
        None => Seq::empty(),
    }
}

/// Tool `n` can be routed to: it has a URL and a spec.
pub open spec fn routable(ctx: ExecutionContext, n: Seq<char>) -> bool {
    url_of(ctx, n) is Some && spec_of(ctx, n) is Some
}

pub open spec fn route_cost(ctx: ExecutionContext, n: Seq<char>) -> u64 {
    cost_of(spec_of(ctx, n)->0)
}

pub open spec fn route_latency(ctx: ExecutionContext, n: Seq<char>) -> u64 {
    latency_of(spec_of(ctx, n)->0)
}

/// Tool `a` ranks before tool `b`: cheaper, then faster, then by name.
pub open spec fn ranks_before(ctx: ExecutionContext, a: Seq<char>, b: Seq<char>) -> bool {
    route_cost(ctx, a) < route_cost(ctx, b) || (route_cost(ctx, a) == route_cost(ctx, b) && (
    route_latency(ctx, a) < route_latency(ctx, b) || (route_latency(ctx, a) == route_latency(ctx, b)
        && text_lt(a, b))))
}

/// `name` is what routing capability `cap` selects: a routable candidate
/// that no routable candidate ranks before.
pub open spec fn selected_for(ctx: ExecutionContext, cap: Seq<char>, name: Seq<char>) -> bool {
    &&& routable(ctx, name)
    &&& exists|i: int| 0 <= i < candidates(ctx, cap).len() && #[trigger] candidates(ctx, cap)[i]@ == name
    &&& forall|i: int|
        0 <= i < candidates(ctx, cap).len() && routable(ctx, (#[trigger] candidates(ctx, cap)[i])@)
            ==> !ranks_before(ctx, candidates(ctx, cap)[i]@, name)
}

/// The routable tools among `cands`, in order.
pub open spec fn routable_names(ctx: ExecutionContext, cands: Seq<String>) -> Seq<Seq<char>>
    decreases cands.len(),
{
    if cands.len() == 0 {
        Seq::empty()
    } else if routable(ctx, cands.last()@) {
        routable_names(ctx, cands.drop_last()).push(cands.last()@)
    } else {
        routable_names(ctx, cands.drop_last())
    }
}

/// A route rationale lists, in order, one candidate entry per routable
/// tool, each naming its tool.
pub open spec fn lists_candidates(rationale: JsonView, names: Seq<Seq<char>>) -> bool {
    &&& member(rationale, "candidates"@) is Some
    &&& member(rationale, "candidates"@)->0 is Array
    &&& member(rationale, "candidates"@)->0->Array_0.len() == names.len()
    &&& forall|j: int| 0 <= j < names.len() ==> member(
        #[trigger] member(rationale, "candidates"@)->0->Array_0[j],
        "tool"@,
    ) == Some(JsonView::Str(names[j]))
}

/// Some candidate of `cap` is routable.
pub open spec fn any_routable(ctx: ExecutionContext, cap: Seq<char>) -> bool {
    exists|i: int| 0 <= i < candidates(ctx, cap).len() && routable(ctx, (#[trigger] candidates(ctx, cap)[i])@)
}

/// The counters only accumulate: if they do not fall across one step and
/// then across the next, they do not fall across both.
pub proof fn lemma_counters_accumulate(a: ExecutionContext, b: ExecutionContext, c: ExecutionContext)
    requires
        counters_grow(a, b),
        counters_grow(b, c),
    ensures
        counters_grow(a, c),
{
}

/// A tool that capability routing selects has a URL and a spec: every
/// `capability_route` trace names a registered tool.
pub proof fn lemma_routed_tool_registered(ctx: ExecutionContext, cap: Seq<char>, name: Seq<char>)
    requires
        selected_for(ctx, cap, name),
    ensures
        url_of(ctx, name) is Some,
        spec_of(ctx, name) is Some,
{
}

/// Routing selects at most one tool for a capability.
pub proof fn lemma_selection_unique(ctx: ExecutionContext, cap: Seq<char>, a: Seq<char>, b: Seq<char>)
    requires
        selected_for(ctx, cap, a),
        selected_for(ctx, cap, b),
    ensures
        a == b,
{
    let i = choose|i: int| 0 <= i < candidates(ctx, cap).len() && #[trigger] candidates(ctx, cap)[i]@ == a;
    let j = choose|j: int| 0 <= j < candidates(ctx, cap).len() && #[trigger] candidates(ctx, cap)[j]@ == b;
    assert(!ranks_before(ctx, candidates(ctx, cap)[i]@, b));
    assert(!ranks_before(ctx, candidates(ctx, cap)[j]@, a));
    if a != b {
        lemma_text_lt_total(a, b);
    }
}

/// The node names a tool that has a URL, or a capability that some
/// registered tool can serve.
pub open spec fn tool_resolves(ctx: ExecutionContext, n: Node) -> bool {
    match n.tool {
        Some(t) => url_of(ctx, t@) is Some,
        None => n.capability is Some && any_routable(ctx, n.capability->0@),
    }
}

/// The tool that a node resolves to: its named tool, or the one routing
/// selects for its capability.
pub open spec fn chosen_tool(ctx: ExecutionContext, n: Node) -> Seq<char> {
    match n.tool {
        Some(t) => t@,
        None => choose|name: Seq<char>| selected_for(ctx, n.capability->0@, name),
    }
}

/// No deny pattern of tool `name` blocks arguments `args`.
pub open spec fn policy_passes(ctx: ExecutionContext, name: Seq<char>, args: JsonView) -> bool {
    forall|i: int|
        0 <= i < deny_patterns(ctx, name).len() ==> !blocks(
            (#[trigger] deny_patterns(ctx, name)[i])@,
            args_text(Some(args)),
        )
}

/// Node arguments as one object, with references substituted.
pub open spec fn args_view(ctx: ExecutionContext, args: Option<Seq<(String, Json)>>) -> JsonView {
    match args {
        Some(a) => JsonView::Object(
            Seq::new(a.len(), |j: int| (a[j].0@, resolved(field_views(ctx.variables@), a[j].1@))),
        ),
        None => JsonView::Object(Seq::empty()),
    }
}

proof fn lemma_ranks_transitive(ctx: ExecutionContext, a: Seq<char>, b: Seq<char>, c: Seq<char>)
    requires
        ranks_before(ctx, a, b),
        ranks_before(ctx, b, c),
    ensures
        ranks_before(ctx, a, c),
{
    if route_cost(ctx, a) == route_cost(ctx, b) && route_cost(ctx, b) == route_cost(ctx, c) && route_latency(ctx, a)
        == route_latency(ctx, b) && route_latency(ctx, b) == route_latency(ctx, c) {
        lemma_text_lt_transitive(a, b, c);
    }
}

fn sat_add_exec(a: u64, b: u64) -> (r: u64)
    ensures
        r == sat_add(a, b),
{
    a.saturating_add(b)
}

fn number_field(name: &str, n: u64) -> (r: (String, Json))
    ensures
        r.0@ == name@,
        r.1@ == JsonView::Number(decimal_text(n as nat)),
{
    (owned(name), Json::Number(u64_text(n)))
}

fn dollars_field(name: &str, n: u64) -> (r: (String, Json))
    ensures
        r.0@ == name@,
        r.1@ == JsonView::Number(scaled_text(n as nat, 9)),
{
    (owned(name), Json::Number(scaled_to_text(n, 9)))
}

fn text_of_str(s: &str) -> (r: String)
    ensures
        r@ == s@,
{
    owned(s)
}

impl ExecutionContext {
    /// An empty context: no variables, tools, signals or traces; zero totals.
    pub fn new() -> (r: ExecutionContext)
        ensures
            r.variables@.len() == 0 && r.tool_specs@.len() == 0 && r.tool_urls@.len() == 0,
            r.capability_index@.len() == 0 && r.trace_events@.len() == 0,
            r.completed_nodes@.len() == 0 && r.running_nodes@.len() == 0,
            r.signals is None,
            r.total_latency_ms == 0 && r.total_cost_usd == 0 && r.total_tokens == 0,
    {
        ExecutionContext {
            variables: Vec::new(),
            tool_specs: Vec::new(),
            tool_urls: Vec::new(),
            capability_index: Vec::new(),
            signals: None,
            trace_events: Vec::new(),
            completed_nodes: Vec::new(),
            running_nodes: Vec::new(),
            total_latency_ms: 0,
            total_cost_usd: 0,
            total_tokens: 0,
        }
    }

    /// Binds variable `name` to `value`; other variables keep their values.
    pub fn set_variable(&mut self, name: String, value: Json)
        ensures
            var_of(*final(self), name@) == Some(value@),
            forall|k: Seq<char>| k != name@ ==> var_of(*final(self), k) == var_of(*old(self), k),
            final(self).trace_events == old(self).trace_events,
            final(self).tool_urls == old(self).tool_urls,
            final(self).tool_specs == old(self).tool_specs,
            final(self).capability_index == old(self).capability_index,
            final(self).signals == old(self).signals,
            final(self).completed_nodes == old(self).completed_nodes,
            final(self).running_nodes == old(self).running_nodes,
            final(self).total_latency_ms == old(self).total_latency_ms,
            final(self).total_cost_usd == old(self).total_cost_usd,
            final(self).total_tokens == old(self).total_tokens,
    {
        set_field(&mut self.variables, name, value);
    }

    /// The value a reference (without its `$`) names.
    pub fn resolve_reference(&self, reference: &str) -> (r: Option<Json>)
        ensures
            r matches Some(v) ==> reference_value(field_views(self.variables@), reference@) == Some(v@),
            r is None ==> reference_value(field_views(self.variables@), reference@) is None,
    {
        reference_lookup(&self.variables, reference)
    }

    /// A value with its `$references` substituted.
    pub fn resolve_value(&self, value: &Json) -> (r: Json)
        ensures
            r@ == resolved(field_views(self.variables@), value@),
    {
        resolve_json(&self.variables, value)
    }

    /// The arguments with their references substituted, as an object; the
    /// empty object when there are none.
    pub fn resolve_args(&self, args: Option<&Vec<(String, Json)>>) -> (r: Json)
        ensures
            r is Object,
            args is None ==> r->Object_0@.len() == 0,
            args matches Some(a) ==> r->Object_0@.len() == a@.len() && forall|j: int|
                0 <= j < a@.len() ==> r->Object_0@[j].0@ == a@[j].0@ && #[trigger] r->Object_0@[j].1@
                    == resolved(field_views(self.variables@), a@[j].1@),
            r@ == args_view(*self, match args { Some(a) => Some(a@), None => None }),
    {
        match args {
            Some(a) => {
                let m = resolve_map(&self.variables, a);
                let r = Json::Object(m);
                proof {
                    crate::json::lemma_members_view(m@);
                    assert(field_views(m@) =~= args_view(*self, Some(a@))->Object_0);
                }
                r
            },
            None => {
                let r = Json::Object(Vec::new());
                proof {
                    crate::json::lemma_members_view(Seq::<(String, Json)>::empty());
                    assert(field_views(Seq::<(String, Json)>::empty()) =~= Seq::<(Seq<char>, JsonView)>::empty());
                }
                r
            },
        }
    }

    /// `Err(BudgetExceeded)` when a total exceeds a budget that the signals
    /// set; latency is checked first.
    pub fn check_budget_overrun(&self) -> (r: Result<(), ExecutionError>)
        ensures
            r is Ok <==> !overrun(*self),
            r is Err ==> r->Err_0 is BudgetExceeded,
            r matches Err(ExecutionError::BudgetExceeded(m)) ==> (latency_overrun(*self) ==> starts_with_seq(m@, "Latency budget exceeded"@)) && (!latency_overrun(*self) ==> starts_with_seq(m@, "Cost budget exceeded"@)),
    {
        if let Some(signals) = &self.signals {
            if let Some(budget) = signals.latency_budget_ms {
                if self.total_latency_ms > budget {
                    let mut m = text_of_str("Latency budget exceeded");
                    let ghost head = m@;
                    m.append(": ");
                    m.append(u64_text(self.total_latency_ms).as_str());
                    m.append("ms > ");
                    m.append(u64_text(budget).as_str());
                    m.append("ms");
                    proof {
                        assert(m@.subrange(0, head.len() as int) =~= head);
                    }
                    return Err(ExecutionError::BudgetExceeded(m));
                }
            }
            if let Some(cap) = signals.cost_cap_usd {
                if self.total_cost_usd > cap {
                    let mut m = text_of_str("Cost budget exceeded");
                    let ghost head = m@;
                    m.append(": $");
                    m.append(scaled_to_text(self.total_cost_usd, 9).as_str());
                    m.append(" > $");
                    m.append(scaled_to_text(cap, 9).as_str());
                    proof {
                        assert(m@.subrange(0, head.len() as int) =~= head);
                    }
                    return Err(ExecutionError::BudgetExceeded(m));
                }
            }
        }
        Ok(())
    }

    /// The budgets that the signals set.
    fn budgets(&self) -> (r: (Option<u64>, Option<u64>))
        ensures
            r.0 == latency_budget(self.signals),
            r.1 == cost_cap(self.signals),
    {
        match &self.signals {
            Some(s) => (s.latency_budget_ms, s.cost_cap_usd),
            None => (None, None),
        }
    }

    /// Appends a budget summary trace of the current totals.
    pub fn push_budget_summary_trace(&mut self)
        ensures
            same_state(*old(self), *final(self)),
            same_totals(*old(self), *final(self)),
            final(self).trace_events@.len() == old(self).trace_events@.len() + 1,
            final(self).trace_events@.drop_last() == old(self).trace_events@,
            is_budget_summary(final(self).trace_events@.last(), *final(self)),
    {
        let (latency_budget, cost_cap) = self.budgets();
        let mut fields: Vec<(String, Json)> = Vec::new();
        fields.push(number_field("total_latency_ms", self.total_latency_ms));
        fields.push((owned("latency_budget_ms"), opt_number_json(latency_budget)));
        fields.push(dollars_field("total_cost_usd", self.total_cost_usd));
        fields.push((owned("cost_cap_usd"), opt_dollars_json(cost_cap)));
        fields.push(number_field("total_tokens", self.total_tokens));
        let summary = Json::Object(fields);
        proof {
            crate::json::lemma_members_view(fields@);
            assert(field_views(fields@) =~= budget_summary_data(*self)->Object_0);
        }
        let mut trace = Trace::new(owned("budget_summary"), owned("plan"), owned("Plan budget summary"));
        trace.cost_usd = Some(self.total_cost_usd);
        trace.tokens_out = Some(self.total_tokens);
        trace.data = Some(summary);
        self.trace_events.push(trace);
        proof {
            assert(self.trace_events@.drop_last() =~= old(self).trace_events@);
        }
    }

    /// Charges one tool invocation to the counters (saturating), then checks
    /// the budgets. On an overrun it appends a budget summary trace before
    /// it fails, so that the summary holds the final totals.
    pub fn record_tool_usage(
        &mut self,
        tool_name: &str,
        spec: Option<&ToolSpec>,
        actual_latency_ms: u64,
        tokens_used: Option<u64>,
    ) -> (r: Result<UsageRecord, ExecutionError>)
        ensures
            same_state(*old(self), *final(self)),
            counters_grow(*old(self), *final(self)),
            final(self).total_latency_ms == sat_add(
                old(self).total_latency_ms,
                charged_latency(actual_latency_ms, limits_of(spec)),
            ),
            final(self).total_cost_usd == sat_add(old(self).total_cost_usd, charged_cost(limits_of(spec))),
            final(self).total_tokens == sat_add(
                old(self).total_tokens,
                charged_tokens(tokens_used, limits_of(spec)),
            ),
            r is Ok <==> !overrun(*final(self)),
            r matches Ok(u) ==> u.tool_name@ == tool_name@ && u.latency_ms == charged_latency(
                actual_latency_ms,
                limits_of(spec),
            ) && u.cost_usd == charged_cost(limits_of(spec)) && u.tokens == charged_tokens(
                tokens_used,
                limits_of(spec),
            ),
            r is Ok ==> final(self).trace_events == old(self).trace_events,
            r is Err ==> budget_error(*final(self), r->Err_0),
            r is Err ==> r->Err_0 is BudgetExceeded && final(self).trace_events@.len()
                == old(self).trace_events@.len() + 1 && final(self).trace_events@.drop_last()
                == old(self).trace_events@ && is_budget_summary(
                final(self).trace_events@.last(),
                *final(self),
            ),
    {
        let limits: Option<Constraints> = match spec {
            Some(s) => s.constraints,
            None => None,
        };
        self.record_with_limits(tool_name, limits, actual_latency_ms, tokens_used)
    }

    /// Charges one invocation with declared limits `limits` to the counters
    /// (saturating), then checks the budgets. On an overrun it appends a
    /// budget summary trace before it fails, so that the summary holds the
    /// final totals.
    pub fn record_with_limits(
        &mut self,
        tool_name: &str,
        limits: Option<Constraints>,
        actual_latency_ms: u64,
        tokens_used: Option<u64>,
    ) -> (r: Result<UsageRecord, ExecutionError>)
        ensures
            same_state(*old(self), *final(self)),
            counters_grow(*old(self), *final(self)),
            final(self).total_latency_ms == sat_add(
                old(self).total_latency_ms,
                charged_latency(actual_latency_ms, limits),
            ),
            final(self).total_cost_usd == sat_add(old(self).total_cost_usd, charged_cost(limits)),
            final(self).total_tokens == sat_add(
                old(self).total_tokens,
                charged_tokens(tokens_used, limits),
            ),
            r is Ok <==> !overrun(*final(self)),
            r matches Ok(u) ==> u.tool_name@ == tool_name@ && u.latency_ms == charged_latency(
                actual_latency_ms,
                limits,
            ) && u.cost_usd == charged_cost(limits) && u.tokens == charged_tokens(
                tokens_used,
                limits,
            ),
            r is Ok ==> final(self).trace_events == old(self).trace_events,
            r is Err ==> budget_error(*final(self), r->Err_0),
            r is Err ==> r->Err_0 is BudgetExceeded && final(self).trace_events@.len()
                == old(self).trace_events@.len() + 1 && final(self).trace_events@.drop_last()
                == old(self).trace_events@ && is_budget_summary(
                final(self).trace_events@.last(),
                *final(self),
            ),
    {
        let mut consumed_latency = actual_latency_ms;
        let mut consumed_cost: u64 = 0;
        let mut consumed_tokens: u64 = match tokens_used {
            Some(t) => t,
            None => 0,
        };
        if let Some(c) = limits {
            if let Some(l) = c.latency_p50_ms {
                if (l as u64) > consumed_latency {
                    consumed_latency = l as u64;
                }
            }
            if let Some(cost) = c.cost_per_call_usd {
                consumed_cost = cost;
            }
            if consumed_tokens == 0 {
                if let Some(t) = c.input_tokens_max {
                    consumed_tokens = t as u64;
                }
            }
        }
        self.total_latency_ms = sat_add_exec(self.total_latency_ms, consumed_latency);
        self.total_cost_usd = sat_add_exec(self.total_cost_usd, consumed_cost);
        self.total_tokens = sat_add_exec(self.total_tokens, consumed_tokens);
        match self.check_budget_overrun() {
            Err(e) => {
                self.push_budget_summary_trace();
                Err(e)
            },
            Ok(()) => Ok(
                UsageRecord {
                    tool_name: owned(tool_name),
                    latency_ms: consumed_latency,
                    cost_usd: consumed_cost,
                    tokens: consumed_tokens,
                },
            ),
        }
    }

    /// Checks resolved arguments against the deny patterns of the tool's
    /// spec. The arguments' JSON text and each pattern are compared in lower
    /// case; on the first non-empty pattern that occurs, a `policy_violation`
    /// trace is appended and the invocation is refused.
    pub fn enforce_tool_policy(&mut self, tool_name: &str, args: Option<&Json>) -> (r: Result<(), ExecutionError>)
        ensures
            same_state(*old(self), *final(self)),
            same_totals(*old(self), *final(self)),
            r is Ok <==> forall|i: int|
                0 <= i < deny_patterns(*old(self), tool_name@).len() ==> !blocks(
                    (#[trigger] deny_patterns(*old(self), tool_name@)[i])@,
                    args_text(match args { Some(a) => Some(a@), None => None }),
                ),
            r is Ok ==> final(self).trace_events == old(self).trace_events,
            r is Err ==> exists|i: int|
                0 <= i < deny_patterns(*old(self), tool_name@).len() && blocks(
                    (#[trigger] deny_patterns(*old(self), tool_name@)[i])@,
                    args_text(match args { Some(a) => Some(a@), None => None }),
                ) && (forall|j: int| 0 <= j < i ==> !blocks(
                    (#[trigger] deny_patterns(*old(self), tool_name@)[j])@,
                    args_text(match args { Some(a) => Some(a@), None => None }),
                )) && r->Err_0 == ExecutionError::ToolExecutionError(r->Err_0->ToolExecutionError_0)
                    && r->Err_0->ToolExecutionError_0@ == policy_message(
                    tool_name@,
                    deny_patterns(*old(self), tool_name@)[i]@,
                ) && member(final(self).trace_events@.last().data->0@, "pattern"@) == Some(
                    JsonView::Str(deny_patterns(*old(self), tool_name@)[i]@),
                ),
            r is Err ==> final(self).trace_events@.len() == old(self).trace_events@.len() + 1
                && final(self).trace_events@.drop_last() == old(self).trace_events@
                && final(self).trace_events@.last().event_type@ == "policy_violation"@
                && final(self).trace_events@.last().step_id@ == tool_name@
                && final(self).trace_events@.last().data is Some
                && member(final(self).trace_events@.last().data->0@, "description"@) == Some(
                    JsonView::Str(r->Err_0->ToolExecutionError_0@),
                )
                && member(final(self).trace_events@.last().data->0@, "args"@) == Some(
                    match args { Some(a) => a@, None => JsonView::Null },
                ),
    {
        let ghost pats = deny_patterns(*old(self), tool_name@);
        let ghost at = args_text(match args { Some(a) => Some(a@), None => None });
        let empty: Vec<String> = Vec::new();
        let patterns: &Vec<String> = match find_entry(&self.tool_specs, tool_name) {
            Some(spec) => match &spec.policy {
                Some(p) => match &p.deny_if {
                    Some(d) => d,
                    None => &empty,
                },
                None => &empty,
            },
            None => &empty,
        };
        assert(patterns@ == pats);
        if patterns.len() == 0 {
            return Ok(());
        }
        let serialised = match args {
            Some(a) => lowercase(a.to_text().as_str()),
            None => owned("null"),
        };
        assert(serialised@ == at);
        let mut i: usize = 0;
        while i < patterns.len()
            invariant
                *self == *old(self),
                pats == deny_patterns(*old(self), tool_name@),
                at == args_text(match args { Some(a) => Some(a@), None => None }),
                patterns@ == pats,
                serialised@ == at,
                i <= patterns@.len(),
                forall|j: int| 0 <= j < i ==> !blocks((#[trigger] pats[j])@, at),
            decreases patterns@.len() - i,
        {
            let lowered = lowercase(patterns[i].as_str());
            if lowered.as_str().unicode_len() > 0 && contains_str(serialised.as_str(), lowered.as_str()) {
                let mut message = owned("Tool ");
                message.append(tool_name);
                message.append(" invocation blocked by policy pattern '");
                message.append(patterns[i].as_str());
                message.append("'");
                let mut fields: Vec<(String, Json)> = Vec::new();
                fields.push((owned("description"), Json::Str(message.clone())));
                fields.push((owned("pattern"), Json::Str(patterns[i].clone())));
                fields.push((owned("args"), match args {
                    Some(a) => a.copy(),
                    None => Json::Null,
                }));
                let data = Json::Object(fields);
                proof {
                    crate::json::lemma_members_view(fields@);
                    let fv = field_views(fields@);
                    reveal_strlit("description");
                    reveal_strlit("pattern");
                    reveal_strlit("args");
                    assert(fv[0].0 == "description"@ && fv[1].0 == "pattern"@ && fv[2].0 == "args"@);
                    assert("description"@[0] == 'd' && "pattern"@[0] == 'p' && "args"@[0] == 'a');
                    crate::json::lemma_lookup_at(fv, "description"@, 0);
                    crate::json::lemma_lookup_at(fv, "pattern"@, 1);
                    crate::json::lemma_lookup_at(fv, "args"@, 2);
                }
                let mut trace = Trace::new(owned("policy_violation"), owned(tool_name), message.clone());
                trace.data = Some(data);
                self.trace_events.push(trace);
                proof {
                    assert(pats == deny_patterns(*old(self), tool_name@));
                    assert(deny_patterns(*old(self), tool_name@)[i as int] == pats[i as int]);
                    assert(blocks(pats[i as int]@, at));
                    assert(message@ =~= policy_message(tool_name@, pats[i as int]@));
                    assert(self.trace_events@.drop_last() =~= old(self).trace_events@);
                }
                return Err(ExecutionError::ToolExecutionError(message));
            }
            i += 1;
        }
        Ok(())
    }

    /// Registers `spec` under `tool_name`, replacing an earlier spec of that
    /// name, and rebuilds the capability index.
    pub fn register_tool_spec(&mut self, tool_name: String, spec: ToolSpec)
        ensures
            spec_of(*final(self), tool_name@) == Some(spec),
            forall|n: Seq<char>| n != tool_name@ ==> spec_of(*final(self), n) == spec_of(*old(self), n),
            forall|c: Seq<char>, n: Seq<char>|
                listed(final(self).capability_index@, c, n) ==> declares(final(self).tool_specs@, n, c),
            forall|c: Seq<char>, n: Seq<char>|
                declares(final(self).tool_specs@, n, c) ==> listed(final(self).capability_index@, c, n),
            index_distinct(final(self).capability_index@),
            final(self).variables == old(self).variables,
            final(self).tool_urls == old(self).tool_urls,
            final(self).signals == old(self).signals,
            final(self).trace_events == old(self).trace_events,
            same_totals(*old(self), *final(self)),
    {
        set_entry(&mut self.tool_specs, tool_name, spec);
        self.rebuild_capability_index();
    }

    /// Rebuilds the capability index from the registered specs: each
    /// capability lists, once each, the tools that declare it.
    fn rebuild_capability_index(&mut self)
        ensures
            final(self).tool_specs == old(self).tool_specs,
            final(self).variables == old(self).variables,
            final(self).tool_urls == old(self).tool_urls,
            final(self).signals == old(self).signals,
            final(self).trace_events == old(self).trace_events,
            same_totals(*old(self), *final(self)),
            forall|c: Seq<char>, n: Seq<char>|
                listed(final(self).capability_index@, c, n) ==> declares(final(self).tool_specs@, n, c),
            forall|c: Seq<char>, n: Seq<char>|
                declares(final(self).tool_specs@, n, c) ==> listed(final(self).capability_index@, c, n),
            index_distinct(final(self).capability_index@),
    {
        let mut index: Vec<(String, Vec<String>)> = Vec::new();
        let mut j: usize = 0;
        while j < self.tool_specs.len()
            invariant
                j <= self.tool_specs@.len(),
                forall|c: Seq<char>, n: Seq<char>|
                    listed(index@, c, n) ==> declares(self.tool_specs@, n, c),
                forall|c: Seq<char>, n: Seq<char>|
                    declares(self.tool_specs@.subrange(0, j as int), n, c) ==> listed(index@, c, n),
                index_distinct(index@),
            decreases self.tool_specs@.len() - j,
        {
            let empty: Vec<String> = Vec::new();
            let caps: &Vec<String> = match &self.tool_specs[j].1.capabilities {
                Some(c) => c,
                None => &empty,
            };
            assert(caps@ == capabilities_of(self.tool_specs@[j as int].1));
            let name = &self.tool_specs[j].0;
            let mut t: usize = 0;
            while t < caps.len()
                invariant
                    j < self.tool_specs@.len(),
                    caps@ == capabilities_of(self.tool_specs@[j as int].1),
                    *name == self.tool_specs@[j as int].0,
                    t <= caps@.len(),
                    forall|c: Seq<char>, n: Seq<char>|
                        listed(index@, c, n) ==> declares(self.tool_specs@, n, c),
                    forall|c: Seq<char>, n: Seq<char>|
                        declares(self.tool_specs@.subrange(0, j as int), n, c) ==> listed(index@, c, n),
                    forall|a: int| 0 <= a < t ==> listed(index@, (#[trigger] caps@[a])@, name@),
                    index_distinct(index@),
                decreases caps@.len() - t,
            {
                proof {
                    assert(declares(self.tool_specs@, name@, caps@[t as int]@)) by {
                        assert(has_text(capabilities_of(self.tool_specs@[j as int].1), caps@[t as int]@));
                    }
                }
                add_listing(&mut index, &caps[t], name, Ghost(self.tool_specs@));
                t += 1;
            }
            proof {
                assert forall|c: Seq<char>, n: Seq<char>|
                    declares(self.tool_specs@.subrange(0, j + 1), n, c) implies listed(index@, c, n) by {
                    let sub = self.tool_specs@.subrange(0, j + 1);
                    let k = choose|k: int|
                        0 <= k < sub.len() && #[trigger] sub[k].0@ == n && has_text(capabilities_of(sub[k].1), c);
                    if k < j {
                        assert(self.tool_specs@.subrange(0, j as int)[k] == sub[k]);
                        assert(declares(self.tool_specs@.subrange(0, j as int), n, c));
                    } else {
                        let a = choose|a: int| 0 <= a < caps@.len() && #[trigger] caps@[a]@ == c;
                        assert(listed(index@, caps@[a]@, name@));
                    }
                }
            }
            j += 1;
        }
        proof {
            assert(self.tool_specs@.subrange(0, self.tool_specs@.len() as int) =~= self.tool_specs@);
        }
        self.capability_index = index;
    }

    /// Charges one invocation of the registered tool `tool_name`, with the
    /// limits its spec declares, as `record_with_limits` does.
    pub fn record_usage_for(
        &mut self,
        tool_name: &str,
        actual_latency_ms: u64,
        tokens_used: Option<u64>,
    ) -> (r: Result<UsageRecord, ExecutionError>)
        ensures
            same_state(*old(self), *final(self)),
            counters_grow(*old(self), *final(self)),
            final(self).total_latency_ms == sat_add(
                old(self).total_latency_ms,
                charged_latency(actual_latency_ms, limits_for(*old(self), tool_name@)),
            ),
            final(self).total_cost_usd == sat_add(old(self).total_cost_usd, charged_cost(limits_for(*old(self), tool_name@))),
            final(self).total_tokens == sat_add(
                old(self).total_tokens,
                charged_tokens(tokens_used, limits_for(*old(self), tool_name@)),
            ),
            r is Ok <==> !overrun(*final(self)),
            r matches Ok(u) ==> u.tool_name@ == tool_name@ && u.latency_ms == charged_latency(
                actual_latency_ms,
                limits_for(*old(self), tool_name@),
            ) && u.cost_usd == charged_cost(limits_for(*old(self), tool_name@)) && u.tokens == charged_tokens(
                tokens_used,
                limits_for(*old(self), tool_name@),
            ),
            r is Ok ==> final(self).trace_events == old(self).trace_events,
            r is Err ==> budget_error(*final(self), r->Err_0),
            r is Err ==> r->Err_0 is BudgetExceeded && final(self).trace_events@.len()
                == old(self).trace_events@.len() + 1 && final(self).trace_events@.drop_last()
                == old(self).trace_events@ && is_budget_summary(
                final(self).trace_events@.last(),
                *final(self),
            ),
    {
        let limits: Option<Constraints> = match find_entry(&self.tool_specs, tool_name) {
            Some(s) => s.constraints,
            None => None,
        };
        self.record_with_limits(tool_name, limits, actual_latency_ms, tokens_used)
    }

    /// Whether no budget is overrun.
    pub fn has_budget_remaining(&self) -> (r: bool)
        ensures
            r == !overrun(*self),
    {
        self.check_budget_overrun().is_ok()
    }
}

/// Lists tool `name` under capability `cap`, once.
fn add_listing(index: &mut Vec<(String, Vec<String>)>, cap: &String, name: &String, specs: Ghost<Seq<(String, ToolSpec)>>)
    requires
        declares(specs@, name@, cap@),
        forall|c: Seq<char>, n: Seq<char>| listed(old(index)@, c, n) ==> declares(specs@, n, c),
        index_distinct(old(index)@),
    ensures
        index_distinct(final(index)@),
        forall|c: Seq<char>, n: Seq<char>| listed(final(index)@, c, n) ==> declares(specs@, n, c),
        forall|c: Seq<char>, n: Seq<char>| listed(old(index)@, c, n) ==> listed(final(index)@, c, n),
        listed(final(index)@, cap@, name@),
{
    let ghost before = index@;
    match find_index(index, cap.as_str()) {
        Some(a) => {
            if !find_text(&index[a].1, name.as_str()) {
                let mut list = index.remove(a);
                list.1.push(name.clone());
                index.insert(a, list);
                proof {
                    assert(index@ =~= before.update(a as int, index@[a as int]));
                    assert(index@[a as int].0@ == cap@);
                    assert(index@[a as int].1@ == before[a as int].1@.push(index@[a as int].1@.last()));
                    assert forall|c: Seq<char>, n: Seq<char>| listed(index@, c, n) implies declares(specs@, n, c) by {
                        let b = choose|b: int| 0 <= b < index@.len() && #[trigger] index@[b].0@ == c && has_text(index@[b].1@, n);
                        if b == a {
                            if n != name@ {
                                let t = choose|t: int| 0 <= t < index@[b].1@.len() && #[trigger] index@[b].1@[t]@ == n;
                                assert(t < before[b].1@.len());
                                assert(index@[b].1@[t] == before[b].1@[t]);
                                assert(before[b].1@[t]@ == n);
                                assert(listed(before, c, n));
                            }
                        } else {
                            assert(index@[b] == before[b]);
                            assert(listed(before, c, n));
                        }
                    }
                    assert forall|c: Seq<char>, n: Seq<char>| listed(before, c, n) implies listed(index@, c, n) by {
                        let b = choose|b: int| 0 <= b < before.len() && #[trigger] before[b].0@ == c && has_text(before[b].1@, n);
                        let t = choose|t: int| 0 <= t < before[b].1@.len() && #[trigger] before[b].1@[t]@ == n;
                        if b == a {
                            assert(index@[b].1@[t] == before[b].1@[t]);
                            assert(index@[b].1@[t]@ == n);
                        } else {
                            assert(index@[b] == before[b]);
                        }
                        assert(has_text(index@[b].1@, n));
                    }
                    assert(index@[a as int].1@.last()@ == name@);
                    assert(has_text(index@[a as int].1@, name@));
                    assert(listed(index@, cap@, name@));
                    assert forall|b: int, i: int, j: int|
                        0 <= b < index@.len() && 0 <= i < j < index@[b].1@.len() implies (#[trigger] index@[b].1@[i])@ != (#[trigger] index@[b].1@[j])@ by {
                        if b == a {
                            if j == index@[b].1@.len() - 1 {
                                assert(index@[b].1@[i] == before[b].1@[i]);
                            } else {
                                assert(index@[b].1@[i] == before[b].1@[i]);
                                assert(index@[b].1@[j] == before[b].1@[j]);
                            }
                        } else {
                            assert(index@[b] == before[b]);
                        }
                    }
                    assert forall|b: int, c: int| 0 <= b < c < index@.len() implies index@[b].0@ != index@[c].0@ by {
                        assert(index@[b].0@ == before[b].0@);
                        assert(index@[c].0@ == before[c].0@);
                    }
                }
            } else {
                proof {
                    assert(has_text(index@[a as int].1@, name@));
                    assert(index@[a as int].0@ == cap@);
                    assert(listed(index@, cap@, name@));
                }
            }
        },
        None => {
            let mut list: Vec<String> = Vec::new();
            list.push(name.clone());
            index.push((cap.clone(), list));
            proof {
                assert forall|c: Seq<char>, n: Seq<char>| listed(index@, c, n) implies declares(specs@, n, c) by {
                    let b = choose|b: int| 0 <= b < index@.len() && #[trigger] index@[b].0@ == c && has_text(index@[b].1@, n);
                    if b < before.len() {
                        assert(index@[b] == before[b]);
                        assert(listed(before, c, n));
                    } else {
                        let t = choose|t: int| 0 <= t < index@[b].1@.len() && #[trigger] index@[b].1@[t]@ == n;
                        assert(n == name@);
                    }
                }
                assert forall|c: Seq<char>, n: Seq<char>| listed(before, c, n) implies listed(index@, c, n) by {
                    let b = choose|b: int| 0 <= b < before.len() && #[trigger] before[b].0@ == c && has_text(before[b].1@, n);
                    assert(index@[b] == before[b]);
                }
                assert(index@[before.len() as int].1@[0]@ == name@);
                assert(has_text(index@[before.len() as int].1@, name@));
                assert(index@[before.len() as int].0@ == cap@);
                assert(listed(index@, cap@, name@));
                assert forall|b: int, i: int, j: int|
                    0 <= b < index@.len() && 0 <= i < j < index@[b].1@.len() implies (#[trigger] index@[b].1@[i])@ != (#[trigger] index@[b].1@[j])@ by {
                    if b < before.len() {
                        assert(index@[b] == before[b]);
                    }
                }
                assert forall|b: int, c: int| 0 <= b < c < index@.len() implies index@[b].0@ != index@[c].0@ by {
                    assert(index@[b] == before[b]);
                    if c < before.len() {
                        assert(index@[c] == before[c]);
                    } else {
                        assert(before[b].0@ != cap@);
                    }
                }
            }
        },
    }
}

/// The tool chosen for a capability, with the reasons as JSON.
pub struct CapabilityRouteDecision {
    pub tool_name: String,
    pub rationale: Json,
}

/// The tool a node will invoke.
pub struct ToolResolution {
    pub tool_name: String,
    pub tool_url: String,
    /// The capability it was routed for, if it was routed.
    pub capability: Option<String>,
}

fn bool_field(name: &str, b: bool) -> (r: (String, Json))
    ensures
        r.0@ == name@,
        r.1@ == JsonView::Bool(b),
{
    (owned(name), Json::Bool(b))
}

fn str_field(name: &str, v: &str) -> (r: (String, Json))
    ensures
        r.0@ == name@,
        r.1@ == JsonView::Str(v@),
{
    (owned(name), Json::Str(owned(v)))
}

fn validation_error(head: &str, subject: &str, tail: &str) -> (r: ExecutionError)
    ensures
        r is ValidationError,
{
    let mut m = owned(head);
    m.append(subject);
    m.append(tail);
    ExecutionError::ValidationError(m)
}

impl ExecutionContext {
    /// Picks the tool for capability `cap`: among the listed tools that have
    /// a URL and a spec, the cheapest, then the fastest, then the first by
    /// name. The rationale lists every such candidate with its cost, latency
    /// and whether it fits the remaining budgets, which never excludes it.
    pub fn select_tool_for_capability(&self, capability: &str) -> (r: Option<CapabilityRouteDecision>)
        ensures
            r is None <==> !any_routable(*self, capability@),
            r matches Some(d) ==> selected_for(*self, capability@, d.tool_name@),
            r matches Some(d) ==> member(d.rationale@, "selected_tool"@) == Some(JsonView::Str(d.tool_name@))
                && member(d.rationale@, "capability"@) == Some(JsonView::Str(capability@)),
            r matches Some(d) ==> lists_candidates(d.rationale@, routable_names(*self, candidates(*self, capability@))),
    {
        let empty: Vec<String> = Vec::new();
        let cands: &Vec<String> = match find_entry(&self.capability_index, capability) {
            Some(v) => v,
            None => &empty,
        };
        assert(cands@ == candidates(*self, capability@));
        let (latency_budget, cost_cap) = self.budgets();
        let remaining_cost: Option<u64> = match cost_cap {
            Some(c) => Some(if c > self.total_cost_usd { c - self.total_cost_usd } else { 0 }),
            None => None,
        };
        let remaining_latency: Option<u64> = match latency_budget {
            Some(b) => Some(if b > self.total_latency_ms { b - self.total_latency_ms } else { 0 }),
            None => None,
        };
        let mut data: Vec<Json> = Vec::new();
        let mut best: Option<usize> = None;
        let mut best_cost: u64 = 0;
        let mut best_latency: u64 = 0;
        let mut i: usize = 0;
        while i < cands.len()
            invariant
                cands@ == candidates(*self, capability@),
                i <= cands@.len(),
                best is None <==> forall|j: int| 0 <= j < i ==> !routable(*self, (#[trigger] cands@[j])@),
                best matches Some(b) ==> b < i && routable(*self, cands@[b as int]@) && best_cost
                    == route_cost(*self, cands@[b as int]@) && best_latency == route_latency(
                    *self,
                    cands@[b as int]@,
                ) && forall|j: int|
                    0 <= j < i && routable(*self, (#[trigger] cands@[j])@) ==> !ranks_before(
                        *self,
                        cands@[j]@,
                        cands@[b as int]@,
                    ),
                data@.len() == routable_names(*self, cands@.subrange(0, i as int)).len(),
                forall|j: int| 0 <= j < data@.len() ==> member(
                    (#[trigger] data@[j])@,
                    "tool"@,
                ) == Some(JsonView::Str(routable_names(*self, cands@.subrange(0, i as int))[j])),
            decreases cands@.len() - i,
        {
            proof {
                assert(cands@.subrange(0, i as int + 1).drop_last() =~= cands@.subrange(0, i as int));
            }
            let name = &cands[i];
            let has_url = find_entry(&self.tool_urls, name.as_str()).is_some();
            let spec = find_entry(&self.tool_specs, name.as_str());
            if has_url && spec.is_some() {
                let spec = spec.unwrap();
                let cost = spec.cost();
                let latency = spec.latency();
                let mut entry_fields: Vec<(String, Json)> = Vec::new();
                entry_fields.push(str_field("tool", name.as_str()));
                entry_fields.push(dollars_field("cost_per_call_usd", cost));
                entry_fields.push(number_field("latency_p50_ms", latency));
                entry_fields.push(bool_field("budget_cost_headroom", match remaining_cost {
                    Some(r) => r >= cost,
                    None => true,
                }));
                entry_fields.push(bool_field("budget_latency_headroom", match remaining_latency {
                    Some(r) => r >= latency,
                    None => true,
                }));
                let entry = Json::Object(entry_fields);
                proof {
                    crate::json::lemma_members_view(entry_fields@);
                    crate::json::lemma_lookup_at(field_views(entry_fields@), "tool"@, 0);
                }
                data.push(entry);
                let better = match best {
                    None => true,
                    Some(b) => cost < best_cost || (cost == best_cost && (latency < best_latency || (
                    latency == best_latency && text_less(name.as_str(), cands[b].as_str())))),
                };
                proof {
                    assert(routable(*self, cands@[i as int]@));
                    lemma_text_lt_irreflexive(cands@[i as int]@);
                }
                if better {
                    proof {
                        if let Some(b) = best {
                            assert forall|j: int|
                                0 <= j < i + 1 && routable(*self, (#[trigger] cands@[j])@) implies !ranks_before(
                                *self,
                                cands@[j]@,
                                cands@[i as int]@,
                            ) by {
                                if j < i && ranks_before(*self, cands@[j]@, cands@[i as int]@) {
                                    lemma_ranks_transitive(*self, cands@[j]@, cands@[i as int]@, cands@[b as int]@);
                                }
                            }
                        }
                    }
                    best = Some(i);
                    best_cost = cost;
                    best_latency = latency;
                }
            }
            i += 1;
        }
        match best {
            Some(b) => {
                let mut fields: Vec<(String, Json)> = Vec::new();
                fields.push(str_field("capability", capability));
                fields.push(str_field("selected_tool", cands[b].as_str()));
                fields.push((owned("candidates"), Json::Array(data)));
                let rationale = Json::Object(fields);
                proof {
                    crate::json::lemma_members_view(fields@);
                    reveal_strlit("capability");
                    reveal_strlit("selected_tool");
                    reveal_strlit("candidates");
                    let fv = field_views(fields@);
                    assert(fv[0].0 == "capability"@);
                    assert("capability"@.len() != "selected_tool"@.len());
                    assert(fv[0].0 != "selected_tool"@);
                    crate::json::lemma_lookup_at(fv, "selected_tool"@, 1);
                    crate::json::lemma_lookup_at(fv, "capability"@, 0);
                    assert("capability"@[2] == 'p' && "candidates"@[2] == 'n' && "selected_tool"@[0] == 's' && "candidates"@[0] == 'c');
                    assert(fv[2].0 == "candidates"@);
                    crate::json::lemma_lookup_at(fv, "candidates"@, 2);
                    assert(cands@.subrange(0, cands@.len() as int) =~= cands@);
                    assert(crate::json::views(data@) =~= fv[2].1->Array_0);
                }
                Some(CapabilityRouteDecision { tool_name: cands[b].clone(), rationale })
            },
            None => None,
        }
    }

    /// Resolves the tool a node invokes: its named tool, which must have a
    /// URL; else the tool that routing its capability selects, recorded in a
    /// `capability_route` trace.
    pub fn resolve_tool(&mut self, node: &Node) -> (r: Result<ToolResolution, ExecutionError>)
        ensures
            same_state(*old(self), *final(self)),
            same_totals(*old(self), *final(self)),
            r is Err ==> r->Err_0 is ValidationError && final(self).trace_events == old(self).trace_events,
            node.tool matches Some(t) ==> (r is Ok <==> url_of(*old(self), t@) is Some),
            node.tool is Some && r is Ok ==> r->Ok_0.tool_name@ == node.tool->0@ && url_of(*old(self), node.tool->0@)
                == Some(r->Ok_0.tool_url) && r->Ok_0.capability is None && final(self).trace_events
                == old(self).trace_events,
            node.tool is None && node.capability is None ==> r is Err,
            node.tool is None && node.capability is Some ==> (r is Ok <==> any_routable(
                *old(self),
                node.capability->0@,
            )),
            node.tool is None && r is Ok ==> node.capability is Some && r->Ok_0.capability == node.capability
                && selected_for(*old(self), node.capability->0@, r->Ok_0.tool_name@) && url_of(
                *old(self),
                r->Ok_0.tool_name@,
            ) == Some(r->Ok_0.tool_url) && final(self).trace_events@.len() == old(self).trace_events@.len()
                + 1 && final(self).trace_events@.drop_last() == old(self).trace_events@
                && final(self).trace_events@.last().event_type@ == "capability_route"@
                && final(self).trace_events@.last().data is Some && member(
                final(self).trace_events@.last().data->0@,
                "selected_tool"@,
            ) == Some(JsonView::Str(r->Ok_0.tool_name@)),
            r is Ok <==> tool_resolves(*old(self), *node),
            r is Ok ==> r->Ok_0.tool_name@ == chosen_tool(*old(self), *node),
            node.tool is None && r is Ok ==> final(self).trace_events@.last().step_id@ == node.id@
                && member(final(self).trace_events@.last().data->0@, "capability"@) == Some(
                JsonView::Str(node.capability->0@),
            ) && lists_candidates(
                final(self).trace_events@.last().data->0@,
                routable_names(*old(self), candidates(*old(self), node.capability->0@)),
            ),
    {
        match &node.tool {
            Some(t) => {
                match find_entry(&self.tool_urls, t.as_str()) {
                    Some(url) => Ok(ToolResolution { tool_name: t.clone(), tool_url: url.clone(), capability: None }),
                    None => Err(validation_error("Tool ", t.as_str(), " not found in tool URLs")),
                }
            },
            None => {
                let cap = match &node.capability {
                    Some(c) => c,
                    None => {
                        return Err(validation_error("Node ", node.id.as_str(), " requires a tool or capability"));
                    },
                };
                let decision = match self.select_tool_for_capability(cap.as_str()) {
                    Some(d) => d,
                    None => {
                        return Err(validation_error("No tool available for capability ", cap.as_str(), ""));
                    },
                };
                proof {
                    let c = node.capability->0@;
                    let ch = chosen_tool(*old(self), *node);
                    assert(selected_for(*old(self), c, ch));
                    lemma_selection_unique(*old(self), c, ch, decision.tool_name@);
                }
                let url = match find_entry(&self.tool_urls, decision.tool_name.as_str()) {
                    Some(u) => u.clone(),
                    None => {
                        return Err(validation_error("Tool ", decision.tool_name.as_str(), " not found in tool URLs"));
                    },
                };
                let mut description = owned("Capability ");
                description.append(cap.as_str());
                description.append(" routed to tool ");
                description.append(decision.tool_name.as_str());
                let mut trace = Trace::new(owned("capability_route"), node.id.clone(), description);
                trace.data = Some(decision.rationale);
                self.trace_events.push(trace);
                proof {
                    assert(self.trace_events@.drop_last() =~= old(self).trace_events@);
                }
                Ok(ToolResolution { tool_name: decision.tool_name, tool_url: url, capability: Some(cap.clone()) })
            },
        }
    }
}

} // verus!
