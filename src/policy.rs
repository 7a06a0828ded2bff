//! The post-execution policy engine: a verdict over the traces, variables,
//! tool specs and evidence of a finished plan.
use crate::evidence::{mean_confidence, Evidence, EvidenceVerifier, MIN_STORAGE_CONFIDENCE};
use crate::evidence_json::{numeric, summary_facts, number_member, SummaryFacts};
use crate::json::{member, Json, JsonView};
use crate::plan::USD;
use crate::text::{contains_seq, contains_str, owned};
use crate::tools::{attribution_required, deny_patterns_of, ToolSpec};
use crate::trace::Trace;
use vstd::prelude::*;

verus! {

pub struct PolicyContext {
    pub evidence: Option<Evidence>,
    pub tool_specs: Vec<ToolSpec>,
    pub traces: Vec<Trace>,
    pub variables: Vec<(String, Json)>,
}

pub struct PolicyEngine;

pub struct PolicyResult {
    pub violations: Vec<PolicyViolation>,
    pub enforcement_actions: Vec<EnforcementAction>,
    pub allowed: bool,
}

pub struct PolicyViolation {
    pub rule: String,
    pub severity: PolicySeverity,
    pub message: String,
    pub details: Option<Json>,
}

#[derive(PartialEq, Eq, Structural, Clone, Copy, Debug)]
pub enum PolicySeverity {
    Warning,
    Error,
    Info,
}

pub struct EnforcementAction {
    pub action: String,
    pub target: String,
    pub details: Option<Json>,
}

pub enum PolicyError {
    /// In millionths.
    InsufficientEvidenceConfidence { mean_confidence: u64, required: u64 },
    Violation(String),
}

/// The mean confidence below which evidence earns a warning: 0.7.
pub const WARN_CONFIDENCE: u64 = 700_000;

/// The rules of a list of violations, in order.
pub open spec fn rules(v: Seq<PolicyViolation>) -> Seq<Seq<char>> {
    Seq::new(v.len(), |i: int| v[i].rule@)
}

/// The rules that evaluating a verification summary raises.
pub open spec fn summary_rules(v: JsonView) -> Seq<Seq<char>> {
    match summary_facts(v) {
        None => seq!["invalid_evidence_summary"@],
        Some(f) => (if f.0 == 0 {
            seq!["evidence_missing_claims"@]
        } else {
            Seq::empty()
        }) + (if f.2 < MIN_STORAGE_CONFIDENCE {
            seq!["evidence_confidence"@]
        } else {
            Seq::empty()
        }) + (if f.1 == 0 {
            seq!["evidence_missing_support"@]
        } else {
            Seq::empty()
        }),
    }
}

/// `total` exceeds `budget`, both read in nano units.
pub open spec fn over_budget(data: JsonView, total: Seq<char>, budget: Seq<char>) -> bool {
    numeric(data, total, 9) is Some && numeric(data, budget, 9) is Some
        && numeric(data, total, 9)->0 > numeric(data, budget, 9)->0
}

/// The rules that one trace raises.
pub open spec fn trace_rules_of(t: Trace) -> Seq<Seq<char>> {
    if t.event_type@ == "policy_violation"@ {
        seq!["tool_policy"@]
    } else if t.event_type@ == "budget_summary"@ {
        match t.data {
            Some(d) => (if over_budget(d@, "total_latency_ms"@, "latency_budget_ms"@) {
                seq!["latency_budget"@]
            } else {
                Seq::empty()
            }) + (if over_budget(d@, "total_cost_usd"@, "cost_cap_usd"@) {
                seq!["cost_cap"@]
            } else {
                Seq::empty()
            }),
            None => Seq::empty(),
        }
    } else if t.event_type@ == "evidence_summary"@ {
        match t.data {
            Some(d) => summary_rules(d@),
            None => seq!["invalid_evidence_summary"@],
        }
    } else {
        match t.cost_usd {
            Some(c) => if c > USD {
                seq!["cost_limit"@]
            } else {
                Seq::empty()
            },
            None => Seq::empty(),
        }
    }
}

pub open spec fn trace_rules(ts: Seq<Trace>) -> Seq<Seq<char>>
    decreases ts.len(),
{
    if ts.len() == 0 {
        Seq::empty()
    } else {
        trace_rules(ts.drop_last()) + trace_rules_of(ts.last())
    }
}

/// A variable whose name mentions `summary` holds a verification summary.
pub open spec fn is_summary_name(k: Seq<char>) -> bool {
    contains_seq(k, "summary"@)
}

pub open spec fn variable_rules(vs: Seq<(String, Json)>) -> Seq<Seq<char>>
    decreases vs.len(),
{
    if vs.len() == 0 {
        Seq::empty()
    } else {
        variable_rules(vs.drop_last()) + if is_summary_name(vs.last().0@) {
            summary_rules(vs.last().1@)
        } else {
            Seq::empty()
        }
    }
}

/// The number of evidence summary traces.
pub open spec fn trace_summaries(ts: Seq<Trace>) -> nat
    decreases ts.len(),
{
    if ts.len() == 0 {
        0
    } else {
        trace_summaries(ts.drop_last()) + if ts.last().event_type@ == "evidence_summary"@ {
            1nat
        } else {
            0nat
        }
    }
}

/// The number of variables that hold a summary.
pub open spec fn variable_summaries(vs: Seq<(String, Json)>) -> nat
    decreases vs.len(),
{
    if vs.len() == 0 {
        0
    } else {
        variable_summaries(vs.drop_last()) + if is_summary_name(vs.last().0@) {
            1nat
        } else {
            0nat
        }
    }
}

/// The number of evidence summaries among the traces and the variables.
pub open spec fn summary_count(ts: Seq<Trace>, vs: Seq<(String, Json)>) -> nat {
    trace_summaries(ts) + variable_summaries(vs)
}

/// Every rule that the engine raises for `ctx`, in order.
pub open spec fn violation_rules(ctx: PolicyContext) -> Seq<Seq<char>> {
    (match ctx.evidence {
        Some(ev) => if mean_confidence(ev) < WARN_CONFIDENCE {
            seq!["minimum_confidence"@]
        } else {
            Seq::empty()
        },
        None => Seq::empty(),
    }) + trace_rules(ctx.traces@) + variable_rules(ctx.variables@) + (if ctx.evidence is Some
        && summary_count(ctx.traces@, ctx.variables@) == 0 {
        seq!["missing_evidence_summary"@]
    } else {
        Seq::empty()
    })
}


/// The note that asks for sources.
pub open spec fn citation_note() -> Seq<char> {
    "\n\nSources: [Citations based on verification evidence]"@
}

/// `s` repeated `n` times.
pub open spec fn repeated(s: Seq<char>, n: nat) -> Seq<char>
    decreases n,
{
    if n == 0 {
        Seq::empty()
    } else {
        repeated(s, (n - 1) as nat) + s
    }
}

/// The number of specs that require attribution.
pub open spec fn attributing(specs: Seq<ToolSpec>) -> nat
    decreases specs.len(),
{
    if specs.len() == 0 {
        0
    } else {
        attributing(specs.drop_last()) + if attribution_required(specs.last()) {
            1nat
        } else {
            0nat
        }
    }
}

/// A response needs the sources note: the evidence has verdicts and the
/// response mentions neither `citation` nor `source`.
pub open spec fn needs_note(ctx: PolicyContext, response: Seq<char>) -> bool {
    &&& ctx.evidence matches Some(ev) && ev.verdicts matches Some(v) && v@.len() > 0
    &&& !contains_seq(response, "citation"@)
    &&& !contains_seq(response, "source"@)
}

/// The severity of a rule: warnings for low evidence confidence and
/// expensive traces, errors for everything else.
pub open spec fn severity_of(rule: Seq<char>) -> PolicySeverity {
    if rule == "minimum_confidence"@ || rule == "cost_limit"@ {
        PolicySeverity::Warning
    } else {
        PolicySeverity::Error
    }
}

/// Every violation carries its rule's severity.
pub open spec fn severities_ok(v: Seq<PolicyViolation>) -> bool {
    forall|i: int| 0 <= i < v.len() ==> (#[trigger] v[i]).severity == severity_of(v[i].rule@)
}

/// The messages of a list of violations, in order.
pub open spec fn messages(v: Seq<PolicyViolation>) -> Seq<Seq<char>> {
    Seq::new(v.len(), |i: int| v[i].message@)
}

/// `after` is `before` with violations appended, each with its rule's severity.
pub open spec fn appended_ok(before: Seq<PolicyViolation>, after: Seq<PolicyViolation>) -> bool {
    &&& before.len() <= after.len()
    &&& forall|i: int| 0 <= i < before.len() ==> #[trigger] after[i] == before[i]
    &&& forall|i: int| before.len() <= i < after.len() ==> (#[trigger] after[i]).severity == severity_of(after[i].rule@)
}

/// The targets of a list of actions, in order.
pub open spec fn action_targets(a: Seq<EnforcementAction>) -> Seq<Seq<char>> {
    Seq::new(a.len(), |i: int| a[i].target@)
}

/// The messages that evaluating a summary found at `origin` raises.
pub open spec fn summary_messages(origin: Seq<char>, v: JsonView) -> Seq<Seq<char>> {
    match summary_facts(v) {
        None => seq![origin + " evidence summary failed to parse"@],
        Some(f) => (if f.0 == 0 {
            seq![origin + " provided an evidence summary with no claims"@]
        } else {
            Seq::empty()
        }) + (if f.2 < MIN_STORAGE_CONFIDENCE {
            seq![origin + " mean confidence below 0.80"@]
        } else {
            Seq::empty()
        }) + (if f.1 == 0 {
            seq![origin + " verification summary has no supported claims"@]
        } else {
            Seq::empty()
        }),
    }
}

/// The target a clean summary found at `origin` earns.
pub open spec fn summary_targets(origin: Seq<char>, v: JsonView) -> Seq<Seq<char>> {
    if summary_rules(v).len() == 0 {
        seq![origin]
    } else {
        Seq::empty()
    }
}

/// The message of a tool-policy violation: the trace's description, or a
/// default.
pub open spec fn policy_violation_message(t: Trace) -> Seq<char> {
    match t.data {
        Some(d) => match member(d@, "description"@) {
            Some(JsonView::Str(m)) => m,
            _ => "Tool policy violation detected"@,
        },
        None => "Tool policy violation detected"@,
    }
}

/// The messages that one trace raises.
pub open spec fn trace_messages_of(t: Trace) -> Seq<Seq<char>> {
    if t.event_type@ == "policy_violation"@ {
        seq![policy_violation_message(t)]
    } else if t.event_type@ == "budget_summary"@ {
        match t.data {
            Some(d) => (if over_budget(d@, "total_latency_ms"@, "latency_budget_ms"@) {
                seq!["Latency budget exceeded"@]
            } else {
                Seq::empty()
            }) + (if over_budget(d@, "total_cost_usd"@, "cost_cap_usd"@) {
                seq!["Cost budget exceeded"@]
            } else {
                Seq::empty()
            }),
            None => Seq::empty(),
        }
    } else if t.event_type@ == "evidence_summary"@ {
        match t.data {
            Some(d) => summary_messages("trace:evidence_summary"@, d@),
            None => seq!["Evidence summary trace missing payload"@],
        }
    } else {
        match t.cost_usd {
            Some(c) => if c > USD {
                seq!["Trace cost exceeded threshold"@]
            } else {
                Seq::empty()
            },
            None => Seq::empty(),
        }
    }
}

pub open spec fn trace_targets_of(t: Trace) -> Seq<Seq<char>> {
    if t.event_type@ == "evidence_summary"@ && t.data is Some {
        summary_targets("trace:evidence_summary"@, t.data->0@)
    } else {
        Seq::empty()
    }
}

pub open spec fn trace_messages(ts: Seq<Trace>) -> Seq<Seq<char>>
    decreases ts.len(),
{
    if ts.len() == 0 {
        Seq::empty()
    } else {
        trace_messages(ts.drop_last()) + trace_messages_of(ts.last())
    }
}

pub open spec fn trace_targets(ts: Seq<Trace>) -> Seq<Seq<char>>
    decreases ts.len(),
{
    if ts.len() == 0 {
        Seq::empty()
    } else {
        trace_targets(ts.drop_last()) + trace_targets_of(ts.last())
    }
}

/// Where a summary held in variable `key` is reported from.
pub open spec fn variable_origin(key: Seq<char>) -> Seq<char> {
    "variable:"@ + key
}

pub open spec fn variable_messages(vs: Seq<(String, Json)>) -> Seq<Seq<char>>
    decreases vs.len(),
{
    if vs.len() == 0 {
        Seq::empty()
    } else {
        variable_messages(vs.drop_last()) + if is_summary_name(vs.last().0@) {
            summary_messages(variable_origin(vs.last().0@), vs.last().1@)
        } else {
            Seq::empty()
        }
    }
}

pub open spec fn variable_targets(vs: Seq<(String, Json)>) -> Seq<Seq<char>>
    decreases vs.len(),
{
    if vs.len() == 0 {
        Seq::empty()
    } else {
        variable_targets(vs.drop_last()) + if is_summary_name(vs.last().0@) {
            summary_targets(variable_origin(vs.last().0@), vs.last().1@)
        } else {
            Seq::empty()
        }
    }
}

/// The targets of the actions that one tool spec calls for: the tool's name.
pub open spec fn spec_targets_of(sp: ToolSpec) -> Seq<Seq<char>> {
    Seq::new(deny_patterns_of(sp).len(), |i: int| sp.name@) + if attribution_required(sp) {
        seq![sp.name@]
    } else {
        Seq::empty()
    }
}

pub open spec fn spec_targets(specs: Seq<ToolSpec>) -> Seq<Seq<char>>
    decreases specs.len(),
{
    if specs.len() == 0 {
        Seq::empty()
    } else {
        spec_targets(specs.drop_last()) + spec_targets_of(specs.last())
    }
}

/// Every message that the engine gives for `ctx`, in order.
pub open spec fn violation_messages(ctx: PolicyContext) -> Seq<Seq<char>> {
    (match ctx.evidence {
        Some(ev) => if mean_confidence(ev) < WARN_CONFIDENCE {
            seq!["Mean evidence confidence is below threshold"@]
        } else {
            Seq::empty()
        },
        None => Seq::empty(),
    }) + trace_messages(ctx.traces@) + variable_messages(ctx.variables@) + (if ctx.evidence is Some
        && summary_count(ctx.traces@, ctx.variables@) == 0 {
        seq!["Evidence supplied but no verification summary found"@]
    } else {
        Seq::empty()
    })
}

/// The target of every action that the engine takes for `ctx`, in order.
pub open spec fn enforcement_targets(ctx: PolicyContext) -> Seq<Seq<char>> {
    spec_targets(ctx.tool_specs@) + trace_targets(ctx.traces@) + (if budget_traces(ctx.traces@) == 0 {
        seq!["plan"@]
    } else {
        Seq::empty()
    }) + variable_targets(ctx.variables@)
}

/// Appending violations with their rules' severities keeps every severity right.
proof fn lemma_severities_extend(before: Seq<PolicyViolation>, after: Seq<PolicyViolation>)
    requires
        severities_ok(before),
        appended_ok(before, after),
    ensures
        severities_ok(after),
{
    assert forall|i: int| 0 <= i < after.len() implies (#[trigger] after[i]).severity == severity_of(after[i].rule@) by {
        if i < before.len() {
            assert(after[i] == before[i]);
        }
    }
}

proof fn lemma_appended_trans(a: Seq<PolicyViolation>, b: Seq<PolicyViolation>, c: Seq<PolicyViolation>)
    requires
        appended_ok(a, b),
        appended_ok(b, c),
    ensures
        appended_ok(a, c),
{
    assert forall|i: int| 0 <= i < a.len() implies #[trigger] c[i] == a[i] by {
        assert(c[i] == b[i]);
    }
    assert forall|i: int| a.len() <= i < c.len() implies (#[trigger] c[i]).severity == severity_of(c[i].rule@) by {
        if i < b.len() {
            assert(c[i] == b[i]);
        }
    }
}

/// The actions of a list, in order.
pub open spec fn action_names(a: Seq<EnforcementAction>) -> Seq<Seq<char>> {
    Seq::new(a.len(), |i: int| a[i].action@)
}

/// The actions that one tool spec calls for: a pattern check per deny
/// pattern, then an attribution check when it requires attribution.
pub open spec fn spec_actions_of(sp: ToolSpec) -> Seq<Seq<char>> {
    Seq::new(deny_patterns_of(sp).len(), |i: int| "check_pattern"@) + if attribution_required(sp) {
        seq!["verify_attribution"@]
    } else {
        Seq::empty()
    }
}

pub open spec fn spec_actions(specs: Seq<ToolSpec>) -> Seq<Seq<char>>
    decreases specs.len(),
{
    if specs.len() == 0 {
        Seq::empty()
    } else {
        spec_actions(specs.drop_last()) + spec_actions_of(specs.last())
    }
}

/// The action a clean evidence summary earns.
pub open spec fn summary_actions(v: JsonView) -> Seq<Seq<char>> {
    if summary_rules(v).len() == 0 {
        seq!["evidence_summary_valid"@]
    } else {
        Seq::empty()
    }
}

pub open spec fn trace_actions_of(t: Trace) -> Seq<Seq<char>> {
    if t.event_type@ == "evidence_summary"@ && t.data is Some {
        summary_actions(t.data->0@)
    } else {
        Seq::empty()
    }
}

pub open spec fn trace_actions(ts: Seq<Trace>) -> Seq<Seq<char>>
    decreases ts.len(),
{
    if ts.len() == 0 {
        Seq::empty()
    } else {
        trace_actions(ts.drop_last()) + trace_actions_of(ts.last())
    }
}

pub open spec fn variable_actions(vs: Seq<(String, Json)>) -> Seq<Seq<char>>
    decreases vs.len(),
{
    if vs.len() == 0 {
        Seq::empty()
    } else {
        variable_actions(vs.drop_last()) + if is_summary_name(vs.last().0@) {
            summary_actions(vs.last().1@)
        } else {
            Seq::empty()
        }
    }
}

pub open spec fn budget_traces(ts: Seq<Trace>) -> nat
    decreases ts.len(),
{
    if ts.len() == 0 {
        0
    } else {
        budget_traces(ts.drop_last()) + if ts.last().event_type@ == "budget_summary"@ {
            1nat
        } else {
            0nat
        }
    }
}

/// Every action that the engine takes for `ctx`, in order.
pub open spec fn enforcement_actions(ctx: PolicyContext) -> Seq<Seq<char>> {
    spec_actions(ctx.tool_specs@) + trace_actions(ctx.traces@) + (if budget_traces(ctx.traces@) == 0 {
        seq!["emit_budget_summary"@]
    } else {
        Seq::empty()
    }) + variable_actions(ctx.variables@)
}

fn add_violation(
    violations: &mut Vec<PolicyViolation>,
    rule: &str,
    message: String,
    details: Option<Json>,
)
    ensures
        rules(final(violations)@) == rules(old(violations)@).push(rule@),
        messages(final(violations)@) == messages(old(violations)@).push(message@),
        appended_ok(old(violations)@, final(violations)@),
{
    let severity = if crate::text::str_eq(rule, "minimum_confidence") || crate::text::str_eq(rule, "cost_limit") {
        PolicySeverity::Warning
    } else {
        PolicySeverity::Error
    };
    let ghost m = message@;
    violations.push(PolicyViolation { rule: owned(rule), severity, message, details });
    assert(rules(violations@) =~= rules(old(violations)@).push(rule@));
    assert(messages(violations@) =~= messages(old(violations)@).push(m));
}

fn add_action(actions: &mut Vec<EnforcementAction>, action: &str, target: String, details: Option<Json>)
    ensures
        action_names(final(actions)@) == action_names(old(actions)@).push(action@),
        action_targets(final(actions)@) == action_targets(old(actions)@).push(target@),
{
    let ghost t = target@;
    actions.push(EnforcementAction { action: owned(action), target, details });
    assert(action_names(actions@) =~= action_names(old(actions)@).push(action@));
    assert(action_targets(actions@) =~= action_targets(old(actions)@).push(t));
}

fn copy_opt(v: Option<&Json>) -> Option<Json> {
    match v {
        Some(j) => Some(j.copy()),
        None => None,
    }
}

fn origin_message(origin: &String, tail: &str) -> (r: String)
    ensures
        r@ == origin@ + tail@,
{
    let mut m = origin.clone();
    m.append(tail);
    m
}

impl PolicyEngine {
    /// Evaluates a verification summary found at `origin`: a summary with
    /// no claims, a mean confidence below 0.8 or no supported claim raises
    /// an error each; one that does not parse raises
    /// `invalid_evidence_summary`; a clean one earns an
    /// `evidence_summary_valid` action. Returns whether it was clean.
    pub fn evaluate_summary_value(
        origin: &String,
        value: &Json,
        violations: &mut Vec<PolicyViolation>,
        enforcement_actions: &mut Vec<EnforcementAction>,
    ) -> (r: bool)
        ensures
            rules(final(violations)@) == rules(old(violations)@) + summary_rules(value@),
            messages(final(violations)@) == messages(old(violations)@) + summary_messages(origin@, value@),
            appended_ok(old(violations)@, final(violations)@),
            r == (summary_rules(value@).len() == 0),
            action_names(final(enforcement_actions)@) == action_names(old(enforcement_actions)@) + summary_actions(value@),
            action_targets(final(enforcement_actions)@) == action_targets(old(enforcement_actions)@) + summary_targets(origin@, value@),
    {
        let ghost start = rules(violations@);
        let ghost mstart = messages(violations@);
        let ghost vstart = violations@;
        let ghost astart = action_names(enforcement_actions@);
        let ghost tstart = action_targets(enforcement_actions@);
        match SummaryFacts::from_json(value) {
            Some(f) => {
                let mut valid = true;
                if f.total_claims == 0 {
                    valid = false;
                    add_violation(violations, "evidence_missing_claims",
                        origin_message(origin, " provided an evidence summary with no claims"), Some(value.copy()));
                }
                if f.mean_confidence < MIN_STORAGE_CONFIDENCE as u128 {
                    valid = false;
                    add_violation(violations, "evidence_confidence",
                        origin_message(origin, " mean confidence below 0.80"), Some(value.copy()));
                }
                if f.supported_claims == 0 {
                    valid = false;
                    add_violation(violations, "evidence_missing_support",
                        origin_message(origin, " verification summary has no supported claims"), Some(value.copy()));
                }
                proof {
                    assert(rules(violations@) =~= start + summary_rules(value@));
                    assert(messages(violations@) =~= mstart + summary_messages(origin@, value@));
                }
                if valid {
                    add_action(enforcement_actions, "evidence_summary_valid", origin.clone(), Some(value.copy()));
                }
                proof {
                    assert(action_names(enforcement_actions@) =~= astart + summary_actions(value@));
                    assert(action_targets(enforcement_actions@) =~= tstart + summary_targets(origin@, value@));
                }
                valid
            },
            None => {
                add_violation(violations, "invalid_evidence_summary",
                    origin_message(origin, " evidence summary failed to parse"), Some(value.copy()));
                proof {
                    assert(rules(violations@) =~= start + summary_rules(value@));
                    assert(messages(violations@) =~= mstart + summary_messages(origin@, value@));
                    assert(action_names(enforcement_actions@) =~= astart + summary_actions(value@));
                    assert(action_targets(enforcement_actions@) =~= tstart + summary_targets(origin@, value@));
                }
                false
            },
        }
    }

    /// Evaluates one trace (see `trace_rules_of`); says whether it was a
    /// budget summary and whether it was an evidence summary.
    fn evaluate_trace(
        trace: &Trace,
        violations: &mut Vec<PolicyViolation>,
        actions: &mut Vec<EnforcementAction>,
    ) -> (r: (bool, bool))
        ensures
            rules(final(violations)@) == rules(old(violations)@) + trace_rules_of(*trace),
            messages(final(violations)@) == messages(old(violations)@) + trace_messages_of(*trace),
            appended_ok(old(violations)@, final(violations)@),
            action_names(final(actions)@) == action_names(old(actions)@) + trace_actions_of(*trace),
            action_targets(final(actions)@) == action_targets(old(actions)@) + trace_targets_of(*trace),
            r.0 == (trace.event_type@ == "budget_summary"@),
            r.1 == (trace.event_type@ == "evidence_summary"@),
    {
        proof {
            reveal_strlit("budget_summary");
            reveal_strlit("policy_violation");
            reveal_strlit("evidence_summary");
            assert("budget_summary"@[0] == 'b' && "policy_violation"@[0] == 'p' && "evidence_summary"@[0] == 'e');
        }
        let ghost before = rules(violations@);
        let ghost mbefore = messages(violations@);
        let ghost v0 = violations@;
        let ghost abefore = action_names(actions@);
        let ghost tbefore = action_targets(actions@);
        let mut budget = false;
        let mut summary = false;
        if crate::text::str_eq(trace.event_type.as_str(), "policy_violation") {
            let message = match &trace.data {
                Some(d) => match d.get("description") {
                    Some(Json::Str(m)) => m.clone(),
                    _ => owned("Tool policy violation detected"),
                },
                None => owned("Tool policy violation detected"),
            };
            add_violation(violations, "tool_policy", message, copy_opt(trace.data.as_ref()));
        } else if crate::text::str_eq(trace.event_type.as_str(), "budget_summary") {
            budget = true;
            if let Some(d) = &trace.data {
                let total_latency = number_member(d, "total_latency_ms", 9);
                let latency_budget = number_member(d, "latency_budget_ms", 9);
                if total_latency.is_some() && latency_budget.is_some()
                    && total_latency.unwrap() > latency_budget.unwrap() {
                    add_violation(violations, "latency_budget", owned("Latency budget exceeded"), None);
                }
                let ghost v1 = violations@;
                let total_cost = number_member(d, "total_cost_usd", 9);
                let cost_cap = number_member(d, "cost_cap_usd", 9);
                if total_cost.is_some() && cost_cap.is_some()
                    && total_cost.unwrap() > cost_cap.unwrap() {
                    add_violation(violations, "cost_cap", owned("Cost budget exceeded"), None);
                }
                proof {
                    lemma_appended_trans(v0, v1, violations@);
                }
            }
        } else if crate::text::str_eq(trace.event_type.as_str(), "evidence_summary") {
            summary = true;
            match &trace.data {
                Some(d) => {
                    PolicyEngine::evaluate_summary_value(&owned("trace:evidence_summary"), d, violations, actions);
                },
                None => {
                    add_violation(violations, "invalid_evidence_summary",
                        owned("Evidence summary trace missing payload"), None);
                },
            }
        } else if let Some(cost) = trace.cost_usd {
            if cost > USD {
                add_violation(violations, "cost_limit", owned("Trace cost exceeded threshold"), None);
            }
        }
        proof {
            assert(rules(violations@) =~= before + trace_rules_of(*trace));
            assert(messages(violations@) =~= mbefore + trace_messages_of(*trace));
            assert(action_names(actions@) =~= abefore + trace_actions_of(*trace));
            assert(action_targets(actions@) =~= tbefore + trace_targets_of(*trace));
            if violations@ == v0 {
                assert(appended_ok(v0, violations@));
            }
        }
        (budget, summary)
    }

    /// The verdict over a finished plan: the violations its evidence,
    /// traces and variables raise (see `violation_rules`), the enforcement
    /// actions that its tool specs call for, and whether it is allowed,
    /// which holds exactly when there is no violation.
    #[verifier::rlimit(50)]
    pub fn enforce_policies(&self, ctx: &PolicyContext) -> (r: Result<PolicyResult, PolicyError>)
        ensures
            r is Ok,
            rules(r->Ok_0.violations@) == violation_rules(*ctx),
            severities_ok(r->Ok_0.violations@),
            action_names(r->Ok_0.enforcement_actions@) == enforcement_actions(*ctx),
            messages(r->Ok_0.violations@) == violation_messages(*ctx),
            action_targets(r->Ok_0.enforcement_actions@) == enforcement_targets(*ctx),
            r->Ok_0.allowed == (r->Ok_0.violations@.len() == 0),
    {
        let mut violations: Vec<PolicyViolation> = Vec::new();
        let mut actions: Vec<EnforcementAction> = Vec::new();
        let mut has_summary: bool = false;
        if let Some(ev) = &ctx.evidence {
            let verification = EvidenceVerifier.verify_evidence(ev);
            if verification.mean_confidence < WARN_CONFIDENCE {
                add_violation(&mut violations, "minimum_confidence",
                    owned("Mean evidence confidence is below threshold"), None);
            }
        }
        let ghost head = rules(violations@);
        let ghost mhead = messages(violations@);
        assert(mhead =~= (match ctx.evidence {
            Some(ev) => if mean_confidence(ev) < WARN_CONFIDENCE { seq!["Mean evidence confidence is below threshold"@] } else { Seq::empty() },
            None => Seq::<Seq<char>>::empty(),
        }));
        assert(head =~= (match ctx.evidence {
            Some(ev) => if mean_confidence(ev) < WARN_CONFIDENCE { seq!["minimum_confidence"@] } else { Seq::empty() },
            None => Seq::<Seq<char>>::empty(),
        }));
        let mut s: usize = 0;
        while s < ctx.tool_specs.len()
            invariant
                s <= ctx.tool_specs@.len(),
                rules(violations@) == head,
                messages(violations@) == mhead,
                severities_ok(violations@),
                action_names(actions@) == spec_actions(ctx.tool_specs@.subrange(0, s as int)),
                action_targets(actions@) == spec_targets(ctx.tool_specs@.subrange(0, s as int)),
            decreases ctx.tool_specs@.len() - s,
        {
            proof {
                assert(ctx.tool_specs@.subrange(0, s as int + 1).drop_last() =~= ctx.tool_specs@.subrange(0, s as int));
            }
            let ghost a0 = action_names(actions@);
            let ghost g0 = action_targets(actions@);
            let spec = &ctx.tool_specs[s];
            if let Some(policy) = &spec.policy {
                if let Some(patterns) = &policy.deny_if {
                    let mut p: usize = 0;
                    while p < patterns.len()
                        invariant
                            p <= patterns@.len(),
                            action_names(actions@) == a0 + Seq::new(p as nat, |i: int| "check_pattern"@),
                            action_targets(actions@) == g0 + Seq::new(p as nat, |i: int| spec.name@),
                        decreases patterns@.len() - p,
                    {
                        let mut details: Vec<(String, Json)> = Vec::new();
                        details.push((owned("pattern"), Json::Str(patterns[p].clone())));
                        add_action(&mut actions, "check_pattern", spec.name.clone(), Some(Json::Object(details)));
                        proof {
                            assert(a0 + Seq::new((p + 1) as nat, |i: int| "check_pattern"@) =~= (a0 + Seq::new(p as nat, |i: int| "check_pattern"@)).push("check_pattern"@));
                            assert(g0 + Seq::new((p + 1) as nat, |i: int| spec.name@) =~= (g0 + Seq::new(p as nat, |i: int| spec.name@)).push(spec.name@));
                        }
                        p += 1;
                    }
                }
            }
            if spec.requires_attribution() {
                let mut details: Vec<(String, Json)> = Vec::new();
                details.push((owned("attribution_required"), Json::Bool(true)));
                add_action(&mut actions, "verify_attribution", spec.name.clone(), Some(Json::Object(details)));
            }
            proof {
                let sp = ctx.tool_specs@[s as int];
                assert(Seq::new(deny_patterns_of(sp).len(), |i: int| "check_pattern"@) =~= Seq::new(deny_patterns_of(sp).len(), |i: int| "check_pattern"@));
                assert(action_names(actions@) =~= a0 + spec_actions_of(sp));
                assert(action_targets(actions@) =~= g0 + spec_targets_of(sp));
            }
            s += 1;
        }
        proof {
            assert(ctx.tool_specs@.subrange(0, ctx.tool_specs@.len() as int) =~= ctx.tool_specs@);
        }
        let mut seen_budget = false;
        let mut t: usize = 0;
        while t < ctx.traces.len()
            invariant
                t <= ctx.traces@.len(),
                severities_ok(violations@),
                action_names(actions@) == spec_actions(ctx.tool_specs@) + trace_actions(ctx.traces@.subrange(0, t as int)),
                action_targets(actions@) == spec_targets(ctx.tool_specs@) + trace_targets(ctx.traces@.subrange(0, t as int)),
                messages(violations@) == mhead + trace_messages(ctx.traces@.subrange(0, t as int)),
                seen_budget == (budget_traces(ctx.traces@.subrange(0, t as int)) > 0),
                rules(violations@) == head + trace_rules(ctx.traces@.subrange(0, t as int)),
                has_summary == (trace_summaries(ctx.traces@.subrange(0, t as int)) > 0),
            decreases ctx.traces@.len() - t,
        {
            proof {
                assert(ctx.traces@.subrange(0, t as int + 1).drop_last() =~= ctx.traces@.subrange(0, t as int));
            }
            let ghost before = rules(violations@);
            let ghost abefore = action_names(actions@);
            let ghost vbefore = violations@;
            let (budget, summary) = PolicyEngine::evaluate_trace(&ctx.traces[t], &mut violations, &mut actions);
            if budget {
                seen_budget = true;
            }
            if summary {
                has_summary = true;
            }
            proof {
                assert(action_names(actions@) =~= spec_actions(ctx.tool_specs@) + trace_actions(ctx.traces@.subrange(0, t as int + 1)));
                assert(action_targets(actions@) =~= spec_targets(ctx.tool_specs@) + trace_targets(ctx.traces@.subrange(0, t as int + 1)));
                assert(messages(violations@) =~= mhead + trace_messages(ctx.traces@.subrange(0, t as int + 1)));
                lemma_severities_extend(vbefore, violations@);
            }
            t += 1;
        }
        proof {
            assert(ctx.traces@.subrange(0, ctx.traces@.len() as int) =~= ctx.traces@);
        }
        if !seen_budget {
            let mut details: Vec<(String, Json)> = Vec::new();
            details.push((owned("note"), Json::Str(owned("Missing budget summary trace"))));
            add_action(&mut actions, "emit_budget_summary", owned("plan"), Some(Json::Object(details)));
        }
        let mut v: usize = 0;
        assert(variable_summaries(ctx.variables@.subrange(0, 0)) == 0);
        assert(action_names(actions@) =~= spec_actions(ctx.tool_specs@) + trace_actions(ctx.traces@) + (if budget_traces(ctx.traces@) == 0 {
            seq!["emit_budget_summary"@]
        } else {
            Seq::empty()
        }) + variable_actions(ctx.variables@.subrange(0, 0)));
        assert(action_targets(actions@) =~= spec_targets(ctx.tool_specs@) + trace_targets(ctx.traces@) + (if budget_traces(ctx.traces@) == 0 {
            seq!["plan"@]
        } else {
            Seq::empty()
        }) + variable_targets(ctx.variables@.subrange(0, 0)));
        assert(messages(violations@) =~= mhead + trace_messages(ctx.traces@) + variable_messages(ctx.variables@.subrange(0, 0)));
        while v < ctx.variables.len()
            invariant
                v <= ctx.variables@.len(),
                severities_ok(violations@),
                action_names(actions@) == spec_actions(ctx.tool_specs@) + trace_actions(ctx.traces@) + (if budget_traces(ctx.traces@) == 0 {
                    seq!["emit_budget_summary"@]
                } else {
                    Seq::empty()
                }) + variable_actions(ctx.variables@.subrange(0, v as int)),
                action_targets(actions@) == spec_targets(ctx.tool_specs@) + trace_targets(ctx.traces@) + (if budget_traces(ctx.traces@) == 0 {
                    seq!["plan"@]
                } else {
                    Seq::empty()
                }) + variable_targets(ctx.variables@.subrange(0, v as int)),
                messages(violations@) == mhead + trace_messages(ctx.traces@) + variable_messages(ctx.variables@.subrange(0, v as int)),
                rules(violations@) == head + trace_rules(ctx.traces@) + variable_rules(ctx.variables@.subrange(0, v as int)),
                has_summary == (summary_count(ctx.traces@, ctx.variables@.subrange(0, v as int)) > 0),
            decreases ctx.variables@.len() - v,
        {
            proof {
                assert(ctx.variables@.subrange(0, v as int + 1).drop_last() =~= ctx.variables@.subrange(0, v as int));
            }
            let ghost before = rules(violations@);
            let ghost abefore = action_names(actions@);
            let ghost tb = action_targets(actions@);
            let ghost mb = messages(violations@);
            let ghost vbefore = violations@;
            let key = &ctx.variables[v].0;
            if contains_str(key.as_str(), "summary") {
                has_summary = true;
                let mut origin = owned("variable:");
                origin.append(key.as_str());
                PolicyEngine::evaluate_summary_value(&origin, &ctx.variables[v].1, &mut violations, &mut actions);
            }
            proof {
                assert(rules(violations@) =~= before + (if is_summary_name(ctx.variables@[v as int].0@) {
                    summary_rules(ctx.variables@[v as int].1@)
                } else {
                    Seq::empty()
                }));
                assert(action_names(actions@) =~= abefore + (if is_summary_name(ctx.variables@[v as int].0@) {
                    summary_actions(ctx.variables@[v as int].1@)
                } else {
                    Seq::empty()
                }));
                assert(action_targets(actions@) =~= tb + (if is_summary_name(ctx.variables@[v as int].0@) {
                    summary_targets(variable_origin(ctx.variables@[v as int].0@), ctx.variables@[v as int].1@)
                } else {
                    Seq::empty()
                }));
                assert(messages(violations@) =~= mb + (if is_summary_name(ctx.variables@[v as int].0@) {
                    summary_messages(variable_origin(ctx.variables@[v as int].0@), ctx.variables@[v as int].1@)
                } else {
                    Seq::empty()
                }));
                if violations@ != vbefore {
                    lemma_severities_extend(vbefore, violations@);
                }
            }
            v += 1;
        }
        proof {
            assert(ctx.variables@.subrange(0, ctx.variables@.len() as int) =~= ctx.variables@);
        }
        let ghost mid = rules(violations@);
        if ctx.evidence.is_some() && !has_summary {
            add_violation(&mut violations, "missing_evidence_summary",
                owned("Evidence supplied but no verification summary found"), None);
        }
        proof {
            assert(rules(violations@) =~= violation_rules(*ctx));
            assert(action_names(actions@) =~= enforcement_actions(*ctx));
            assert(action_targets(actions@) =~= enforcement_targets(*ctx));
            assert(messages(violations@) =~= violation_messages(*ctx));
        }
        let allowed = violations.len() == 0;
        Ok(PolicyResult { violations, enforcement_actions: actions, allowed })
    }

    /// Adds a sources note to a response once for every tool spec that
    /// requires attribution, when the evidence has verdicts and the response
    /// mentions neither `citation` nor `source`.
    pub fn check_response_policy(&self, response: &str, ctx: &PolicyContext) -> (r: Result<String, PolicyError>)
        ensures
            r is Ok,
            r->Ok_0@ == response@ + repeated(citation_note(), if needs_note(*ctx, response@) {
                attributing(ctx.tool_specs@)
            } else {
                0
            }),
    {
        let mut out = owned(response);
        let has_verdicts = match &ctx.evidence {
            Some(ev) => match &ev.verdicts {
                Some(v) => v.len() > 0,
                None => false,
            },
            None => false,
        };
        let cited = contains_str(response, "citation") || contains_str(response, "source");
        let note = has_verdicts && !cited;
        let mut i: usize = 0;
        while i < ctx.tool_specs.len()
            invariant
                i <= ctx.tool_specs@.len(),
                note == needs_note(*ctx, response@),
                out@ == response@ + repeated(citation_note(), if note { attributing(ctx.tool_specs@.subrange(0, i as int)) } else { 0 }),
            decreases ctx.tool_specs@.len() - i,
        {
            proof {
                assert(ctx.tool_specs@.subrange(0, i as int + 1).drop_last() =~= ctx.tool_specs@.subrange(0, i as int));
            }
            if ctx.tool_specs[i].requires_attribution() && note {
                let ghost before = out@;
                out.append("\n\nSources: [Citations based on verification evidence]");
                proof {
                    let n = attributing(ctx.tool_specs@.subrange(0, i as int));
                    assert(repeated(citation_note(), n + 1) == repeated(citation_note(), n) + citation_note());
                    assert(out@ =~= response@ + repeated(citation_note(), n + 1));
                }
            }
            i += 1;
        }
        proof {
            assert(ctx.tool_specs@.subrange(0, ctx.tool_specs@.len() as int) =~= ctx.tool_specs@);
        }
        Ok(out)
    }

    /// Memory writes need evidence whose mean verdict confidence is at least 0.8.
    pub fn check_memory_write_policy(&self, evidence: Option<&Evidence>) -> (r: Result<(), PolicyError>)
        ensures
            r is Ok <==> (evidence matches Some(ev) && mean_confidence(*ev) >= MIN_STORAGE_CONFIDENCE),
            r matches Err(PolicyError::InsufficientEvidenceConfidence { mean_confidence: m, required })
                ==> required == MIN_STORAGE_CONFIDENCE && (evidence matches Some(ev) ==> m == mean_confidence(*ev))
                && (evidence is None ==> m == 0),
            r is Err ==> r->Err_0 is InsufficientEvidenceConfidence,
    {
        match evidence {
            Some(ev) => {
                let verification = EvidenceVerifier.verify_evidence(ev);
                if verification.mean_confidence < MIN_STORAGE_CONFIDENCE {
                    return Err(PolicyError::InsufficientEvidenceConfidence {
                        mean_confidence: verification.mean_confidence,
                        required: MIN_STORAGE_CONFIDENCE,
                    });
                }
                Ok(())
            },
            None => Err(PolicyError::InsufficientEvidenceConfidence { mean_confidence: 0, required: MIN_STORAGE_CONFIDENCE }),
        }
    }
}

} // verus!
