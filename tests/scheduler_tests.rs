use amp::context::{ExecutionContext, ExecutionError};
use amp::json::Json;
use amp::ops::{Invocation, Outcome, RetryStep};
use amp::plan::{Edge, Node, Operation, Plan, Signals, USD};
use amp::scheduler::Scheduler;
use amp::tools::{Constraints, IoSpec, Policy, Schema, ToolSpec};

fn s(t: &str) -> Json {
    Json::Str(t.to_string())
}

fn num(t: &str) -> Json {
    Json::Number(t.to_string())
}

fn obj(fields: Vec<(&str, Json)>) -> Json {
    Json::Object(fields.into_iter().map(|(k, v)| (k.to_string(), v)).collect())
}

fn args(fields: Vec<(&str, Json)>) -> Option<Vec<(String, Json)>> {
    Some(fields.into_iter().map(|(k, v)| (k.to_string(), v)).collect())
}

fn out(name: &str) -> Option<Vec<(String, String)>> {
    Some(vec![(name.to_string(), "result".to_string())])
}

fn tool_spec(name: &str, cost: u64, latency: u32, caps: &[&str], deny: &[&str]) -> ToolSpec {
    let schema = || Schema { schema_type: "object".to_string(), properties: None, required: None, items: None };
    ToolSpec {
        name: name.to_string(),
        description: None,
        io: IoSpec { input: schema(), output: schema() },
        capabilities: if caps.is_empty() { None } else { Some(caps.iter().map(|c| c.to_string()).collect()) },
        constraints: Some(Constraints {
            input_tokens_max: None,
            latency_p50_ms: Some(latency),
            cost_per_call_usd: Some(cost),
            rate_limit_qps: None,
            side_effects: None,
        }),
        provenance: None,
        quality: None,
        policy: if deny.is_empty() { None } else { Some(Policy { deny_if: Some(deny.iter().map(|d| d.to_string()).collect()) }) },
    }
}

fn node(id: &str, op: Operation, tool: Option<&str>) -> Node {
    Node { id: id.to_string(), op, tool: tool.map(|t| t.to_string()), capability: None, args: None, bind: None, out: None }
}

fn context_with(tools: Vec<(&str, ToolSpec)>) -> ExecutionContext {
    let mut ctx = ExecutionContext::new();
    for (url_port, spec) in tools.into_iter().enumerate().map(|(i, (n, sp))| ((n.to_string(), format!("http://localhost:{}", 7401 + i)), sp)) {
        ctx.tool_urls.push((url_port.0.clone(), url_port.1));
        ctx.register_tool_spec(url_port.0, spec);
    }
    ctx
}

fn var<'a>(ctx: &'a ExecutionContext, name: &str) -> Option<&'a Json> {
    ctx.variables.iter().find(|(k, _)| k == name).map(|(_, v)| v)
}

fn has_event(ctx: &ExecutionContext, event: &str) -> bool {
    ctx.trace_events.iter().any(|t| t.event_type == event)
}

fn text(v: &Json) -> String {
    v.to_text()
}

/// Runs a plan the way the kernel's driver does, answering every tool
/// invocation with `respond`.
fn run(
    ctx: &mut ExecutionContext,
    plan: &Plan,
    respond: &dyn Fn(&str, &Json) -> Outcome,
) -> Result<(), ExecutionError> {
    let scheduler = Scheduler;
    scheduler.prepare_plan(ctx, plan)?;
    let mut run = scheduler.start_run(ctx, plan);
    while let Some(idx) = Scheduler::next_node(ctx, plan, &mut run)? {
        let node = &plan.nodes[idx];
        let result = run_node(&scheduler, ctx, node, respond);
        Scheduler::node_done(ctx, plan, idx, result)?;
    }
    Ok(())
}

fn run_node(
    scheduler: &Scheduler,
    ctx: &mut ExecutionContext,
    node: &Node,
    respond: &dyn Fn(&str, &Json) -> Outcome,
) -> Result<(), ExecutionError> {
    match node.op {
        Operation::Call => {
            let inv: Invocation = scheduler.begin_call(ctx, node)?;
            let outcome = respond(&inv.tool_name, &inv.args);
            scheduler.finish_call(ctx, node, &inv, outcome, 12)
        }
        Operation::Verify => {
            let inv = scheduler.begin_verify(ctx, node)?;
            let outcome = respond(&inv.tool_name, &inv.args);
            scheduler.finish_verify(ctx, node, &inv, outcome, 20)
        }
        Operation::MemWrite => {
            let call = scheduler.begin_mem_write(ctx, node, None)?;
            let outcome = respond(&call.tool_name, &call.body);
            let response = match outcome {
                Outcome::Response(v) => Ok(v),
                Outcome::Failed(m) => Err(m),
                Outcome::TimedOut => Err("timed out".to_string()),
            };
            scheduler.finish_mem_write(ctx, node, call, response, 5)
        }
        Operation::Reduce => scheduler.execute_reduce(ctx, node),
        Operation::Branch => scheduler.execute_branch(ctx, node),
        _ => panic!("operation not driven in this test"),
    }
}

fn happy_plan(cost_cap: u64) -> Plan {
    let mut search = node("search_docs", Operation::Call, Some("doc.search.local"));
    search.args = args(vec![("q", s("neurodivergent productivity"))]);
    search.out = out("search_results");
    let mut verify = node("verify_claims", Operation::Verify, Some("ground.verify"));
    verify.args = args(vec![
        ("claims", Json::Array(vec![s("Structured plans improve follow-through")])),
        ("sources", s("$search_results.hits")),
    ]);
    verify.out = out("verification");
    let mut persist = node("persist_summary", Operation::MemWrite, Some("mesh.mem.sqlite"));
    persist.args = args(vec![
        ("key", s("product.todo.brief")),
        ("value", obj(vec![("summary", s("$verification.supports[0].explanation")), ("source", s("$search_results.hits[0].uri"))])),
        ("provenance", Json::Array(vec![s("$verification.supports[0].source")])),
        ("confidence", s("$verification.verdicts[0].confidence")),
        ("ttl", s("P30D")),
    ]);
    Plan {
        signals: Some(Signals { latency_budget_ms: Some(5000), cost_cap_usd: Some(cost_cap), risk: Some(200_000) }),
        nodes: vec![search, verify, persist],
        edges: Some(vec![
            Edge { from: "search_docs".to_string(), to: "verify_claims".to_string() },
            Edge { from: "verify_claims".to_string(), to: "persist_summary".to_string() },
        ]),
        stop_conditions: None,
    }
}

fn happy_tools() -> Vec<(&'static str, ToolSpec)> {
    vec![
        ("doc.search.local", tool_spec("doc.search.local", 100_000, 50, &["search.documents"], &[])),
        ("ground.verify", tool_spec("ground.verify", 200_000, 80, &["evidence.verify"], &[])),
        ("mesh.mem.sqlite", tool_spec("mesh.mem.sqlite", 0, 10, &["memory.write"], &[])),
    ]
}

fn happy_responder(stored: &std::cell::RefCell<Option<Json>>) -> impl Fn(&str, &Json) -> Outcome + '_ {
    move |tool: &str, body: &Json| match tool {
        "doc.search.local" => Outcome::Response(obj(vec![(
            "hits",
            Json::Array(vec![obj(vec![("uri", s("doc://todo-guide")), ("text", s("Plans help"))])]),
        )])),
        "ground.verify" => Outcome::Response(obj(vec![
            ("claims", Json::Array(vec![s("Structured plans improve follow-through")])),
            (
                "supports",
                Json::Array(vec![obj(vec![
                    ("claim_id", s("Structured plans improve follow-through")),
                    ("source", s("doc://todo-guide")),
                    ("confidence", num("0.92")),
                    ("explanation", s("The guide reports higher completion")),
                ])]),
            ),
            (
                "verdicts",
                Json::Array(vec![obj(vec![
                    ("claim_id", s("Structured plans improve follow-through")),
                    ("verdict", s("supported")),
                    ("confidence", num("0.93")),
                    ("needs_citation", Json::Bool(false)),
                ])]),
            ),
        ])),
        _ => {
            *stored.borrow_mut() = Some(body.copy());
            Outcome::Response(obj(vec![("result", obj(vec![("success", Json::Bool(true))]))]))
        }
    }
}

#[test]
fn happy_path_dag_binds_variables_and_stores_memory() {
    let mut ctx = context_with(happy_tools());
    let plan = happy_plan(2 * USD);
    let stored = std::cell::RefCell::new(None);
    let responder = happy_responder(&stored);
    assert!(run(&mut ctx, &plan, &responder).is_ok());
    assert!(var(&ctx, "search_results").is_some());
    assert!(var(&ctx, "verification").is_some());
    assert!(var(&ctx, "verification_summary").is_some());
    assert!(has_event(&ctx, "evidence_summary"));
    let body = stored.borrow().as_ref().map(|b| b.copy()).expect("memory entry stored");
    assert_eq!(text(body.get("key").unwrap()), "\"product.todo.brief\"");
    assert_eq!(text(body.get("confidence").unwrap()), "0.930000");
    match body.get("provenance") {
        Some(Json::Array(p)) => {
            assert_eq!(p.len(), 1);
            assert_eq!(text(&p[0]), "\"doc://todo-guide\"");
        }
        _ => panic!("provenance missing"),
    }
    assert_eq!(ctx.trace_events.last().unwrap().event_type, "budget_summary");
    assert_eq!(ctx.total_cost_usd, 300_000);
    assert_eq!(ctx.total_latency_ms, 50 + 80 + 10);
    for id in ["search_docs", "verify_claims"] {
        let start = ctx.trace_events.iter().position(|t| t.event_type == "step_start" && t.step_id == id).unwrap();
        let end = ctx.trace_events.iter().position(|t| t.event_type == "step_end" && t.step_id == id).unwrap();
        assert!(start < end);
    }
}

#[test]
fn cost_budget_failure_raises_and_records_summary() {
    let mut ctx = context_with(happy_tools());
    let plan = happy_plan(10_000);
    let stored = std::cell::RefCell::new(None);
    let responder = happy_responder(&stored);
    match run(&mut ctx, &plan, &responder) {
        Err(ExecutionError::BudgetExceeded(m)) => assert!(m.contains("Cost budget exceeded"), "got {}", m),
        _ => panic!("expected a cost budget failure"),
    }
    assert!(has_event(&ctx, "budget_summary"));
}

#[test]
fn policy_block_refuses_the_call() {
    let mut ctx = context_with(vec![("doc.search.local", tool_spec("doc.search.local", 0, 0, &[], &["pii"]))]);
    let mut n = node("doc_policy_check", Operation::Call, Some("doc.search.local"));
    n.args = args(vec![("q", s("find PII disclosure procedures"))]);
    n.out = out("search_result");
    match Scheduler.begin_call(&mut ctx, &n) {
        Err(ExecutionError::ToolExecutionError(m)) => {
            assert_eq!(m, "Tool doc.search.local invocation blocked by policy pattern 'pii'")
        }
        _ => panic!("expected a policy block"),
    }
    assert!(has_event(&ctx, "policy_violation"));
    assert!(!has_event(&ctx, "step_start"));
}

#[test]
fn capability_routing_selects_the_cheaper_tool() {
    let mut ctx = context_with(vec![
        ("doc.search.remote", tool_spec("doc.search.remote", 300_000, 10, &["search.documents"], &[])),
        ("doc.search.local", tool_spec("doc.search.local", 100_000, 90, &["search.documents"], &[])),
    ]);
    let mut n = node("search_docs", Operation::Call, None);
    n.capability = Some("search.documents".to_string());
    n.args = args(vec![("q", s("capability routing"))]);
    n.out = out("results");
    let plan = Plan { signals: Some(Signals { latency_budget_ms: Some(2000), cost_cap_usd: None, risk: None }), nodes: vec![n], edges: None, stop_conditions: None };
    let responder = |_: &str, _: &Json| Outcome::Response(obj(vec![("hits", Json::Array(vec![]))]));
    assert!(run(&mut ctx, &plan, &responder).is_ok());
    let route = ctx.trace_events.iter().find(|t| t.event_type == "capability_route").expect("capability route trace present");
    let data = route.data.as_ref().expect("capability route trace carries data");
    assert_eq!(text(data.get("selected_tool").unwrap()), "\"doc.search.local\"");
    assert_eq!(text(data.get("capability").unwrap()), "\"search.documents\"");
    assert_eq!(ctx.trace_events.iter().filter(|t| t.event_type == "plan_optimizer").count(), 1);
}

#[test]
fn equal_cost_routes_by_latency_then_name() {
    let ctx = context_with(vec![
        ("b.tool", tool_spec("b.tool", 5, 10, &["cap"], &[])),
        ("a.tool", tool_spec("a.tool", 5, 10, &["cap"], &[])),
        ("c.tool", tool_spec("c.tool", 5, 3, &["cap"], &[])),
    ]);
    assert_eq!(ctx.select_tool_for_capability("cap").unwrap().tool_name, "c.tool");
    let ctx2 = context_with(vec![
        ("b.tool", tool_spec("b.tool", 5, 10, &["cap"], &[])),
        ("a.tool", tool_spec("a.tool", 5, 10, &["cap"], &[])),
    ]);
    assert_eq!(ctx2.select_tool_for_capability("cap").unwrap().tool_name, "a.tool");
    assert!(ctx2.select_tool_for_capability("other").is_none());
}

#[test]
fn cycle_is_detected_when_running() {
    let mut ctx = ExecutionContext::new();
    let plan = Plan {
        signals: None,
        nodes: vec![node("a", Operation::Branch, None), node("b", Operation::Branch, None)],
        edges: Some(vec![
            Edge { from: "a".to_string(), to: "b".to_string() },
            Edge { from: "b".to_string(), to: "a".to_string() },
        ]),
        stop_conditions: None,
    };
    let responder = |_: &str, _: &Json| Outcome::TimedOut;
    match run(&mut ctx, &plan, &responder) {
        Err(ExecutionError::ValidationError(m)) => assert_eq!(m, "No executable nodes found - possible circular dependency"),
        _ => panic!("expected a cycle"),
    }
}

#[test]
fn dependencies_decide_the_order() {
    let mut ctx = ExecutionContext::new();
    let plan = Plan {
        signals: None,
        nodes: vec![node("late", Operation::Branch, None), node("early", Operation::Branch, None)],
        edges: Some(vec![Edge { from: "early".to_string(), to: "late".to_string() }]),
        stop_conditions: None,
    };
    let scheduler = Scheduler;
    let mut run = scheduler.start_run(&mut ctx, &plan);
    let mut seen = vec![];
    while let Some(idx) = Scheduler::next_node(&mut ctx, &plan, &mut run).ok().unwrap() {
        seen.push(plan.nodes[idx].id.clone());
        assert!(Scheduler::node_done(&mut ctx, &plan, idx, Ok(())).is_ok());
    }
    assert_eq!(seen, vec!["early".to_string(), "late".to_string()]);
    assert_eq!(run.rounds, 2);
    assert_eq!(ctx.trace_events.last().unwrap().event_type, "budget_summary");
    assert!(ctx.running_nodes.is_empty());
    assert_eq!(ctx.completed_nodes.len(), 2);
}

#[test]
fn cycle_is_detected() {
    let ctx = ExecutionContext::new();
    let plan = Plan {
        signals: None,
        nodes: vec![node("a", Operation::Branch, None), node("b", Operation::Branch, None)],
        edges: Some(vec![
            Edge { from: "a".to_string(), to: "b".to_string() },
            Edge { from: "b".to_string(), to: "a".to_string() },
        ]),
        stop_conditions: None,
    };
    match Scheduler::next_round(&ctx, &plan, &vec![0, 1]) {
        Err(ExecutionError::ValidationError(m)) => assert_eq!(m, "No executable nodes found - possible circular dependency"),
        _ => panic!("expected a cycle"),
    }
}

#[test]
fn low_confidence_memory_write_is_rejected() {
    let mut ctx = context_with(vec![("mesh.mem.sqlite", tool_spec("mesh.mem.sqlite", 0, 0, &[], &[]))]);
    let mut n = node("write", Operation::MemWrite, Some("mesh.mem.sqlite"));
    n.args = args(vec![
        ("key", s("k")),
        ("value", s("v")),
        ("provenance", Json::Array(vec![s("doc://x")])),
        ("confidence", num("0.5")),
    ]);
    match Scheduler.begin_mem_write(&mut ctx, &n, None) {
        Err(ExecutionError::ValidationError(m)) => assert_eq!(m, "Memory write rejected: confidence 0.5 < 0.8 threshold"),
        _ => panic!("expected a rejection"),
    }
}

#[test]
fn confidence_boundary_for_memory_write() {
    let mut ctx = context_with(vec![("mesh.mem.sqlite", tool_spec("mesh.mem.sqlite", 0, 0, &[], &[]))]);
    let mut n = node("write", Operation::MemWrite, Some("mesh.mem.sqlite"));
    n.args = args(vec![("key", s("k")), ("value", s("v")), ("provenance", Json::Array(vec![s("p")])), ("confidence", num("0.799999"))]);
    assert!(matches!(Scheduler.begin_mem_write(&mut ctx, &n, None), Err(ExecutionError::ValidationError(_))));
    n.args = args(vec![("key", s("k")), ("value", s("v")), ("provenance", Json::Array(vec![s("p")])), ("confidence", num("0.8"))]);
    assert!(Scheduler.begin_mem_write(&mut ctx, &n, None).is_ok());
}

#[test]
fn memory_write_requires_provenance() {
    let mut ctx = context_with(vec![("mesh.mem.sqlite", tool_spec("mesh.mem.sqlite", 0, 0, &[], &[]))]);
    let mut n = node("write", Operation::MemWrite, Some("mesh.mem.sqlite"));
    n.args = args(vec![("key", s("k")), ("value", s("v")), ("provenance", Json::Array(vec![])), ("confidence", num("0.9"))]);
    match Scheduler.begin_mem_write(&mut ctx, &n, None) {
        Err(ExecutionError::ValidationError(m)) => assert_eq!(m, "Memory write operation requires non-empty provenance"),
        _ => panic!("expected missing provenance"),
    }
}

#[test]
fn retry_gives_up_after_three_attempts() {
    let mut ctx = context_with(vec![("t", tool_spec("t", 0, 0, &[], &[]))]);
    let mut n = node("r", Operation::Retry, Some("t"));
    n.out = out("x");
    let inv = Scheduler.begin_retry(&mut ctx, &n).ok().unwrap();
    let mut attempts = 0;
    loop {
        match Scheduler.retry_attempt(&mut ctx, &n, &inv, attempts, Outcome::TimedOut, 1) {
            Ok(RetryStep::Again { attempts: a, wait_ms }) => {
                assert_eq!(wait_ms, 500);
                attempts = a;
            }
            Ok(RetryStep::Done) => panic!("no response was given"),
            Err(ExecutionError::TimeoutError(m)) => {
                assert_eq!(m, "Tool call t timed out after 3 attempts");
                break;
            }
            Err(_) => panic!("unexpected error"),
        }
    }
    assert_eq!(attempts, 2);
    assert!(var(&ctx, "x").is_none());
}

#[test]
fn retry_binds_on_success() {
    let mut ctx = context_with(vec![("t", tool_spec("t", 0, 0, &[], &[]))]);
    let mut n = node("r", Operation::Retry, Some("t"));
    n.out = out("x");
    let inv = Scheduler.begin_retry(&mut ctx, &n).ok().unwrap();
    assert!(matches!(Scheduler.retry_attempt(&mut ctx, &n, &inv, 0, Outcome::Failed("boom".to_string()), 1), Ok(RetryStep::Again { attempts: 1, .. })));
    assert!(matches!(Scheduler.retry_attempt(&mut ctx, &n, &inv, 1, Outcome::Response(num("7")), 1), Ok(RetryStep::Done)));
    assert_eq!(text(var(&ctx, "x").unwrap()), "7");
}

#[test]
fn reduce_joins_json_lines() {
    let mut ctx = ExecutionContext::new();
    ctx.set_variable("items".to_string(), Json::Array(vec![num("1"), s("a\"b"), Json::Null]));
    let mut n = node("join", Operation::Reduce, None);
    n.args = args(vec![("collection", s("$items"))]);
    n.out = out("joined");
    assert!(Scheduler.execute_reduce(&mut ctx, &n).is_ok());
    assert_eq!(text(var(&ctx, "joined").unwrap()), "\"1\\n\\\"a\\\\\\\"b\\\"\\nnull\\n\"");
}

#[test]
fn map_collects_results_in_order() {
    let mut ctx = context_with(vec![("t", tool_spec("t", 0, 0, &[], &[]))]);
    ctx.set_variable("xs".to_string(), Json::Array(vec![num("1"), num("2")]));
    let mut n = node("m", Operation::MapItems, Some("t"));
    n.args = args(vec![("collection", s("$xs"))]);
    n.out = out("ys");
    let mut run = Scheduler.begin_map(&mut ctx, &n).ok().unwrap();
    for i in 0..run.items.len() {
        let a = Scheduler.map_item_args(&mut ctx, &n, &run, i).ok().unwrap();
        let item = a.get("item").unwrap().copy();
        assert!(Scheduler.finish_map_item(&mut ctx, &mut run, i, Outcome::Response(item), 1).is_ok());
    }
    assert!(Scheduler.finish_map(&mut ctx, &n, run).is_ok());
    assert_eq!(text(var(&ctx, "ys").unwrap()), "[1,2]");
}

#[test]
fn assert_accepts_only_literal_true() {
    let mut ctx = ExecutionContext::new();
    let mut n = node("check", Operation::Assert, None);
    n.args = args(vec![("condition", s("true"))]);
    assert!(Scheduler.execute_assert(&mut ctx, &n, None).is_ok());
    n.args = args(vec![("condition", s("1 == 1"))]);
    match Scheduler.execute_assert(&mut ctx, &n, None) {
        Err(ExecutionError::ValidationError(m)) => assert_eq!(m, "Assertion failed: 1 == 1"),
        _ => panic!("expected an assertion failure"),
    }
}

#[test]
fn optimizer_orders_by_cost_then_latency_then_index() {
    let mut ctx = context_with(vec![
        ("cheap", tool_spec("cheap", 1, 100, &[], &[])),
        ("dear", tool_spec("dear", 9, 1, &[], &[])),
    ]);
    let mut unknown = node("u", Operation::Call, None);
    unknown.capability = Some("nothing".to_string());
    let plan = Plan {
        signals: None,
        nodes: vec![unknown, node("d", Operation::Call, Some("dear")), node("c", Operation::Call, Some("cheap")), node("b", Operation::Branch, None)],
        edges: None,
        stop_conditions: None,
    };
    let order: Vec<usize> = Scheduler::optimized_node_order(&mut ctx, &plan).iter().map(|p| p.node_index).collect();
    assert_eq!(order, vec![3, 2, 1, 0]);
}

#[test]
fn plan_validation_error_is_the_plan_error_text() {
    let mut ctx = ExecutionContext::new();
    let plan = Plan { signals: None, nodes: vec![], edges: None, stop_conditions: None };
    match Scheduler.prepare_plan(&mut ctx, &plan) {
        Err(ExecutionError::ValidationError(m)) => assert_eq!(m, "Plan cannot be empty"),
        _ => panic!("expected a validation error"),
    }
}

#[test]
fn verify_summary_variable_matches_its_trace() {
    let mut ctx = context_with(happy_tools());
    let plan = happy_plan(2 * USD);
    let stored = std::cell::RefCell::new(None);
    let responder = happy_responder(&stored);
    assert!(run(&mut ctx, &plan, &responder).is_ok());
    let summary = var(&ctx, "verification_summary").unwrap().to_text();
    let trace = ctx
        .trace_events
        .iter()
        .find(|t| t.event_type == "evidence_summary" && t.step_id == "verify_claims")
        .unwrap();
    assert_eq!(trace.data.as_ref().unwrap().to_text(), summary);
    assert!(summary.contains("\"total_claims\":1"));
    assert!(summary.contains("\"mean_confidence\":0.930000"));
}

#[test]
fn map_over_a_non_array_is_refused() {
    let mut ctx = context_with(vec![("t", tool_spec("t", 0, 0, &[], &[]))]);
    let mut n = node("m", Operation::MapItems, Some("t"));
    n.args = args(vec![("collection", s("not a list"))]);
    n.out = out("ys");
    match Scheduler.begin_map(&mut ctx, &n) {
        Err(ExecutionError::ValidationError(m)) => assert_eq!(m, "Map operation requires an array input"),
        _ => panic!("expected a validation error"),
    }
}

#[test]
fn retry_overrun_is_a_cost_budget_error() {
    let mut ctx = context_with(vec![("t", tool_spec("t", USD, 0, &[], &[]))]);
    ctx.signals = Some(Signals { latency_budget_ms: None, cost_cap_usd: Some(USD / 2), risk: None });
    let mut n = node("r", Operation::Retry, Some("t"));
    n.out = out("x");
    let inv = Scheduler.begin_retry(&mut ctx, &n).ok().unwrap();
    match Scheduler.retry_attempt(&mut ctx, &n, &inv, 2, Outcome::Failed("boom".to_string()), 1) {
        Err(ExecutionError::BudgetExceeded(m)) => assert!(m.starts_with("Cost budget exceeded")),
        _ => panic!("expected a budget error"),
    }
}
