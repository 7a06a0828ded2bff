use amp::context::{ExecutionContext, ExecutionError};
use amp::json::Json;
use amp::number::parse_scaled;
use amp::plan::{Signals, USD};
use amp::tools::{parse_invoke_response, Constraints, IoSpec, Schema, ToolError, ToolSpec};

fn s(t: &str) -> Json {
    Json::Str(t.to_string())
}

fn num(t: &str) -> Json {
    Json::Number(t.to_string())
}

fn obj(fields: Vec<(&str, Json)>) -> Json {
    Json::Object(fields.into_iter().map(|(k, v)| (k.to_string(), v)).collect())
}

fn spec(name: &str, cost: u64, latency: u32, tokens: Option<u32>) -> ToolSpec {
    let schema = || Schema { schema_type: "object".to_string(), properties: None, required: None, items: None };
    ToolSpec {
        name: name.to_string(),
        description: None,
        io: IoSpec { input: schema(), output: schema() },
        capabilities: None,
        constraints: Some(Constraints { input_tokens_max: tokens, latency_p50_ms: Some(latency), cost_per_call_usd: Some(cost), rate_limit_qps: None, side_effects: None }),
        provenance: None,
        quality: None,
        policy: None,
    }
}

#[test]
fn test_context_variable_resolution() {
    let mut ctx = ExecutionContext::new();
    ctx.set_variable("query_var".to_string(), s("test query"));
    ctx.set_variable("limit_var".to_string(), num("10"));
    let args = vec![
        ("query".to_string(), s("$query_var")),
        ("limit".to_string(), s("$limit_var")),
        ("literal".to_string(), s("not_a_variable")),
        ("missing".to_string(), s("$nonexistent_var")),
    ];
    let resolved = ctx.resolve_args(Some(&args));
    match &resolved {
        Json::Object(_) => {}
        _ => panic!("Resolved args should be an object"),
    }
    assert_eq!(resolved.get("query").unwrap().to_text(), "\"test query\"");
    assert_eq!(resolved.get("limit").unwrap().to_text(), "10");
    assert_eq!(resolved.get("literal").unwrap().to_text(), "\"not_a_variable\"");
    assert_eq!(resolved.get("missing").unwrap().to_text(), "\"$nonexistent_var\"");
}

#[test]
fn references_navigate_objects_and_arrays() {
    let mut ctx = ExecutionContext::new();
    ctx.set_variable(
        "root".to_string(),
        obj(vec![("a", Json::Array(vec![obj(vec![("b", num("7"))]), s("second")]))]),
    );
    assert_eq!(ctx.resolve_reference("root.a[0].b").unwrap().to_text(), "7");
    assert_eq!(ctx.resolve_reference("root.a[1]").unwrap().to_text(), "\"second\"");
    assert_eq!(ctx.resolve_reference("root.a[+1]").unwrap().to_text(), "\"second\"");
    assert!(ctx.resolve_reference("root.a[2]").is_none());
    assert!(ctx.resolve_reference("root.a[x]").is_none());
    assert!(ctx.resolve_reference("root.a[0").is_none());
    assert!(ctx.resolve_reference("root.").is_none());
    assert!(ctx.resolve_reference("root.zz").is_none());
    assert!(ctx.resolve_reference("nothing").is_none());
    assert!(ctx.resolve_reference("").is_none());
    assert_eq!(ctx.resolve_reference("root").unwrap().to_text(), "{\"a\":[{\"b\":7},\"second\"]}");
}

#[test]
fn nested_values_are_resolved() {
    let mut ctx = ExecutionContext::new();
    ctx.set_variable("x".to_string(), num("1"));
    let v = Json::Array(vec![s("$x"), obj(vec![("k", s("$x"))]), Json::Bool(true)]);
    assert_eq!(ctx.resolve_value(&v).to_text(), "[1,{\"k\":1},true]");
    assert_eq!(ctx.resolve_args(None).to_text(), "{}");
}

#[test]
fn rebinding_a_variable_replaces_it() {
    let mut ctx = ExecutionContext::new();
    ctx.set_variable("v".to_string(), num("1"));
    ctx.set_variable("v".to_string(), num("2"));
    assert_eq!(ctx.variables.len(), 1);
    assert_eq!(ctx.resolve_reference("v").unwrap().to_text(), "2");
}

#[test]
fn usage_takes_declared_minimums_and_saturates() {
    let mut ctx = ExecutionContext::new();
    let sp = spec("t", 250, 100, Some(64));
    let u = ctx.record_tool_usage("t", Some(&sp), 40, None).ok().unwrap();
    assert_eq!((u.latency_ms, u.cost_usd, u.tokens), (100, 250, 64));
    let u = ctx.record_tool_usage("t", Some(&sp), 400, Some(3)).ok().unwrap();
    assert_eq!((u.latency_ms, u.tokens), (400, 3));
    assert_eq!((ctx.total_latency_ms, ctx.total_cost_usd, ctx.total_tokens), (500, 500, 67));
    ctx.total_tokens = u64::MAX - 1;
    assert!(ctx.record_tool_usage("t", None, 0, Some(10)).is_ok());
    assert_eq!(ctx.total_tokens, u64::MAX);
    assert!(ctx.trace_events.is_empty());
}

#[test]
fn latency_overrun_pushes_summary_then_fails() {
    let mut ctx = ExecutionContext::new();
    ctx.signals = Some(Signals { latency_budget_ms: Some(100), cost_cap_usd: Some(USD), risk: None });
    assert!(ctx.has_budget_remaining());
    match ctx.record_tool_usage("t", None, 150, None) {
        Err(ExecutionError::BudgetExceeded(m)) => assert_eq!(m, "Latency budget exceeded: 150ms > 100ms"),
        _ => panic!("expected a latency overrun"),
    }
    assert!(!ctx.has_budget_remaining());
    let last = ctx.trace_events.last().unwrap();
    assert_eq!(last.event_type, "budget_summary");
    assert_eq!(
        last.data.as_ref().unwrap().to_text(),
        "{\"total_latency_ms\":150,\"latency_budget_ms\":100,\"total_cost_usd\":0.000000000,\"cost_cap_usd\":1.000000000,\"total_tokens\":0}"
    );
}

#[test]
fn decimals_parse_to_fixed_point() {
    assert_eq!(parse_scaled("0.5", 6), Some(500_000));
    assert_eq!(parse_scaled("0.799999", 6), Some(799_999));
    assert_eq!(parse_scaled("12", 9), Some(12_000_000_000));
    assert_eq!(parse_scaled("0.1234567", 6), Some(123_456));
    assert_eq!(parse_scaled("-1", 6), None);
    assert_eq!(parse_scaled("1e-5", 6), None);
    assert_eq!(parse_scaled("1.", 6), None);
    assert_eq!(parse_scaled(".5", 6), None);
}

#[test]
fn json_text_escapes_strings() {
    let v = obj(vec![("a\"b", s("line\nbreak\t\u{1}"))]);
    assert_eq!(v.to_text(), "{\"a\\\"b\":\"line\\nbreak\\t\\u0001\"}");
}

#[test]
fn invoke_response_is_interpreted() {
    let ok = obj(vec![("result", num("3"))]);
    assert_eq!(parse_invoke_response(&ok).ok().unwrap().to_text(), "3");
    let failed = obj(vec![("result", Json::Null), ("error", s("bad input"))]);
    assert!(matches!(parse_invoke_response(&failed), Err(ToolError::Invocation(m)) if m == "bad input"));
    assert!(matches!(parse_invoke_response(&obj(vec![])), Err(ToolError::Communication(_))));
}

#[test]
fn default_registry_lists_three_local_tools() {
    let r = amp::registry::default_registry();
    assert_eq!(r.len(), 3);
    assert_eq!(r[0], ("doc.search.local".to_string(), "http://localhost:7401".to_string()));
    assert_eq!(r[2], ("mesh.mem.sqlite".to_string(), "http://localhost:7403".to_string()));
}

#[test]
fn fresh_trace_ids_are_uuids() {
    let t = amp::trace::Trace::new("e".to_string(), "s".to_string(), "d".to_string());
    assert_eq!(t.plan_id.len(), 36);
    let u = amp::trace::Trace::new("e".to_string(), "s".to_string(), "d".to_string());
    assert_ne!(t.plan_id, u.plan_id);
    assert_eq!(t.data.as_ref().unwrap().to_text(), "{\"description\":\"d\"}");
}

#[test]
fn tool_constraints_bound_input_tokens() {
    let sp = spec("t", 0, 0, Some(2));
    assert!(amp::budget::ConstraintChecker::check_tool_constraints(&sp, &s("abcdef")).is_ok());
    assert!(amp::budget::ConstraintChecker::check_tool_constraints(&sp, &s("abcdefghijklmn")).is_err());
}

#[test]
fn execute_response_points_at_trace_stream() {
    let r = amp::api::ExecuteResponse::completed("abc".to_string());
    assert_eq!(r.stream_url, "/v1/trace/abc");
    assert_eq!(r.status, "completed");
}

#[test]
fn policy_lowercases_pattern_too() {
    let schema = || Schema { schema_type: "object".to_string(), properties: None, required: None, items: None };
    let mut ctx = ExecutionContext::new();
    let sp = ToolSpec {
        name: "t".to_string(),
        description: None,
        io: IoSpec { input: schema(), output: schema() },
        capabilities: None,
        constraints: None,
        provenance: None,
        quality: None,
        policy: Some(amp::tools::Policy { deny_if: Some(vec!["".to_string(), "SECRET".to_string()]) }),
    };
    ctx.register_tool_spec("t".to_string(), sp);
    assert!(ctx.enforce_tool_policy("t", Some(&s("public"))).is_ok());
    match ctx.enforce_tool_policy("t", Some(&s("a secret plan"))) {
        Err(ExecutionError::ToolExecutionError(m)) => assert_eq!(m, "Tool t invocation blocked by policy pattern 'SECRET'"),
        _ => panic!("expected a block"),
    }
    assert!(ctx.enforce_tool_policy("other", Some(&s("a secret plan"))).is_ok());
}
