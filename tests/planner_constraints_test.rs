use amp::budget::{Budget, ConstraintChecker, ConstraintError};
use amp::json::Json;
use amp::plan::{Node, Operation, Plan, PlanValidationError, Signals, USD};
use amp::tools::{Constraints, IoSpec, Schema, ToolSpec};

fn schema() -> Schema {
    Schema { schema_type: "object".to_string(), properties: None, required: None, items: None }
}

fn spec(name: &str, constraints: Option<Constraints>) -> ToolSpec {
    ToolSpec {
        name: name.to_string(),
        description: None,
        io: IoSpec { input: schema(), output: schema() },
        capabilities: None,
        constraints,
        provenance: None,
        quality: None,
        policy: None,
    }
}

fn node(id: &str, op: Operation, tool: Option<&str>, out: Option<Vec<(String, String)>>) -> Node {
    Node {
        id: id.to_string(),
        op,
        tool: tool.map(|t| t.to_string()),
        capability: None,
        args: None,
        bind: None,
        out,
    }
}

fn result_out() -> Option<Vec<(String, String)>> {
    Some(vec![("result".to_string(), "result".to_string())])
}

#[test]
fn test_budget_creation_and_checking() {
    let signals = Some(Signals { latency_budget_ms: Some(5000), cost_cap_usd: Some(10 * USD), risk: Some(100_000) });
    let budget = Budget::new(signals.as_ref());
    assert_eq!(budget.latency_remaining_ms, Some(5000));
    assert_eq!(budget.cost_remaining_usd, Some(10 * USD));
    let mut modified_budget = budget;
    assert!(modified_budget.subtract_latency(1000));
    assert_eq!(modified_budget.latency_remaining_ms, Some(4000));
    assert!(modified_budget.subtract_cost(5 * USD));
    assert_eq!(modified_budget.cost_remaining_usd, Some(5 * USD));
}

#[test]
fn test_constraint_violations() {
    let plan = Plan {
        signals: Some(Signals { latency_budget_ms: Some(100), cost_cap_usd: Some(USD / 100), risk: Some(100_000) }),
        nodes: vec![Node { args: Some(vec![]), ..node("test_node", Operation::Call, Some("expensive_tool"), None) }],
        edges: None,
        stop_conditions: None,
    };
    let tool_spec = spec(
        "expensive_tool",
        Some(Constraints {
            input_tokens_max: Some(1000),
            latency_p50_ms: Some(500),
            cost_per_call_usd: Some(USD),
            rate_limit_qps: Some(10),
            side_effects: Some(false),
        }),
    );
    let result = ConstraintChecker::check_plan_constraints(&plan, &[tool_spec]);
    assert!(result.is_err());
    let error_msg = match &result {
        Err(e) => e.message(),
        Ok(()) => String::new(),
    };
    assert!(error_msg.contains("budget"));
    assert!(matches!(result, Err(ConstraintError::LatencyBudgetExceeded { estimated: 500, budget: 100 })));
}

#[test]
fn test_estimate_remaining_budget() {
    let initial_budget = Budget {
        latency_remaining_ms: Some(1000),
        cost_remaining_usd: Some(10 * USD),
        tokens_remaining: Some(10000),
    };
    let tool_spec = spec(
        "test_tool",
        Some(Constraints {
            input_tokens_max: Some(100),
            latency_p50_ms: Some(100),
            cost_per_call_usd: Some(USD),
            rate_limit_qps: Some(10),
            side_effects: Some(false),
        }),
    );
    let new_budget = ConstraintChecker::estimate_remaining_budget(&initial_budget, &tool_spec)
        .ok()
        .expect("Budget estimation should succeed");
    assert_eq!(new_budget.latency_remaining_ms, Some(900));
    assert_eq!(new_budget.cost_remaining_usd, Some(9 * USD));
    assert_eq!(new_budget.tokens_remaining, Some(9900));
}

#[test]
fn test_token_estimation() {
    let value = Json::Str("This is a test string for token estimation".to_string());
    let estimated_tokens = amp::budget::estimate_token_count(&value);
    assert!(estimated_tokens > 0);
    assert_eq!(estimated_tokens, 11);
}

#[test]
fn cost_cap_is_checked_after_latency() {
    let plan = Plan {
        signals: Some(Signals { latency_budget_ms: Some(1000), cost_cap_usd: Some(USD / 100), risk: None }),
        nodes: vec![node("n", Operation::Call, Some("t"), None)],
        edges: None,
        stop_conditions: None,
    };
    let s = spec("t", Some(Constraints { input_tokens_max: None, latency_p50_ms: Some(10), cost_per_call_usd: Some(USD), rate_limit_qps: None, side_effects: None }));
    assert!(matches!(
        ConstraintChecker::check_plan_constraints(&plan, &[s]),
        Err(ConstraintError::CostBudgetExceeded { estimated, budget }) if estimated == USD as u128 && budget == USD / 100
    ));
}

#[test]
fn risk_out_of_range_is_invalid() {
    let plan = Plan {
        signals: Some(Signals { latency_budget_ms: None, cost_cap_usd: None, risk: Some(1_500_000) }),
        nodes: vec![node("n", Operation::Branch, None, None)],
        edges: None,
        stop_conditions: None,
    };
    assert!(matches!(ConstraintChecker::check_plan_constraints(&plan, &[]), Err(ConstraintError::InvalidRiskValue(1_500_000))));
}

#[test]
fn subtracting_too_much_clamps_to_zero() {
    let mut b = Budget { latency_remaining_ms: Some(10), cost_remaining_usd: None, tokens_remaining: Some(5) };
    assert!(!b.subtract_latency(11));
    assert_eq!(b.latency_remaining_ms, Some(0));
    assert!(b.subtract_cost(1_000));
    assert!(!b.subtract_tokens(6));
    assert_eq!(b.tokens_remaining, Some(0));
    assert!(!b.has_remaining());
}

#[test]
fn test_plan_validation() {
    let empty_plan = Plan { signals: None, nodes: vec![], edges: None, stop_conditions: None };
    assert!(matches!(empty_plan.validate(), Err(PlanValidationError::EmptyPlan)));
    let plan_with_duplicates = Plan {
        signals: None,
        nodes: vec![node("node1", Operation::Call, Some("tool1"), None), node("node1", Operation::Call, Some("tool2"), None)],
        edges: None,
        stop_conditions: None,
    };
    assert!(matches!(plan_with_duplicates.validate(), Err(PlanValidationError::DuplicateNodeId(_))));
}

#[test]
fn duplicate_reports_the_first_repeated_id() {
    let plan = Plan {
        signals: None,
        nodes: vec![
            node("a", Operation::Branch, None, None),
            node("b", Operation::Branch, None, None),
            node("b", Operation::Branch, None, None),
            node("a", Operation::Branch, None, None),
        ],
        edges: None,
        stop_conditions: None,
    };
    assert!(matches!(plan.validate(), Err(PlanValidationError::DuplicateNodeId(id)) if id == "b"));
}

#[test]
fn test_plan_validate_with_tools_checks() {
    let plan = Plan {
        signals: None,
        nodes: vec![node("node1", Operation::Call, Some("doc.search.local"), result_out())],
        edges: None,
        stop_conditions: None,
    };
    let tools = vec!["doc.search.local".to_string()];
    assert!(plan.validate_with_tools(&tools).is_ok());
    let missing_tool_plan = Plan {
        signals: None,
        nodes: vec![node("node1", Operation::Call, None, result_out())],
        edges: None,
        stop_conditions: None,
    };
    assert!(matches!(
        missing_tool_plan.validate_with_tools(&tools),
        Err(PlanValidationError::MissingToolOrCapability(node)) if node == "node1"
    ));
    assert!(matches!(
        plan.validate_with_tools(&["other.tool".to_string()]),
        Err(PlanValidationError::UnknownTool(tool)) if tool == "doc.search.local"
    ));
    let missing_out_plan = Plan {
        signals: None,
        nodes: vec![node("node1", Operation::Verify, Some("doc.search.local"), None)],
        edges: None,
        stop_conditions: None,
    };
    assert!(matches!(
        missing_out_plan.validate_with_tools(&tools),
        Err(PlanValidationError::MissingOutputBinding(node)) if node == "node1"
    ));
}

#[test]
fn edge_to_unknown_node_is_invalid() {
    let plan = Plan {
        signals: None,
        nodes: vec![node("a", Operation::Branch, None, None)],
        edges: Some(vec![amp::plan::Edge { from: "a".to_string(), to: "zz".to_string() }]),
        stop_conditions: None,
    };
    match plan.validate() {
        Err(PlanValidationError::InvalidEdge(m)) => assert_eq!(m, "Edge references non-existent 'to' node: zz"),
        _ => panic!("expected an invalid edge"),
    }
}

#[test]
fn blank_output_name_is_missing_binding() {
    let plan = Plan {
        signals: None,
        nodes: vec![node("n", Operation::Call, Some("t"), Some(vec![("  ".to_string(), "result".to_string())]))],
        edges: None,
        stop_conditions: None,
    };
    assert!(matches!(plan.validate_with_tools(&["t".to_string()]), Err(PlanValidationError::MissingOutputBinding(_))));
}
