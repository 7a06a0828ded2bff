use amp::tools::Policy;
use amp::policy::PolicySeverity;
use amp::evidence::{Evidence, Support, Verdict, VerdictType};
use amp::json::Json;
use amp::policy::{PolicyContext, PolicyEngine};
use amp::tools::{IoSpec, Provenance, Schema, ToolSpec};
use amp::trace::Trace;

fn num(t: &str) -> Json {
    Json::Number(t.to_string())
}

fn obj(fields: Vec<(&str, Json)>) -> Json {
    Json::Object(fields.into_iter().map(|(k, v)| (k.to_string(), v)).collect())
}

fn summary(total: &str, supported: &str, mean: &str) -> Json {
    obj(vec![
        ("total_claims", num(total)),
        ("supported_claims", num(supported)),
        ("contradicted_claims", num("0")),
        ("mean_confidence", num(mean)),
        ("needs_citation_count", num("0")),
        ("max_confidence", num(mean)),
        ("min_confidence", num(mean)),
        (
            "per_claim",
            obj(vec![(
                "claim_0",
                obj(vec![
                    ("supports", num(supported)),
                    ("contradictions", num("0")),
                    ("average_confidence", num(mean)),
                    ("max_confidence", num(mean)),
                    ("min_confidence", num(mean)),
                ]),
            )]),
        ),
    ])
}

fn evidence(claim: &str, confidence: u64) -> Evidence {
    Evidence {
        claims: Some(vec![claim.to_string()]),
        supports: None,
        contradicts: None,
        verdicts: Some(vec![Verdict { claim_id: claim.to_string(), verdict: VerdictType::Supported, confidence, needs_citation: false }]),
    }
}

fn trace_with(event: &str, step: &str, description: &str, data: Json) -> Trace {
    let mut t = Trace::new(event.to_string(), step.to_string(), description.to_string());
    t.data = Some(data);
    t
}

#[test]
fn test_policy_engine_evidence_verification() {
    let engine = PolicyEngine;
    let high_confidence_evidence = Evidence {
        claims: Some(vec!["claim_0".to_string()]),
        supports: Some(vec![Support {
            claim_id: "claim_0".to_string(),
            source: "source_0".to_string(),
            confidence: 920_000,
            explanation: Some("High confidence support".to_string()),
        }]),
        contradicts: None,
        verdicts: Some(vec![Verdict { claim_id: "claim_0".to_string(), verdict: VerdictType::Supported, confidence: 900_000, needs_citation: true }]),
    };
    let s = summary("1", "1", "0.9");
    let ctx = PolicyContext {
        evidence: Some(high_confidence_evidence),
        tool_specs: vec![],
        traces: vec![trace_with("evidence_summary", "verify_step", "Verification summary", s.copy())],
        variables: vec![("verification_summary".to_string(), s.copy())],
    };
    let result = engine.enforce_policies(&ctx);
    assert!(result.is_ok());
    if let Ok(policy_result) = result {
        assert!(policy_result.allowed);
        assert!(policy_result.violations.iter().find(|v| v.message.contains("confidence")).is_none());
    }
}

#[test]
fn test_policy_engine_budget_violation_detection() {
    let engine = PolicyEngine;
    let data = obj(vec![
        ("total_latency_ms", num("250.0")),
        ("latency_budget_ms", num("120.0")),
        ("total_cost_usd", num("0.25")),
        ("cost_cap_usd", num("0.10")),
        ("total_tokens", num("1024")),
    ]);
    let ctx = PolicyContext {
        evidence: None,
        tool_specs: vec![],
        traces: vec![trace_with("budget_summary", "plan", "Budget snapshot", data)],
        variables: vec![],
    };
    let result = engine.enforce_policies(&ctx).ok().expect("policy evaluation should succeed");
    assert!(!result.allowed);
    assert!(result.violations.iter().any(|violation| violation.rule == "cost_cap"));
    assert!(result.violations.iter().any(|violation| violation.rule == "latency_budget"));
}

#[test]
fn test_policy_engine_surface_tool_policy_violation() {
    let engine = PolicyEngine;
    let data = obj(vec![
        ("description", Json::Str("Tool doc.search.local invocation blocked by policy pattern 'pii'".to_string())),
        ("pattern", Json::Str("pii".to_string())),
    ]);
    let ctx = PolicyContext {
        evidence: None,
        tool_specs: vec![],
        traces: vec![trace_with("policy_violation", "doc.search.local", "Policy violation", data)],
        variables: vec![],
    };
    let result = engine.enforce_policies(&ctx).ok().expect("policy evaluation should succeed");
    assert!(!result.allowed);
    assert!(result.violations.iter().any(|violation| violation.rule == "tool_policy"));
    assert_eq!(result.violations[0].message, "Tool doc.search.local invocation blocked by policy pattern 'pii'");
}

#[test]
fn test_policy_engine_requires_evidence_summary_when_evidence_present() {
    let engine = PolicyEngine;
    let ctx = PolicyContext { evidence: Some(evidence("c1", 850_000)), tool_specs: vec![], traces: vec![], variables: vec![] };
    let result = engine.enforce_policies(&ctx).ok().expect("policy evaluation should succeed");
    assert!(!result.allowed);
    assert!(result.violations.iter().any(|violation| violation.rule == "missing_evidence_summary"));
}

#[test]
fn test_policy_engine_rejects_low_confidence_summary() {
    let engine = PolicyEngine;
    let low_summary = summary("1", "0", "0.6");
    let ctx = PolicyContext {
        evidence: Some(evidence("c1", 850_000)),
        tool_specs: vec![],
        traces: vec![trace_with("evidence_summary", "verify_step", "Low confidence summary", low_summary.copy())],
        variables: vec![("verification_summary".to_string(), low_summary)],
    };
    let result = engine.enforce_policies(&ctx).ok().expect("policy evaluation should succeed");
    assert!(!result.allowed);
    assert!(result.violations.iter().any(|violation| violation.rule == "evidence_confidence"));
    assert!(result.violations.iter().any(|violation| violation.rule == "evidence_missing_support"));
}

#[test]
fn test_policy_engine_handles_malformed_summary_payload() {
    let engine = PolicyEngine;
    let ctx = PolicyContext {
        evidence: Some(evidence("c1", 850_000)),
        tool_specs: vec![],
        traces: vec![trace_with("evidence_summary", "verify_step", "Malformed summary", Json::Str("not a summary".to_string()))],
        variables: vec![],
    };
    let result = engine.enforce_policies(&ctx).ok().expect("policy evaluation should succeed");
    assert!(!result.allowed);
    assert!(result.violations.iter().any(|violation| violation.rule == "invalid_evidence_summary"));
}

#[test]
fn test_policy_memory_write_validation() {
    let engine = PolicyEngine;
    let high = Evidence {
        claims: Some(vec!["claim_0".to_string()]),
        supports: Some(vec![Support { claim_id: "claim_0".to_string(), source: "source_0".to_string(), confidence: 910_000, explanation: Some("Reliable support".to_string()) }]),
        contradicts: None,
        verdicts: Some(vec![Verdict { claim_id: "claim_0".to_string(), verdict: VerdictType::Supported, confidence: 900_000, needs_citation: true }]),
    };
    assert!(engine.check_memory_write_policy(Some(&high)).is_ok());
    let low = Evidence {
        claims: Some(vec!["claim_0".to_string()]),
        supports: Some(vec![Support { claim_id: "claim_0".to_string(), source: "source_1".to_string(), confidence: 550_000, explanation: Some("Weak support".to_string()) }]),
        contradicts: None,
        verdicts: Some(vec![Verdict { claim_id: "claim_0".to_string(), verdict: VerdictType::Supported, confidence: 500_000, needs_citation: true }]),
    };
    assert!(engine.check_memory_write_policy(Some(&low)).is_err());
    assert!(engine.check_memory_write_policy(None).is_err());
}

#[test]
fn test_policy_response_citation_check() {
    let engine = PolicyEngine;
    let schema = || Schema { schema_type: "object".to_string(), properties: None, required: None, items: None };
    let tool_spec = ToolSpec {
        name: "citation_required_tool".to_string(),
        description: None,
        io: IoSpec { input: schema(), output: schema() },
        capabilities: None,
        constraints: None,
        provenance: Some(Provenance { attribution_required: Some(true) }),
        quality: None,
        policy: None,
    };
    let ev = Evidence {
        claims: Some(vec!["claim_0".to_string()]),
        supports: Some(vec![Support { claim_id: "claim_0".to_string(), source: "source_0".to_string(), confidence: 900_000, explanation: Some("Citation support".to_string()) }]),
        contradicts: None,
        verdicts: Some(vec![Verdict { claim_id: "claim_0".to_string(), verdict: VerdictType::Supported, confidence: 900_000, needs_citation: true }]),
    };
    let ctx = PolicyContext { evidence: Some(ev), tool_specs: vec![tool_spec], traces: vec![], variables: vec![] };
    let response = "This is an answer based on the provided information.".to_string();
    let modified_response = engine.check_response_policy(&response, &ctx);
    assert!(modified_response.is_ok());
    let final_response = modified_response.ok().unwrap();
    assert!(final_response.contains("Citations") || final_response.contains("source"));
    assert_eq!(final_response, "This is an answer based on the provided information.\n\nSources: [Citations based on verification evidence]");
}

#[test]
fn test_policy_context_empty() {
    let engine = PolicyEngine;
    let ctx = PolicyContext { evidence: None, tool_specs: vec![], traces: vec![], variables: vec![] };
    let result = engine.enforce_policies(&ctx);
    assert!(result.is_ok());
    if let Ok(policy_result) = result {
        assert!(policy_result.allowed);
        assert!(policy_result.violations.is_empty());
        assert!(policy_result.enforcement_actions.iter().any(|a| a.action == "emit_budget_summary"));
    }
}

#[test]
fn expensive_trace_earns_cost_warning() {
    let mut t = Trace::new("step_end".to_string(), "n".to_string(), "d".to_string());
    t.cost_usd = Some(2 * amp::plan::USD);
    let ctx = PolicyContext { evidence: None, tool_specs: vec![], traces: vec![t], variables: vec![] };
    let result = PolicyEngine.enforce_policies(&ctx).ok().unwrap();
    assert_eq!(result.violations.len(), 1);
    assert_eq!(result.violations[0].rule, "cost_limit");
}

#[test]
fn summary_without_claims_is_flagged() {
    let ctx = PolicyContext {
        evidence: None,
        tool_specs: vec![],
        traces: vec![],
        variables: vec![("a_summary".to_string(), summary("0", "0", "0.9"))],
    };
    let result = PolicyEngine.enforce_policies(&ctx).ok().unwrap();
    let rules: Vec<&str> = result.violations.iter().map(|v| v.rule.as_str()).collect();
    assert_eq!(rules, vec!["evidence_missing_claims", "evidence_missing_support"]);
}

#[test]
fn actions_and_severities_follow_the_rules() {
    let schema = || Schema { schema_type: "object".to_string(), properties: None, required: None, items: None };
    let spec = ToolSpec {
        name: "t".to_string(),
        description: None,
        io: IoSpec { input: schema(), output: schema() },
        capabilities: None,
        constraints: None,
        provenance: Some(Provenance { attribution_required: Some(true) }),
        quality: None,
        policy: Some(Policy { deny_if: Some(vec!["a".to_string(), "b".to_string()]) }),
    };
    let ctx = PolicyContext {
        evidence: Some(evidence("c1", 500_000)),
        tool_specs: vec![spec],
        traces: vec![],
        variables: vec![("x_summary".to_string(), summary("1", "1", "0.9"))],
    };
    let result = PolicyEngine.enforce_policies(&ctx).ok().unwrap();
    let actions: Vec<&str> = result.enforcement_actions.iter().map(|a| a.action.as_str()).collect();
    assert_eq!(actions, vec!["check_pattern", "check_pattern", "verify_attribution", "emit_budget_summary", "evidence_summary_valid"]);
    assert_eq!(result.violations.len(), 1);
    assert_eq!(result.violations[0].rule, "minimum_confidence");
    assert!(matches!(result.violations[0].severity, PolicySeverity::Warning));
}

#[test]
fn zero_budget_is_exceeded_by_any_spend() {
    let data = obj(vec![
        ("total_latency_ms", num("5")),
        ("latency_budget_ms", num("0")),
        ("total_cost_usd", num("0.000000000")),
        ("cost_cap_usd", num("0")),
    ]);
    let ctx = PolicyContext { evidence: None, tool_specs: vec![], traces: vec![trace_with("budget_summary", "plan", "b", data)], variables: vec![] };
    let result = PolicyEngine.enforce_policies(&ctx).ok().unwrap();
    let rules: Vec<&str> = result.violations.iter().map(|v| v.rule.as_str()).collect();
    assert_eq!(rules, vec!["latency_budget"]);
}
