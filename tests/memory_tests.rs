use amp::evidence::{Evidence, Verdict, VerdictType};
use amp::json::Json;
use amp::memory::{key_request, parse_read_response, parse_status_response, validate_ttl, write_request, MemoryError};

fn s(t: &str) -> Json {
    Json::Str(t.to_string())
}

fn obj(fields: Vec<(&str, Json)>) -> Json {
    Json::Object(fields.into_iter().map(|(k, v)| (k.to_string(), v)).collect())
}

#[test]
fn ttl_defaults_to_ninety_days() {
    assert_eq!(validate_ttl(None).ok().unwrap(), "P90D");
    assert_eq!(validate_ttl(Some("   ")).ok().unwrap(), "P90D");
}

#[test]
fn ttl_is_trimmed_and_upper_cased() {
    assert_eq!(validate_ttl(Some(" p30d ")).ok().unwrap(), "P30D");
    assert_eq!(validate_ttl(Some("pt12h30m")).ok().unwrap(), "PT12H30M");
    assert_eq!(validate_ttl(Some("P1DT2H3M4S")).ok().unwrap(), "P1DT2H3M4S");
}

#[test]
fn zero_ttl_is_invalid() {
    assert!(matches!(validate_ttl(Some("P0D")), Err(MemoryError::InvalidTtl(t)) if t == "P0D"));
    assert!(matches!(validate_ttl(Some("pt0s")), Err(MemoryError::InvalidTtl(t)) if t == "PT0S"));
}

#[test]
fn malformed_ttl_is_invalid() {
    assert!(matches!(validate_ttl(Some("30 days")), Err(MemoryError::InvalidTtl(t)) if t == "30 DAYS"));
    assert!(matches!(validate_ttl(Some("P3W")), Err(MemoryError::InvalidTtl(_))));
}

#[test]
fn write_requires_provenance_then_confidence() {
    let v = s("x");
    assert!(matches!(write_request("k", &v, None, Some(900_000), None, None), Err(MemoryError::MissingProvenance)));
    let empty: Vec<String> = vec![];
    assert!(matches!(write_request("k", &v, Some(&empty), Some(900_000), None, None), Err(MemoryError::MissingProvenance)));
    let prov = vec!["doc://a".to_string()];
    assert!(matches!(write_request("k", &v, Some(&prov), None, None, None), Err(MemoryError::InsufficientConfidence(0))));
    assert!(matches!(write_request("k", &v, Some(&prov), Some(799_999), None, None), Err(MemoryError::InsufficientConfidence(799_999))));
    assert!(matches!(write_request("k", &v, Some(&prov), Some(800_000), Some("P0D"), None), Err(MemoryError::InvalidTtl(_))));
}

#[test]
fn write_body_carries_the_entry() {
    let v = obj(vec![("summary", s("ok"))]);
    let prov = vec!["doc://a".to_string()];
    let summary = obj(vec![("total_claims", Json::Number("1".to_string()))]);
    let body = write_request("product.todo.brief", &v, Some(&prov), Some(930_000), Some("p30d"), Some(&summary)).ok().unwrap();
    assert_eq!(
        body.to_text(),
        "{\"operation\":\"write\",\"key\":\"product.todo.brief\",\"value\":{\"summary\":\"ok\"},\"provenance\":[\"doc://a\"],\"confidence\":0.930000,\"ttl\":\"P30D\",\"evidence_summary\":{\"total_claims\":1}}"
    );
}

#[test]
fn read_request_names_key() {
    assert_eq!(key_request("read", "a.b").to_text(), "{\"operation\":\"read\",\"key\":\"a.b\"}");
}

#[test]
fn read_response_yields_entry_value() {
    let entry = obj(vec![
        ("value", s("remembered")),
        ("confidence", Json::Number("0.9".to_string())),
        ("ttl", s("P30D")),
        ("provenance", Json::Array(vec![s("doc://a")])),
    ]);
    let body = obj(vec![("result", obj(vec![("success", Json::Bool(true)), ("entry", entry)]))]);
    let e = parse_read_response("k", &body).ok().unwrap().unwrap();
    assert_eq!(e.key, "k");
    assert_eq!(e.value.to_text(), "\"remembered\"");
    assert_eq!(e.confidence, 900_000);
    assert_eq!(e.provenance, Some(vec!["doc://a".to_string()]));
}

#[test]
fn missing_key_is_not_an_error() {
    let body = obj(vec![("result", obj(vec![("success", Json::Bool(false)), ("message", s("not found"))]))]);
    assert!(matches!(parse_read_response("k", &body), Ok(None)));
}

#[test]
fn entry_without_value_is_a_storage_error() {
    let body = obj(vec![("success", Json::Bool(true)), ("entry", obj(vec![("ttl", s("P1D"))]))]);
    assert!(matches!(parse_read_response("k", &body), Err(MemoryError::StorageError(_))));
}

#[test]
fn refused_write_reports_message() {
    let body = obj(vec![("result", obj(vec![("success", Json::Bool(false)), ("message", s("disk full"))]))]);
    assert!(matches!(parse_status_response(&body), Err(MemoryError::StorageError(m)) if m == "disk full"));
    let ok = obj(vec![("result", obj(vec![("success", Json::Bool(true))]))]);
    assert!(parse_status_response(&ok).is_ok());
    assert!(matches!(parse_status_response(&obj(vec![])), Err(MemoryError::StorageError(m)) if m == "Unknown error"));
}

#[test]
fn every_zero_duration_is_invalid() {
    for t in ["P", "PT", "P00D", "PT0H", "P0DT0H0M0S", "pt0s"] {
        assert!(matches!(validate_ttl(Some(t)), Err(MemoryError::InvalidTtl(_))), "{} should be refused", t);
    }
    assert_eq!(validate_ttl(Some("P0DT1S")).ok().unwrap(), "P0DT1S");
    assert_eq!(validate_ttl(Some("P10D")).ok().unwrap(), "P10D");
}

#[test]
fn citation_claims_follow_verdicts() {
    let v = |c: &str, n: bool| Verdict { claim_id: c.to_string(), verdict: VerdictType::Supported, confidence: 900_000, needs_citation: n };
    let ev = Evidence { claims: None, supports: None, contradicts: None, verdicts: Some(vec![v("a", true), v("b", false), v("c", true)]) };
    assert_eq!(ev.citation_claims(), Some(vec!["a".to_string(), "c".to_string()]));
    let none = Evidence { claims: None, supports: None, contradicts: None, verdicts: None };
    assert_eq!(none.citation_claims(), None);
}
