use amp::trace::{Trace, TraceSigner};

#[test]
fn test_trace_creation() {
    let trace = Trace::new(
        "test_event".to_string(),
        "step_1".to_string(),
        "Test trace creation".to_string(),
    );
    assert!(!trace.plan_id.is_empty());
    assert_eq!(trace.step_id, "step_1");
    assert_eq!(trace.event_type, "test_event");
    assert!(trace.ts.timestamp() > 0);
}

#[test]
fn test_trace_with_plan_id() {
    let plan_id = "test-plan-123".to_string();
    let trace = Trace::with_plan_id(
        plan_id.clone(),
        "test_event".to_string(),
        "step_1".to_string(),
        "Test trace with predefined plan ID".to_string(),
    );
    assert_eq!(trace.plan_id, plan_id);
    assert_eq!(trace.event_type, "test_event");
    assert_eq!(trace.step_id, "step_1");
}

#[test]
fn test_trace_signing() {
    let signer = TraceSigner::new().ok().expect("Should create signer successfully");
    let mut trace = Trace::new(
        "signed_event".to_string(),
        "step_sign".to_string(),
        "Test trace signing".to_string(),
    );
    assert!(signer.sign_trace(&mut trace).is_ok(), "Should sign trace successfully");
    let is_valid = trace.verify_signature(signer.get_public_key()).ok().expect("Should verify signature");
    assert!(is_valid);
}

#[test]
fn test_trace_signature_verification_failure() {
    let signer1 = TraceSigner::new().ok().expect("Should create first signer");
    let signer2 = TraceSigner::new().ok().expect("Should create second signer");
    let mut trace = Trace::new(
        "signed_event".to_string(),
        "step_sign".to_string(),
        "Test trace signing with different key".to_string(),
    );
    assert!(signer1.sign_trace(&mut trace).is_ok(), "Should sign trace successfully");
    let result = trace.verify_signature(signer2.get_public_key());
    assert!(result.is_err());
}

#[test]
fn test_trace_signature() {
    let signer = TraceSigner::new().ok().unwrap();
    let mut trace = Trace::new(
        "test_event".to_string(),
        "step_1".to_string(),
        "test trace".to_string(),
    );
    assert!(signer.sign_trace(&mut trace).is_ok());
    assert!(trace.verify_signature(signer.get_public_key()).ok().unwrap());
}

#[test]
fn signature_is_base64_of_64_bytes() {
    let signer = TraceSigner::new().ok().unwrap();
    let mut trace = Trace::new("e".to_string(), "s".to_string(), "d".to_string());
    assert!(signer.sign_trace(&mut trace).is_ok());
    let sig = trace.signature.clone().unwrap();
    assert_eq!(sig.len(), 88);
    assert!(sig.ends_with("=="));
}

#[test]
fn unsigned_trace_does_not_verify() {
    let signer = TraceSigner::new().ok().unwrap();
    let trace = Trace::new("e".to_string(), "s".to_string(), "d".to_string());
    assert!(trace.verify_signature(signer.get_public_key()).is_err());
}

#[test]
fn tampered_trace_does_not_verify() {
    let signer = TraceSigner::new().ok().unwrap();
    let mut trace = Trace::new("e".to_string(), "s".to_string(), "d".to_string());
    assert!(signer.sign_trace(&mut trace).is_ok());
    trace.event_type = "other".to_string();
    assert!(trace.verify_signature(signer.get_public_key()).is_err());
}

#[test]
fn corrupt_signature_is_rejected() {
    let signer = TraceSigner::new().ok().unwrap();
    let mut trace = Trace::new("e".to_string(), "s".to_string(), "d".to_string());
    trace.signature = Some("not base64!".to_string());
    assert!(trace.verify_signature(signer.get_public_key()).is_err());
    trace.signature = Some("AAAA".to_string());
    assert!(trace.verify_signature(signer.get_public_key()).is_err());
}

#[test]
fn canonical_message_joins_fields() {
    let mut trace = Trace::with_plan_id("p".to_string(), "ev".to_string(), "st".to_string(), "d".to_string());
    trace.ts = amp::trace::Timestamp { secs: 0, nanos: 0 };
    let m = trace.canonical_message().unwrap();
    assert_eq!(m, "p:st:1970-01-01 00:00:00 UTC:ev");
}
