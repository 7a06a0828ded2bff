use amp::evidence::{
    Contradiction, Evidence, EvidenceValidationError, EvidenceVerifier, Support, Verdict, VerdictType,
};

fn support(claim: &str, source: &str, confidence: u64) -> Support {
    Support { claim_id: claim.into(), source: source.into(), confidence, explanation: None }
}

fn verdict(claim: &str, kind: VerdictType, confidence: u64, needs_citation: bool) -> Verdict {
    Verdict { claim_id: claim.into(), verdict: kind, confidence, needs_citation }
}

#[test]
fn test_evidence_verifier_summary() {
    let verifier = EvidenceVerifier;
    let evidence = Evidence {
        claims: Some(vec!["claim_a".into(), "claim_b".into()]),
        supports: Some(vec![support("claim_a", "source_a", 900_000)]),
        contradicts: Some(vec![Contradiction {
            claim_id: "claim_b".into(),
            source: "source_b".into(),
            confidence: 400_000,
            explanation: None,
        }]),
        verdicts: Some(vec![
            verdict("claim_a", VerdictType::Supported, 880_000, true),
            verdict("claim_b", VerdictType::Contradicted, 420_000, false),
        ]),
    };
    let summary = verifier.verify_evidence(&evidence);
    assert_eq!(summary.total_claims, 2);
    assert_eq!(summary.supported_claims, 1);
    assert_eq!(summary.contradicted_claims, 1);
    assert!(summary.mean_confidence > 600_000 && summary.mean_confidence < 1_000_000);
    assert!(summary.per_claim.iter().any(|(k, _)| k == "claim_a"));
    assert!(summary.per_claim.iter().any(|(k, _)| k == "claim_b"));
}

#[test]
fn test_evidence_validate_requires_support() {
    let verifier = EvidenceVerifier;
    let evidence = Evidence {
        claims: Some(vec!["claim_a".into()]),
        supports: None,
        contradicts: None,
        verdicts: Some(vec![verdict("claim_a", VerdictType::Supported, 950_000, false)]),
    };
    let result = verifier.validate_evidence_for_storage(&evidence, 800_000);
    assert!(matches!(result, Err(EvidenceValidationError::MissingSupport { .. })));
}

#[test]
fn summary_statistics_are_exact() {
    let evidence = Evidence {
        claims: None,
        supports: Some(vec![support("a", "s1", 900_000), support("a", "s2", 700_000)]),
        contradicts: None,
        verdicts: Some(vec![
            verdict("a", VerdictType::Supported, 900_000, true),
            verdict("b", VerdictType::Neutral, 600_000, true),
            verdict("b", VerdictType::Contradicted, 300_000, false),
        ]),
    };
    let r = EvidenceVerifier.verify_evidence(&evidence);
    assert_eq!(r.total_claims, 3);
    assert_eq!(r.supported_claims, 1);
    assert_eq!(r.contradicted_claims, 1);
    assert_eq!(r.mean_confidence, 600_000);
    assert_eq!(r.needs_citation_count, 2);
    assert_eq!(r.max_confidence, 900_000);
    assert_eq!(r.min_confidence, 300_000);
    assert_eq!(r.per_claim.len(), 2);
    assert_eq!(r.per_claim[0].0, "a");
    let a = &r.per_claim[0].1;
    assert_eq!(a.supports, 2);
    assert_eq!(a.contradictions, 0);
    assert_eq!(a.average_confidence, Some(833_333));
    assert_eq!(a.max_confidence, Some(900_000));
    assert_eq!(a.min_confidence, Some(700_000));
    let b = &r.per_claim[1].1;
    assert_eq!(b.supports, 0);
    assert_eq!(b.average_confidence, Some(450_000));
}

#[test]
fn empty_evidence_has_zero_statistics() {
    let evidence = Evidence { claims: None, supports: None, contradicts: None, verdicts: None };
    let r = EvidenceVerifier.verify_evidence(&evidence);
    assert_eq!(r.total_claims, 0);
    assert_eq!(r.mean_confidence, 0);
    assert_eq!(r.max_confidence, 0);
    assert_eq!(r.min_confidence, 0);
    assert!(r.per_claim.is_empty());
}

#[test]
fn admitted_evidence_meets_threshold_support_and_ratio() {
    let evidence = Evidence {
        claims: Some(vec!["a".into()]),
        supports: Some(vec![support("a", "s", 900_000)]),
        contradicts: None,
        verdicts: Some(vec![verdict("a", VerdictType::Supported, 900_000, false)]),
    };
    assert!(EvidenceVerifier.validate_evidence_for_storage(&evidence, 800_000).is_ok());
    let r = EvidenceVerifier.verify_evidence(&evidence);
    assert!(r.mean_confidence >= 800_000);
    assert!(r.per_claim.iter().all(|(_, s)| s.supports >= 1));
}

#[test]
fn low_mean_confidence_is_insufficient() {
    let evidence = Evidence {
        claims: None,
        supports: Some(vec![support("a", "s", 900_000)]),
        contradicts: None,
        verdicts: Some(vec![verdict("a", VerdictType::Supported, 799_999, false)]),
    };
    let r = EvidenceVerifier.validate_evidence_for_storage(&evidence, 800_000);
    assert!(matches!(
        r,
        Err(EvidenceValidationError::InsufficientConfidence { mean_confidence: 799_999, min_required: 800_000 })
    ));
}

#[test]
fn single_contradicted_verdict_is_too_many() {
    let evidence = Evidence {
        claims: None,
        supports: Some(vec![support("a", "s", 900_000)]),
        contradicts: None,
        verdicts: Some(vec![verdict("a", VerdictType::Contradicted, 900_000, false)]),
    };
    let r = EvidenceVerifier.validate_evidence_for_storage(&evidence, 800_000);
    assert!(matches!(r, Err(EvidenceValidationError::TooManyContradictions { contradicted: 1, total: 1 })));
}

#[test]
fn half_contradicted_is_allowed() {
    let evidence = Evidence {
        claims: None,
        supports: Some(vec![support("a", "s", 900_000), support("b", "s", 900_000)]),
        contradicts: None,
        verdicts: Some(vec![
            verdict("a", VerdictType::Contradicted, 900_000, false),
            verdict("b", VerdictType::Supported, 900_000, false),
        ]),
    };
    assert!(EvidenceVerifier.validate_evidence_for_storage(&evidence, 800_000).is_ok());
}
