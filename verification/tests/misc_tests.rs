use lfi_vsa_core::data_ingestion::formal_logic::{theorem_proof_pairs, FormalLogicIngestor};
use lfi_vsa_core::diag::{DiagnosticEngine, TestResult};
use lfi_vsa_core::formal::lean4::{verdict_of, Lean4Client, LeanClientError, ProofResponse, VerifyVerdict};
use lfi_vsa_core::hdc::role_binding::concept_vector;
use lfi_vsa_core::hdc::vector::BipolarVector;
use lfi_vsa_core::sealed::{seal_bytes, seal_string, SecretBroker, Sealed};

// ---------------------------------------------------------------- sealed

#[test]
fn test_sealed_access() {
    let mut secret = Sealed::new("my-api-key".to_string());
    let result = secret.use_within(|s| s.len());
    assert_eq!(result, 10);
    assert_eq!(secret.access_count(), 1);
}

#[test]
fn test_sealed_multiple_access() {
    let mut secret = Sealed::new("secret".to_string());
    secret.use_within(|_| {});
    secret.use_within(|_| {});
    secret.use_within(|_| {});
    assert_eq!(secret.access_count(), 3);
}

#[test]
fn test_sealed_debug_redacted() {
    let secret = Sealed::new("password123".to_string());
    let debug_str = secret.debug_string();
    assert!(debug_str.contains("REDACTED"));
    assert!(!debug_str.contains("password123"));
}

#[test]
fn test_sealed_rotate() {
    let mut secret = Sealed::new("old-key".to_string());
    secret.use_within(|s| assert_eq!(s, "old-key"));
    secret.rotate("new-key".to_string());
    secret.use_within(|s| assert_eq!(s, "new-key"));
    assert_eq!(secret.access_count(), 1);
}

#[test]
fn test_sealed_bytes() {
    let mut secret = seal_bytes(vec![0xDE, 0xAD, 0xBE, 0xEF]);
    secret.use_within(|bytes| {
        assert_eq!(bytes.len(), 4);
        assert_eq!(bytes[0], 0xDE);
    });
}

#[test]
fn test_broker_seal() {
    let mut broker = SecretBroker::new();
    let mut sealed = broker.seal("api-key-12345".to_string());
    sealed.use_within(|s| assert!(s.starts_with("api-key")));
    assert_eq!(broker.operation_count(), 1);
}

#[test]
fn test_broker_constant_time_eq() {
    let mut broker = SecretBroker::new();
    let mut a = broker.seal(b"secret_value_1".to_vec());
    let mut b = broker.seal(b"secret_value_1".to_vec());
    let mut c = broker.seal(b"different_value".to_vec());
    assert!(broker.constant_time_eq(&mut a, &mut b));
    assert!(!broker.constant_time_eq(&mut a, &mut c));
    assert_eq!(broker.operation_count(), 5);
    assert_eq!(a.access_count(), 2);
}

#[test]
fn test_use_within_mut() {
    let mut secret = Sealed::new("mutable".to_string());
    secret.use_within_mut(|s| {
        s.push_str("_modified");
    });
    secret.use_within(|s| assert_eq!(s, "mutable_modified"));
}

#[test]
fn debug_string_exact_text() {
    let mut secret = seal_string("x".to_string());
    secret.use_within(|_| {});
    secret.use_within(|_| {});
    assert_eq!(secret.debug_string(), "Sealed<[REDACTED]>(accesses: 2)");
}

#[test]
fn equal_length_different_bytes_are_unequal() {
    let mut broker = SecretBroker::new();
    let mut a = seal_bytes(vec![1, 2, 3]);
    let mut b = seal_bytes(vec![1, 2, 4]);
    assert!(!broker.constant_time_eq(&mut a, &mut b));
}

// ---------------------------------------------------------------- lean4

#[test]
fn error_display_is_informative() {
    let e = LeanClientError::ServerError(500);
    assert!(e.message().contains("500"));
    let e = LeanClientError::Transport("connection refused".into());
    assert!(e.message().contains("connection refused"));
}

#[test]
fn verify_rejects_empty_or_oversize_input() {
    let client = Lean4Client::default();
    match client.request_for("") {
        Err(LeanClientError::InvalidRequest(_)) => {}
        other => panic!("expected InvalidRequest for empty, got {:?}", other.map(|r| r.lean_code)),
    }
    let huge = "x".repeat(65_537);
    match client.request_for(&huge) {
        Err(LeanClientError::InvalidRequest(_)) => {}
        other => panic!("expected InvalidRequest for oversize, got {:?}", other.map(|r| r.lean_code)),
    }
    let ok = client.request_for("example: True := trivial").unwrap();
    assert_eq!(ok.timeout_ms, 5_000);
}

#[test]
fn client_builders_and_url() {
    let client = Lean4Client::new("http://127.0.0.1:1//").with_timeout(100);
    assert_eq!(client.timeout_ms, 100);
    assert_eq!(client.verify_url(), "http://127.0.0.1:1/verify");
    assert_eq!(Lean4Client::default().verify_url(), "http://127.0.0.1:8090/verify");
}

#[test]
fn verdicts_classify_outcomes() {
    let proved = verdict_of(Ok(ProofResponse { valid: true, errors: vec![], proof_hash: "abc".into() }));
    assert_eq!(proved, VerifyVerdict::Proved { proof_hash: "abc".into() });
    let rejected = verdict_of(Ok(ProofResponse { valid: false, errors: vec!["e".into()], proof_hash: String::new() }));
    assert_eq!(rejected, VerifyVerdict::Rejected { errors: vec!["e".into()] });
    let unreachable = verdict_of(Err(LeanClientError::Transport("refused".into())));
    assert_eq!(unreachable, VerifyVerdict::Unreachable { detail: "refused".into() });
    let err = verdict_of(Err(LeanClientError::ServerError(502)));
    assert_eq!(err, VerifyVerdict::Error { detail: "server HTTP 502".into() });
}

// ---------------------------------------------------------------- diag

#[test]
fn fault_count_counts_faults() {
    let r = |s: &str| TestResult {
        component: "c".into(),
        status: s.into(),
        details: String::new(),
        timestamp: String::new(),
    };
    assert_eq!(DiagnosticEngine::fault_count(&[r("NOMINAL"), r("FAULT"), r("DEGRADED"), r("FAULT")]), 2);
}

// ---------------------------------------------------------------- formal logic

#[test]
fn theorem_proof_pairing() {
    let lines: Vec<String> = vec![
        "theorem t1 : a = b".into(),
        "proof : reflexivity".into(),
        "  proof : orphan".into(),
        "theorem t2 : c".into(),
        "theorem t3 : d".into(),
        "  proof : by simp".into(),
    ];
    let pairs = theorem_proof_pairs(&lines);
    assert_eq!(
        pairs,
        vec![
            ("theorem t1 : a = b".to_string(), "proof : reflexivity".to_string()),
            ("theorem t3 : d".to_string(), "  proof : by simp".to_string()),
        ]
    );
}

#[test]
fn absorb_binds_pairs_into_memory() {
    let mut ing = FormalLogicIngestor::new(BipolarVector::from_seed(0));
    let pairs = vec![("theorem t : p".to_string(), "proof : q".to_string())];
    assert_eq!(ing.absorb(&pairs), Ok(1));
    let binding = concept_vector("theorem t : p").bind(&concept_vector("proof : q")).unwrap();
    let expected = BipolarVector::bundle(&[&BipolarVector::from_seed(0), &binding]).unwrap();
    assert_eq!(ing.memory, expected);
    let mut short = FormalLogicIngestor::new(BipolarVector { data: vec![true] });
    assert!(short.absorb(&pairs).is_err());
    assert_eq!(short.absorb(&[]), Ok(0));
}
