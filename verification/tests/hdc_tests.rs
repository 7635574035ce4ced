use lfi_vsa_core::hdc::compute::{ComputeBackend, DeploymentProfile, LocalBackend, ResourceEstimator};
use lfi_vsa_core::hdc::encoder_protection::ProtectedEncoder;
use lfi_vsa_core::hdc::error::HdcError;
use lfi_vsa_core::hdc::hdlm::{ForensicNode, HdlmResult, SemanticMap};
use lfi_vsa_core::hdc::precision::Precision;
use lfi_vsa_core::hdc::resonator::xor_fold;
use lfi_vsa_core::hdc::role_binding::concept_vector;
use lfi_vsa_core::hdc::vector::{BipolarVector, HD_DIMENSIONS};
use lfi_vsa_core::cognition::router::IntelligenceTier;

/// Cosine similarity of two bipolar vectors, from their Hamming distance.
fn similarity(a: &BipolarVector, b: &BipolarVector) -> f64 {
    let h = a.hamming_distance(b).unwrap() as f64;
    let n = a.dim() as f64;
    1.0 - 2.0 * h / n
}

// ---------------------------------------------------------------- error

#[test]
fn test_error_display_messages() {
    assert!(HdcError::DimensionMismatch { expected: 10000, actual: 5000 }.message().contains("10000"));
    assert!(HdcError::InitializationFailed { reason: "no mem".into() }.message().contains("no mem"));
    assert!(HdcError::MemoryFull.message().contains("Full"));
    assert!(HdcError::InvalidBipolarValue.message().contains("-1 or 1"));
    assert!(HdcError::PersistenceFailure { detail: "disk".into() }.message().contains("disk"));
    assert!(HdcError::LogicFault { reason: "bad axiom".into() }.message().contains("bad axiom"));
    assert!(HdcError::EmptyBundle.message().contains("zero"));
}

#[test]
fn test_error_equality() {
    assert_eq!(HdcError::MemoryFull, HdcError::MemoryFull);
    assert_eq!(HdcError::EmptyBundle, HdcError::EmptyBundle);
    assert_ne!(HdcError::MemoryFull, HdcError::EmptyBundle);
}

#[test]
fn test_error_clone() {
    let original = HdcError::LogicFault { reason: "test".into() };
    let cloned = original.clone();
    assert_eq!(original, cloned);
}

#[test]
fn error_message_exact_text() {
    assert_eq!(
        HdcError::DimensionMismatch { expected: 10000, actual: 5000 }.message(),
        "Dimension Mismatch: expected 10000, got 5000"
    );
    assert_eq!(HdcError::EmptyBundle.message(), "Attempted to bundle zero vectors");
}

// ---------------------------------------------------------------- compute

#[test]
fn test_local_backend_bind_dispatches() -> Result<(), HdcError> {
    let backend = LocalBackend;
    let a = BipolarVector::new_random()?;
    let b = BipolarVector::new_random()?;
    let direct = a.bind(&b)?;
    let via_backend = backend.bind(&a, &b)?;
    assert_eq!(direct, via_backend, "Backend dispatch must match direct call");
    Ok(())
}

#[test]
fn test_local_backend_bundle_dispatches() -> Result<(), HdcError> {
    let backend = LocalBackend;
    let a = BipolarVector::new_random()?;
    let b = BipolarVector::new_random()?;
    let direct = BipolarVector::bundle(&[&a, &b])?;
    let via_backend = backend.bundle(&[&a, &b])?;
    assert_eq!(direct, via_backend, "Backend dispatch must match direct call");
    Ok(())
}

#[test]
fn test_local_backend_permute_dispatches() -> Result<(), HdcError> {
    let backend = LocalBackend;
    let a = BipolarVector::new_random()?;
    let direct = a.permute(7)?;
    let via_backend = backend.permute(&a, 7)?;
    assert_eq!(direct, via_backend, "Backend dispatch must match direct call");
    Ok(())
}

#[test]
fn test_resource_estimator_laptop() {
    let estimate = ResourceEstimator::laptop_estimate();
    assert!(estimate.contains("YES"), "64GB laptop should fit: {}", estimate);
}

#[test]
fn test_resource_estimator_phone() {
    let estimate = ResourceEstimator::phone_estimate();
    assert!(!estimate.is_empty(), "Phone estimate should produce output: {}", estimate);
}

#[test]
fn resource_estimates_exact_text() {
    assert_eq!(
        ResourceEstimator::laptop_estimate(),
        "Laptop (64GB): 100000 vectors @ 10k dim = 125.0MB vectors + 7.6MB overhead = 132.6MB total. Fits: YES (0.2% of RAM)"
    );
    assert_eq!(
        ResourceEstimator::phone_estimate(),
        "Phone (12GB): 10000 vectors @ 10k dim = 12.5MB vectors + 2.4MB overhead = 14.9MB total. Fits: YES"
    );
}

#[test]
fn test_fits_in_ram() {
    assert!(ResourceEstimator::fits_in_ram(64 * 1024, 10000, 100000));
    assert!(!ResourceEstimator::fits_in_ram(1, 10000, 1000000));
}

#[test]
fn test_memory_estimate_scales_linearly() {
    let (_, _, total_small) = ResourceEstimator::estimate_memory(10000, 1000, 100);
    let (_, _, total_large) = ResourceEstimator::estimate_memory(10000, 10000, 100);
    assert!(total_large > total_small);
}

#[test]
fn memory_estimate_exact_values() {
    // 10,000 dimensions pack into 1,250 bytes; each codebook entry adds 64.
    assert_eq!(
        ResourceEstimator::estimate_memory(10000, 100000, 5000),
        (125_000_000, 6_570_000 + 1_048_576, 125_000_000 + 6_570_000 + 1_048_576)
    );
}

#[test]
fn test_bind_performance() -> Result<(), HdcError> {
    let a = BipolarVector::new_random()?;
    let b = BipolarVector::new_random()?;
    let start = std::time::Instant::now();
    for _ in 0..1000 {
        let _ = a.bind(&b)?;
    }
    let elapsed = start.elapsed();
    assert!(elapsed.as_secs() < 5, "1000 binds took too long: {:?}", elapsed);
    Ok(())
}

#[test]
fn test_laptop_profile() {
    let profile = DeploymentProfile::laptop();
    assert!(profile.max_vectors >= 100_000);
    assert!(profile.can_handle(100_000, 10_000));
    assert!(matches!(profile.recommended_max_tier(), IntelligenceTier::BigBrain));
}

#[test]
fn test_phone_profile() {
    let profile = DeploymentProfile::pixel_phone();
    assert!(profile.max_vectors >= 10_000);
    assert!(profile.can_handle(10_000, 1_000));
    assert!(!profile.can_handle(100_000, 1_000), "Phone shouldn't handle laptop-scale");
    assert!(matches!(profile.recommended_max_tier(), IntelligenceTier::Bridge));
}

#[test]
fn test_embedded_profile() {
    let profile = DeploymentProfile::embedded();
    assert!(profile.max_vectors <= 1000);
    assert!(matches!(profile.recommended_max_tier(), IntelligenceTier::Pulse));
}

#[test]
fn test_profile_workload_check() {
    let laptop = DeploymentProfile::laptop();
    let phone = DeploymentProfile::pixel_phone();
    assert!(laptop.can_handle(phone.max_vectors, phone.max_codebook));
    assert!(!phone.can_handle(laptop.max_vectors, laptop.max_codebook));
}

// ---------------------------------------------------------------- vector

#[test]
fn bind_is_self_inverse() {
    let a = BipolarVector::from_seed(3);
    let b = BipolarVector::from_seed(4);
    let ab = a.bind(&b).unwrap();
    assert_eq!(ab.bind(&b).unwrap(), a);
    assert_eq!(a.bind(&b).unwrap(), b.bind(&a).unwrap());
}

#[test]
fn bind_dimension_mismatch_errors() {
    let a = BipolarVector::from_seed(3);
    let short = BipolarVector::from_bits(vec![true; 10]);
    assert_eq!(
        short,
        Err(HdcError::DimensionMismatch { expected: HD_DIMENSIONS, actual: 10 })
    );
    let b = BipolarVector { data: vec![true; 10] };
    assert_eq!(a.bind(&b), Err(HdcError::DimensionMismatch { expected: 10000, actual: 10 }));
}

#[test]
fn permute_full_cycle_and_inverse() {
    let a = BipolarVector::from_seed(11);
    assert_eq!(a.permute(0).unwrap(), a);
    assert_eq!(a.permute(HD_DIMENSIONS).unwrap(), a);
    let p = a.permute(3).unwrap();
    assert_eq!(p.permute(HD_DIMENSIONS - 3).unwrap(), a);
    assert_ne!(p, a);
}

#[test]
fn permute_shifts_left() {
    let mut bits = vec![false; 4];
    bits[1] = true;
    let v = BipolarVector { data: bits };
    assert_eq!(v.permute(1).unwrap().data, vec![true, false, false, false]);
}

#[test]
fn hamming_properties() {
    let a = BipolarVector::from_seed(5);
    let b = BipolarVector::from_seed(6);
    assert_eq!(a.hamming_distance(&a).unwrap(), 0);
    assert_eq!(a.hamming_distance(&b).unwrap(), b.hamming_distance(&a).unwrap());
    assert!(a.hamming_distance(&b).unwrap() <= HD_DIMENSIONS);
    let x = BipolarVector { data: vec![true, false, true] };
    let y = BipolarVector { data: vec![false, false, false] };
    assert_eq!(x.hamming_distance(&y).unwrap(), 2);
}

#[test]
fn bundle_majority_and_errors() {
    let a = BipolarVector { data: vec![true, true, false] };
    let b = BipolarVector { data: vec![true, false, false] };
    let c = BipolarVector { data: vec![false, true, true] };
    assert_eq!(BipolarVector::bundle(&[&a, &b, &c]).unwrap().data, vec![true, true, false]);
    // A tie gives false.
    assert_eq!(BipolarVector::bundle(&[&a, &c]).unwrap().data, vec![false, true, false]);
    assert_eq!(BipolarVector::bundle(&[&a]).unwrap(), a);
    assert_eq!(BipolarVector::bundle(&[]), Err(HdcError::EmptyBundle));
    let d = BipolarVector { data: vec![true] };
    assert_eq!(
        BipolarVector::bundle(&[&a, &d]),
        Err(HdcError::DimensionMismatch { expected: 3, actual: 1 })
    );
}

#[test]
fn from_seed_is_deterministic_and_full_dimension() {
    let a = BipolarVector::from_seed(42);
    let b = BipolarVector::from_seed(42);
    assert_eq!(a, b);
    assert_eq!(a.dim(), HD_DIMENSIONS);
    assert_ne!(a, BipolarVector::from_seed(43));
    assert_eq!(BipolarVector::new_random().unwrap().dim(), HD_DIMENSIONS);
}

#[test]
fn concept_vector_is_deterministic() {
    assert_eq!(concept_vector("water"), concept_vector("water"));
    assert_ne!(concept_vector("water"), concept_vector("fire"));
}

#[test]
fn xor_fold_skips_one_factor() {
    let a = BipolarVector::from_seed(1);
    let b = BipolarVector::from_seed(2);
    let c = BipolarVector::from_seed(3);
    let vs = vec![a.clone(), b.clone(), c.clone()];
    let folded = xor_fold(&vs, 1).unwrap();
    assert_eq!(folded, a.bind(&c).unwrap());
    let all = xor_fold(&vs, 5).unwrap();
    assert_eq!(all, a.bind(&b).unwrap().bind(&c).unwrap());
}

// ---------------------------------------------------------------- encoder protection

#[test]
fn test_protect_unprotect_roundtrip() {
    let enc = ProtectedEncoder::new(12345, 0);
    let original = BipolarVector::from_seed(42);
    let protected = enc.protect(&original).unwrap();
    let recovered = enc.unprotect(&protected).unwrap();
    assert_eq!(original, recovered, "Protect→unprotect must recover original");
}

#[test]
fn test_protection_changes_vector() {
    let enc = ProtectedEncoder::new(12345, 0);
    let original = BipolarVector::from_seed(42);
    let protected = enc.protect(&original).unwrap();
    let sim = similarity(&original, &protected);
    assert!(sim.abs() < 0.1, "Protected should be quasi-orthogonal to original: {}", sim);
}

#[test]
fn test_different_epochs_different_output() {
    let enc0 = ProtectedEncoder::new(12345, 0);
    let enc1 = ProtectedEncoder::new(12345, 1);
    let input = BipolarVector::from_seed(42);
    let p0 = enc0.protect(&input).unwrap();
    let p1 = enc1.protect(&input).unwrap();
    let sim = similarity(&p0, &p1);
    assert!(sim.abs() < 0.1, "Different epochs should give different outputs: {}", sim);
}

#[test]
fn test_deterministic_same_epoch() {
    let enc = ProtectedEncoder::new(99, 5);
    let input = BipolarVector::from_seed(42);
    let p1 = enc.protect(&input).unwrap();
    let p2 = enc.protect(&input).unwrap();
    assert_eq!(p1, p2, "Same input + same epoch = same output");
}

#[test]
fn test_protection_preserves_dim() {
    let enc = ProtectedEncoder::new(42, 0);
    let input = BipolarVector::from_seed(7);
    let protected = enc.protect(&input).unwrap();
    assert_eq!(input.dim(), protected.dim());
}

#[test]
fn test_epoch_rotation_prevents_cross_decode() {
    let enc0 = ProtectedEncoder::new(42, 0);
    let enc1 = ProtectedEncoder::new(42, 1);
    let input = BipolarVector::from_seed(7);
    let protected_by_1 = enc1.protect(&input).unwrap();
    let wrong_decode = enc0.unprotect(&protected_by_1).unwrap();
    let sim = similarity(&wrong_decode, &input);
    assert!(sim.abs() < 0.1, "Wrong epoch should not recover original: sim={}", sim);
}

#[test]
fn rotate_epoch_matches_fresh_encoder() {
    let mut enc = ProtectedEncoder::new(42, 0);
    enc.rotate_epoch(42);
    assert_eq!(enc.epoch, 1);
    let fresh = ProtectedEncoder::new(42, 1);
    let input = BipolarVector::from_seed(9);
    assert_eq!(enc.protect(&input).unwrap(), fresh.protect(&input).unwrap());
}

// ---------------------------------------------------------------- hdlm

#[test]
fn test_semantic_mapping_separation() -> HdlmResult<()> {
    let map = SemanticMap::new()?;
    let logic = ForensicNode::Function;
    let decoration = BipolarVector::new_random()?;
    let projected = map.project_node(logic.clone(), &decoration)?;
    assert!(map.verify_forensic_integrity(&projected, logic, &decoration)?);
    let fake_decoration = BipolarVector::new_random()?;
    assert!(!map.verify_forensic_integrity(&projected, ForensicNode::Function, &fake_decoration)?);
    Ok(())
}

// ---------------------------------------------------------------- precision

#[test]
fn promote_then_demote_roundtrips_a_bipolar() {
    let bv = BipolarVector::from_seed(4242);
    let precise = Precision::Fast(bv.clone()).promote().unwrap();
    assert!(precise.is_precise());
    let back = precise.demote();
    match back {
        Precision::Fast(recovered) => {
            assert_eq!(recovered, bv);
        }
        _ => panic!("demote must produce Fast"),
    }
}

#[test]
fn bind_fast_stays_fast() {
    let a = Precision::Fast(BipolarVector::from_seed(1));
    let b = Precision::Fast(BipolarVector::from_seed(2));
    let bound = Precision::bind(&a, &b).unwrap();
    assert!(!bound.is_precise());
}

#[test]
fn bind_precise_stays_precise() {
    let a = Precision::Fast(BipolarVector::from_seed(10)).promote().unwrap();
    let b = Precision::Fast(BipolarVector::from_seed(20)).promote().unwrap();
    let bound = Precision::bind(&a, &b).unwrap();
    assert!(bound.is_precise());
}

#[test]
fn bind_mixed_tiers_errors() {
    let a = Precision::Fast(BipolarVector::from_seed(100));
    let b = Precision::Fast(BipolarVector::from_seed(200)).promote().unwrap();
    assert!(Precision::bind(&a, &b).is_err());
}

#[test]
fn precise_bind_agrees_with_fast_bind() {
    let a = BipolarVector::from_seed(10);
    let b = BipolarVector::from_seed(20);
    let pa = Precision::Fast(a.clone()).promote().unwrap();
    let pb = Precision::Fast(b.clone()).promote().unwrap();
    match Precision::bind(&pa, &pb).unwrap().demote() {
        Precision::Fast(v) => assert_eq!(v, a.bind(&b).unwrap()),
        _ => panic!("demote must produce Fast"),
    }
}

#[test]
fn test_error_is_std_error() {
    let e = HdcError::MemoryFull;
    assert!(e.message().contains("Full"));
}

#[test]
fn fast_bind_passes_on_dimension_mismatch() {
    let a = Precision::Fast(BipolarVector::from_seed(1));
    let b = Precision::Fast(BipolarVector { data: vec![true, false] });
    match Precision::bind(&a, &b) {
        Err(HdcError::DimensionMismatch { expected, actual }) => assert_eq!((expected, actual), (HD_DIMENSIONS, 2)),
        other => panic!("unexpected {:?}", other.map(|_| ())),
    }
}

#[test]
fn rotated_encoder_matches_fresh_one() {
    let mut enc = ProtectedEncoder::new(77, 3);
    enc.rotate_epoch(77);
    let fresh = ProtectedEncoder::new(77, 4);
    let x = BipolarVector::from_seed(9);
    let p = enc.protect(&x).unwrap();
    assert_eq!(p.dim(), HD_DIMENSIONS);
    assert_eq!(p, fresh.protect(&x).unwrap());
    assert_eq!(enc.unprotect(&p).unwrap(), x);
    assert_eq!(enc.epoch, 4);
}
