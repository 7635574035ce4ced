use lfi_vsa_core::data_quality::domain::Domain;
use lfi_vsa_core::data_quality::source::{Source, SourceTier};

#[test]
fn test_known_domains_valid() {
    for &d in Domain::KNOWN {
        let domain = Domain::new(d);
        assert!(domain.is_known(), "'{}' should be known", d);
    }
}

#[test]
fn test_unknown_domain_accepted() {
    let d = Domain::new("exotic_new_domain");
    assert!(!d.is_known());
    assert_eq!(d.as_str(), "exotic_new_domain");
}

#[test]
fn test_case_normalized() {
    let d = Domain::new("CyberSecurity");
    assert_eq!(d.as_str(), "cybersecurity");
    assert!(d.is_known());
}

#[test]
fn test_whitespace_trimmed() {
    let d = Domain::new("  science  ");
    assert_eq!(d.as_str(), "science");
    assert!(d.is_known());
}

#[test]
fn test_empty_domain() {
    let d = Domain::new("");
    assert_eq!(d.as_str(), "");
    assert!(!d.is_known());
}

#[test]
fn domain_test_display() {
    let d = Domain::new("mathematics");
    assert_eq!(d.display_string(), "mathematics");
}

#[test]
fn test_from_str() {
    let d: Domain = "history".into();
    assert_eq!(d.as_str(), "history");
}

#[test]
fn test_from_string() {
    let d: Domain = String::from("legal").into();
    assert_eq!(d.as_str(), "legal");
}

#[test]
fn test_half_life_cyber_fast() {
    let d = Domain::new("cybersecurity");
    assert_eq!(d.half_life_days(), 90);
}

#[test]
fn test_half_life_math_slow() {
    let d = Domain::new("mathematics");
    assert_eq!(d.half_life_days(), 36500);
}

#[test]
fn test_half_life_unknown_default() {
    let d = Domain::new("unknown_domain");
    assert_eq!(d.half_life_days(), 730);
}

#[test]
fn domain_test_equality() {
    assert_eq!(Domain::new("science"), Domain::new("Science"));
    assert_ne!(Domain::new("science"), Domain::new("history"));
}

#[test]
fn test_known_count() {
    assert!(Domain::KNOWN.len() >= 40, "Should have at least 40 known domains, got {}", Domain::KNOWN.len());
}

#[test]
fn known_constructor_keeps_known_names() {
    assert!(Domain::known("mathematics").is_known());
    assert_eq!(Domain::known(" Biology ").as_str(), "biology");
}

#[test]
fn try_known_refuses_unknown_names() {
    assert_eq!(Domain::try_known(" Geography ").map(|d| d.as_str().to_string()), Some("geography".to_string()));
    assert!(Domain::try_known("underwater basket weaving").is_none());
}

#[test]
fn test_normalization() {
    let s = Source::new("  OpenHermes 2.5  ");
    assert_eq!(s.as_str(), "openhermes_2.5");
}

#[test]
fn test_handcrafted_is_authoritative() {
    assert_eq!(Source::new("handcrafted_identity").infer_tier(), SourceTier::Authoritative);
    assert_eq!(Source::new("user_correction").infer_tier(), SourceTier::Authoritative);
    assert_eq!(Source::new("expert_pentest").infer_tier(), SourceTier::Authoritative);
}

#[test]
fn test_datasets_are_curated() {
    assert_eq!(Source::new("oasst2_en_quality").infer_tier(), SourceTier::Curated);
    assert_eq!(Source::new("dolly_15k").infer_tier(), SourceTier::Curated);
    assert_eq!(Source::new("openhermes_2_5").infer_tier(), SourceTier::Curated);
}

#[test]
fn test_ollama_is_community() {
    assert_eq!(Source::new("ollama_domain_gap").infer_tier(), SourceTier::Community);
    assert_eq!(Source::new("self_play_v2").infer_tier(), SourceTier::Community);
}

#[test]
fn test_unknown_is_unvetted() {
    assert_eq!(Source::new("random_scraper_xyz").infer_tier(), SourceTier::Unvetted);
}

#[test]
fn test_quality_floor_ordering() {
    assert!(Source::new("handcrafted").quality_floor_hundredths() > Source::new("oasst2").quality_floor_hundredths());
    assert!(Source::new("oasst2").quality_floor_hundredths() > Source::new("ollama").quality_floor_hundredths());
    assert!(Source::new("ollama").quality_floor_hundredths() > Source::new("unknown").quality_floor_hundredths());
}

#[test]
fn test_tier_ordering() {
    assert!(SourceTier::Authoritative > SourceTier::Curated);
    assert!(SourceTier::Curated > SourceTier::Community);
    assert!(SourceTier::Community > SourceTier::Unvetted);
}

#[test]
fn source_test_display() {
    assert_eq!(Source::new("dolly_15k").display_string(), "dolly_15k");
}

#[test]
fn test_from_traits() {
    let s1: Source = "test".into();
    let s2: Source = String::from("test").into();
    assert_eq!(s1, s2);
}

#[test]
fn test_empty_source() {
    let s = Source::new("");
    assert_eq!(s.as_str(), "");
    assert_eq!(s.infer_tier(), SourceTier::Unvetted);
}
