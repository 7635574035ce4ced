use lfi_vsa_core::psl::probes::{EncryptionProbe, OverflowProbe};
use lfi_vsa_core::psl::trust::TrustLevel;

#[test]
fn test_trust_ordering() {
    assert!(TrustLevel::Sovereign > TrustLevel::Trusted);
    assert!(TrustLevel::Trusted > TrustLevel::Untrusted);
    assert!(TrustLevel::Untrusted > TrustLevel::Forbidden);
}

#[test]
fn test_permits_execution() {
    assert!(TrustLevel::Sovereign.permits_execution());
    assert!(TrustLevel::Trusted.permits_execution());
    assert!(!TrustLevel::Untrusted.permits_execution());
    assert!(!TrustLevel::Forbidden.permits_execution());
}

#[test]
fn test_needs_verification() {
    assert!(TrustLevel::Untrusted.needs_verification());
    assert!(!TrustLevel::Trusted.needs_verification());
    assert!(!TrustLevel::Sovereign.needs_verification());
    assert!(!TrustLevel::Forbidden.needs_verification());
}

#[test]
fn test_is_blocked() {
    assert!(TrustLevel::Forbidden.is_blocked());
    assert!(!TrustLevel::Untrusted.is_blocked());
    assert!(!TrustLevel::Trusted.is_blocked());
    assert!(!TrustLevel::Sovereign.is_blocked());
}

#[test]
fn test_labels() {
    assert_eq!(TrustLevel::Sovereign.label(), "SOVEREIGN");
    assert_eq!(TrustLevel::Trusted.label(), "TRUSTED");
    assert_eq!(TrustLevel::Untrusted.label(), "UNTRUSTED");
    assert_eq!(TrustLevel::Forbidden.label(), "FORBIDDEN");
}

#[test]
fn trust_test_equality() {
    assert_eq!(TrustLevel::Trusted, TrustLevel::Trusted);
    assert_ne!(TrustLevel::Trusted, TrustLevel::Untrusted);
}

#[test]
fn test_probe_ids_are_unique() {
    let overflow = OverflowProbe;
    let encryption = EncryptionProbe;
    assert_ne!(overflow.id(), encryption.id());
    assert!(!overflow.description().is_empty());
    assert!(!encryption.description().is_empty());
}
