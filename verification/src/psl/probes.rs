//! Offensive verification probes: their identities.
use vstd::prelude::*;

verus! {

/// Probes vectors for buffer-overflow sized dimensions.
pub struct OverflowProbe;

/// Checks the strength of signal encryption.
pub struct EncryptionProbe;

impl OverflowProbe {
    /// The probe's identifier.
    pub fn id(&self) -> (r: &'static str)
        ensures
            r@ == "Probe:Memory_Overflow"@,
    {
        "Probe:Memory_Overflow"
    }

    /// What the probe looks for.
    pub fn description(&self) -> (r: &'static str)
        ensures
            r@ == "Offensive probe for buffer overflow vulnerabilities"@,
    {
        "Offensive probe for buffer overflow vulnerabilities"
    }
}

impl EncryptionProbe {
    /// The probe's identifier.
    pub fn id(&self) -> (r: &'static str)
        ensures
            r@ == "Probe:Entropy_Sweep"@,
    {
        "Probe:Entropy_Sweep"
    }

    /// What the probe looks for.
    pub fn description(&self) -> (r: &'static str)
        ensures
            r@ == "Verifies signal encryption strength"@,
    {
        "Verifies signal encryption strength"
    }
}

/// The two probes have distinct identifiers.
pub proof fn lemma_probe_ids_distinct()
    ensures
        "Probe:Memory_Overflow"@ != "Probe:Entropy_Sweep"@,
{
    reveal_strlit("Probe:Memory_Overflow");
    reveal_strlit("Probe:Entropy_Sweep");
    assert("Probe:Memory_Overflow"@[6] != "Probe:Entropy_Sweep"@[6]);
}

} // verus!
