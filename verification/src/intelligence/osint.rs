//! Keyword analysis of open-source intelligence signals.
use vstd::prelude::*;
use crate::text::{lowercase_str, contains_str, contains_seq, unicode_lowercase};

verus! {

/// A piece of intelligence gathered from an open source.
#[derive(Debug, Clone)]
pub struct OsintSignal {
    pub source: String,
    pub payload: String,
    pub metadata: Vec<(String, String)>,
}

/// Categories of threats a signal can report.
#[derive(Debug, Clone, PartialEq, Eq, Structural)]
pub enum ThreatCategory {
    Vulnerability,
    Malware,
    SocialEngineering,
    DenialOfService,
    DataBreach,
    APT,
    Unknown,
}

/// Whether the text holds one of the three keywords.
pub open spec fn has_any(s: Seq<char>, a: Seq<char>, b: Seq<char>, c: Seq<char>) -> bool {
    contains_seq(s, a) || contains_seq(s, b) || contains_seq(s, c)
}

/// The threat category of a lower-cased payload: the first category, in a
/// fixed order, one of whose keywords occurs in it.
pub open spec fn threat_of(lower: Seq<char>) -> ThreatCategory {
    if has_any(lower, "cve-"@, "vulnerability"@, "exploit"@) {
        ThreatCategory::Vulnerability
    } else if has_any(lower, "malware"@, "ransomware"@, "trojan"@) {
        ThreatCategory::Malware
    } else if has_any(lower, "phishing"@, "social engineering"@, "spear"@) {
        ThreatCategory::SocialEngineering
    } else if has_any(lower, "ddos"@, "denial of service"@, "botnet"@) {
        ThreatCategory::DenialOfService
    } else if has_any(lower, "breach"@, "leak"@, "exfiltration"@) {
        ThreatCategory::DataBreach
    } else if has_any(lower, "apt"@, "state-sponsored"@, "nation-state"@) {
        ThreatCategory::APT
    } else {
        ThreatCategory::Unknown
    }
}

/// Whether a lower-cased payload carries an urgency indicator.
pub open spec fn urgent(lower: Seq<char>) -> bool {
    has_any(lower, "critical"@, "active"@, "zero-day"@)
}

/// The keyword table of threat categories, checked in order: a payload
/// naming a vulnerability ("cve-", "vulnerability", "exploit") is a
/// vulnerability; else one naming malware ("malware", "ransomware",
/// "trojan") is malware; else social engineering ("phishing", "social
/// engineering", "spear"); else denial of service ("ddos", "denial of
/// service", "botnet"); else a data breach ("breach", "leak",
/// "exfiltration"); else an APT ("apt", "state-sponsored", "nation-state");
/// and a payload with none of these keywords is unknown.
pub proof fn lemma_threat_keywords(lower: Seq<char>)
    ensures
        contains_seq(lower, "cve-"@) || contains_seq(lower, "vulnerability"@) || contains_seq(lower, "exploit"@)
            ==> threat_of(lower) == ThreatCategory::Vulnerability,
        !(contains_seq(lower, "cve-"@) || contains_seq(lower, "vulnerability"@) || contains_seq(lower, "exploit"@))
            && (contains_seq(lower, "malware"@) || contains_seq(lower, "ransomware"@) || contains_seq(lower, "trojan"@))
            ==> threat_of(lower) == ThreatCategory::Malware,
        !(contains_seq(lower, "cve-"@) || contains_seq(lower, "vulnerability"@) || contains_seq(lower, "exploit"@))
            && !(contains_seq(lower, "malware"@) || contains_seq(lower, "ransomware"@) || contains_seq(lower, "trojan"@))
            && (contains_seq(lower, "phishing"@) || contains_seq(lower, "social engineering"@) || contains_seq(lower, "spear"@))
            ==> threat_of(lower) == ThreatCategory::SocialEngineering,
        !(contains_seq(lower, "cve-"@) || contains_seq(lower, "vulnerability"@) || contains_seq(lower, "exploit"@))
            && !(contains_seq(lower, "malware"@) || contains_seq(lower, "ransomware"@) || contains_seq(lower, "trojan"@))
            && !(contains_seq(lower, "phishing"@) || contains_seq(lower, "social engineering"@) || contains_seq(lower, "spear"@))
            && (contains_seq(lower, "ddos"@) || contains_seq(lower, "denial of service"@) || contains_seq(lower, "botnet"@))
            ==> threat_of(lower) == ThreatCategory::DenialOfService,
        !(contains_seq(lower, "cve-"@) || contains_seq(lower, "vulnerability"@) || contains_seq(lower, "exploit"@))
            && !(contains_seq(lower, "malware"@) || contains_seq(lower, "ransomware"@) || contains_seq(lower, "trojan"@))
            && !(contains_seq(lower, "phishing"@) || contains_seq(lower, "social engineering"@) || contains_seq(lower, "spear"@))
            && !(contains_seq(lower, "ddos"@) || contains_seq(lower, "denial of service"@) || contains_seq(lower, "botnet"@))
            && (contains_seq(lower, "breach"@) || contains_seq(lower, "leak"@) || contains_seq(lower, "exfiltration"@))
            ==> threat_of(lower) == ThreatCategory::DataBreach,
        !(contains_seq(lower, "cve-"@) || contains_seq(lower, "vulnerability"@) || contains_seq(lower, "exploit"@))
            && !(contains_seq(lower, "malware"@) || contains_seq(lower, "ransomware"@) || contains_seq(lower, "trojan"@))
            && !(contains_seq(lower, "phishing"@) || contains_seq(lower, "social engineering"@) || contains_seq(lower, "spear"@))
            && !(contains_seq(lower, "ddos"@) || contains_seq(lower, "denial of service"@) || contains_seq(lower, "botnet"@))
            && !(contains_seq(lower, "breach"@) || contains_seq(lower, "leak"@) || contains_seq(lower, "exfiltration"@))
            && (contains_seq(lower, "apt"@) || contains_seq(lower, "state-sponsored"@) || contains_seq(lower, "nation-state"@))
            ==> threat_of(lower) == ThreatCategory::APT,
        !(contains_seq(lower, "cve-"@) || contains_seq(lower, "vulnerability"@) || contains_seq(lower, "exploit"@))
            && !(contains_seq(lower, "malware"@) || contains_seq(lower, "ransomware"@) || contains_seq(lower, "trojan"@))
            && !(contains_seq(lower, "phishing"@) || contains_seq(lower, "social engineering"@) || contains_seq(lower, "spear"@))
            && !(contains_seq(lower, "ddos"@) || contains_seq(lower, "denial of service"@) || contains_seq(lower, "botnet"@))
            && !(contains_seq(lower, "breach"@) || contains_seq(lower, "leak"@) || contains_seq(lower, "exfiltration"@))
            && !(contains_seq(lower, "apt"@) || contains_seq(lower, "state-sponsored"@) || contains_seq(lower, "nation-state"@))
            ==> threat_of(lower) == ThreatCategory::Unknown,
{
}

/// A payload is urgent exactly when it names "critical", "active" or
/// "zero-day".
pub proof fn lemma_urgency_keywords(lower: Seq<char>)
    ensures
        urgent(lower) <==> (contains_seq(lower, "critical"@) || contains_seq(lower, "active"@) || contains_seq(lower, "zero-day"@)),
{
}

/// Whether one of the three keywords occurs in `s`.
fn contains_any(s: &[char], a: &str, b: &str, c: &str) -> (r: bool)
    ensures
        r == has_any(s@, a@, b@, c@),
{
    contains_str(s, a) || contains_str(s, b) || contains_str(s, c)
}

/// Analyses open-source intelligence signals.
pub struct OsintAnalyzer {}

impl OsintAnalyzer {
    pub fn new() -> (r: OsintAnalyzer) {
        OsintAnalyzer {}
    }

    /// Categorise a signal by the keywords of its lower-cased payload.
    pub fn categorize_threat(signal: &OsintSignal) -> (r: ThreatCategory)
        ensures
            r == threat_of(unicode_lowercase(signal.payload@)),
    {
        let lower = lowercase_str(signal.payload.as_str());
        let s = lower.as_slice();
        if contains_any(s, "cve-", "vulnerability", "exploit") {
            ThreatCategory::Vulnerability
        } else if contains_any(s, "malware", "ransomware", "trojan") {
            ThreatCategory::Malware
        } else if contains_any(s, "phishing", "social engineering", "spear") {
            ThreatCategory::SocialEngineering
        } else if contains_any(s, "ddos", "denial of service", "botnet") {
            ThreatCategory::DenialOfService
        } else if contains_any(s, "breach", "leak", "exfiltration") {
            ThreatCategory::DataBreach
        } else if contains_any(s, "apt", "state-sponsored", "nation-state") {
            ThreatCategory::APT
        } else {
            ThreatCategory::Unknown
        }
    }

    /// Whether the lower-cased payload of a signal carries an urgency
    /// indicator ("critical", "active" or "zero-day"), which raises its
    /// priority.
    pub fn has_urgency(signal: &OsintSignal) -> (r: bool)
        ensures
            r == urgent(unicode_lowercase(signal.payload@)),
    {
        let lower = lowercase_str(signal.payload.as_str());
        contains_any(lower.as_slice(), "critical", "active", "zero-day")
    }
}

} // verus!
