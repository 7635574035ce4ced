//! Validated domain identifiers.
use vstd::prelude::*;
use crate::text::{chars_eq_str, lowercase_str, string_from, trim_chars, trim_seq, unicode_lowercase};

verus! {

/// A knowledge domain name, lower-cased and trimmed.
#[derive(Debug, Clone, PartialEq, Eq, Hash)]
pub struct Domain(String);

/// The known domain names as character sequences.
pub open spec fn known_domains() -> Seq<Seq<char>> {
    seq![
        "cybersecurity"@, "pentesting"@, "technology"@, "code"@, "mathematics"@,
        "science"@, "history"@, "economics"@, "politics"@, "philosophy"@,
        "legal"@, "finance"@, "medicine"@, "psychology"@, "communication"@,
        "reasoning"@, "conversational"@, "creative_writing"@, "general"@,
        "education"@, "business"@, "public_health"@, "criminology"@,
        "engineering"@, "social_science"@, "social_media"@, "adversarial"@,
        "biomedical"@, "academic"@, "computer_vision"@, "qa_extractive"@,
        "qa_general"@, "reading_comprehension"@, "sentiment"@, "commonsense"@,
        "nli"@, "instruction"@, "knowledge"@, "news_topics"@, "multilingual"@,
        "web_knowledge"@, "encyclopedic"@, "commerce"@, "identity"@,
        "tool_use"@, "biology"@, "geography"@, "code_quality"@,
    ]
}

/// The `i`-th known domain name.
fn known_domain_at(i: usize) -> (r: &'static str)
    requires
        i < 48,
    ensures
        r@ == known_domains()[i as int],
{
    match i {
        0 => "cybersecurity",
        1 => "pentesting",
        2 => "technology",
        3 => "code",
        4 => "mathematics",
        5 => "science",
        6 => "history",
        7 => "economics",
        8 => "politics",
        9 => "philosophy",
        10 => "legal",
        11 => "finance",
        12 => "medicine",
        13 => "psychology",
        14 => "communication",
        15 => "reasoning",
        16 => "conversational",
        17 => "creative_writing",
        18 => "general",
        19 => "education",
        20 => "business",
        21 => "public_health",
        22 => "criminology",
        23 => "engineering",
        24 => "social_science",
        25 => "social_media",
        26 => "adversarial",
        27 => "biomedical",
        28 => "academic",
        29 => "computer_vision",
        30 => "qa_extractive",
        31 => "qa_general",
        32 => "reading_comprehension",
        33 => "sentiment",
        34 => "commonsense",
        35 => "nli",
        36 => "instruction",
        37 => "knowledge",
        38 => "news_topics",
        39 => "multilingual",
        40 => "web_knowledge",
        41 => "encyclopedic",
        42 => "commerce",
        43 => "identity",
        44 => "tool_use",
        45 => "biology",
        46 => "geography",
        _ => "code_quality",
    }
}

/// The normal form of a domain name: Unicode lower case, then trimmed.
pub open spec fn normalize_domain(name: Seq<char>) -> Seq<char> {
    trim_seq(unicode_lowercase(name))
}

/// Temporal-decay half-life of a domain, in days.
pub open spec fn half_life_spec(d: Seq<char>) -> u32 {
    if d == "cybersecurity"@ {
        90
    } else if d == "pentesting"@ {
        120
    } else if d == "technology"@ {
        180
    } else if d == "politics"@ || d == "economics"@ {
        365
    } else if d == "finance"@ {
        270
    } else if d == "legal"@ {
        540
    } else if d == "code"@ || d == "code_quality"@ {
        365
    } else if d == "science"@ || d == "biomedical"@ {
        1825
    } else if d == "philosophy"@ {
        3650
    } else if d == "history"@ {
        7300
    } else if d == "mathematics"@ || d == "reasoning"@ {
        36500
    } else {
        730
    }
}

impl Domain {
    /// Known domain names, for validation and autocompletion.
    pub const KNOWN: &'static [&'static str; 48] = &[
        "cybersecurity", "pentesting", "technology", "code", "mathematics",
        "science", "history", "economics", "politics", "philosophy",
        "legal", "finance", "medicine", "psychology", "communication",
        "reasoning", "conversational", "creative_writing", "general",
        "education", "business", "public_health", "criminology",
        "engineering", "social_science", "social_media", "adversarial",
        "biomedical", "academic", "computer_vision", "qa_extractive",
        "qa_general", "reading_comprehension", "sentiment", "commonsense",
        "nli", "instruction", "knowledge", "news_topics", "multilingual",
        "web_knowledge", "encyclopedic", "commerce", "identity",
        "tool_use", "biology", "geography", "code_quality",
    ];

    /// The domain name.
    pub closed spec fn name(&self) -> Seq<char> {
        self.0@
    }

    /// A domain from any name: lower-cased and trimmed. Unknown names are
    /// accepted.
    pub fn new(name: &str) -> (r: Self)
        ensures
            r.name() == normalize_domain(name@),
    {
        let lower = lowercase_str(name);
        let trimmed = trim_chars(lower.as_slice());
        Domain(string_from(trimmed.as_slice()))
    }

    /// A domain whose normalized name is one of the known domains; callers
    /// name only known domains.
    pub fn known(name: &str) -> (r: Self)
        requires
            known_domains().contains(normalize_domain(name@)),
        ensures
            r.name() == normalize_domain(name@),
    {
        Self::new(name)
    }

    /// The domain named by `name` when it is a known one, and `None` for any
    /// other name.
    pub fn try_known(name: &str) -> (r: Option<Self>)
        ensures
            r is Some <==> known_domains().contains(normalize_domain(name@)),
            r is Some ==> r->0.name() == normalize_domain(name@),
    {
        let d = Self::new(name);
        if d.is_known() {
            Some(Self::known(name))
        } else {
            None
        }
    }

    /// The domain name as a string slice.
    pub fn as_str(&self) -> (r: &str)
        ensures
            r@ == self.name(),
    {
        self.0.as_str()
    }

    /// The domain name as an owned string (what `Display` would print).
    pub fn display_string(&self) -> (r: String)
        ensures
            r@ == self.name(),
    {
        String::from_str(self.0.as_str())
    }

    /// Whether the name is one of the known domains.
    pub fn is_known(&self) -> (r: bool)
        ensures
            r == known_domains().contains(self.name()),
    {
        let name = crate::text::chars_of(self.0.as_str());
        let mut i: usize = 0;
        while i < 48
            invariant
                i <= 48,
                name@ == self.name(),
                forall|j: int| 0 <= j < i ==> known_domains()[j] != name@,
            decreases 48 - i,
        {
            if chars_eq_str(name.as_slice(), known_domain_at(i)) {
                return true;
            }
            i = i + 1;
        }
        false
    }

    /// Temporal-decay half-life of the domain in days (730 for unlisted
    /// domains).
    pub fn half_life_days(&self) -> (r: u32)
        ensures
            r == half_life_spec(self.name()),
    {
        let n = crate::text::chars_of(self.0.as_str());
        let s = n.as_slice();
        if chars_eq_str(s, "cybersecurity") {
            90
        } else if chars_eq_str(s, "pentesting") {
            120
        } else if chars_eq_str(s, "technology") {
            180
        } else if chars_eq_str(s, "politics") || chars_eq_str(s, "economics") {
            365
        } else if chars_eq_str(s, "finance") {
            270
        } else if chars_eq_str(s, "legal") {
            540
        } else if chars_eq_str(s, "code") || chars_eq_str(s, "code_quality") {
            365
        } else if chars_eq_str(s, "science") || chars_eq_str(s, "biomedical") {
            1825
        } else if chars_eq_str(s, "philosophy") {
            3650
        } else if chars_eq_str(s, "history") {
            7300
        } else if chars_eq_str(s, "mathematics") || chars_eq_str(s, "reasoning") {
            36500
        } else {
            730
        }
    }
}

impl From<&str> for Domain {
    /// Same as `Domain::new`.
    fn from(s: &str) -> (r: Self) {
        Self::new(s)
    }
}

impl vstd::std_specs::convert::FromSpecImpl<&str> for Domain {
    open spec fn obeys_from_spec() -> bool {
        false
    }

    closed spec fn from_spec(v: &str) -> Self {
        choose|d: Domain| d.name() == normalize_domain(v@)
    }
}

impl From<String> for Domain {
    /// Same as `Domain::new` on the string's characters.
    fn from(s: String) -> (r: Self) {
        Self::new(s.as_str())
    }
}

impl vstd::std_specs::convert::FromSpecImpl<String> for Domain {
    open spec fn obeys_from_spec() -> bool {
        false
    }

    closed spec fn from_spec(v: String) -> Self {
        choose|d: Domain| d.name() == normalize_domain(v@)
    }
}

} // verus!
