//! Validated data-source identifiers and their trust tiers.
use vstd::prelude::*;
use crate::text::{
    chars_of, lowercase_str, replace_char, replace_char_seq, starts_with_seq, starts_with_str,
    string_from, trim_chars, trim_seq, unicode_lowercase,
};

verus! {

/// A data-source identifier: lower-cased, trimmed, spaces turned to `_`.
#[derive(Debug, Clone, PartialEq, Eq, Hash)]
pub struct Source(String);

/// Source trust tier, least reliable first.
#[derive(Debug, Clone, Copy, PartialEq, Eq, PartialOrd, Ord, Hash)]
pub enum SourceTier {
    /// Unvetted or unknown provenance.
    Unvetted,
    /// Community-contributed, lightly reviewed.
    Community,
    /// Established dataset with known methodology.
    Curated,
    /// Expert-verified, hand-crafted, or peer-reviewed.
    Authoritative,
}

/// The normal form of a source name.
pub open spec fn normalize_source(name: Seq<char>) -> Seq<char> {
    replace_char_seq(trim_seq(unicode_lowercase(name)), ' ', '_')
}

/// The tier a source name suggests, by its prefix.
pub open spec fn tier_of(s: Seq<char>) -> SourceTier {
    if starts_with_seq(s, "user_correction"@) || starts_with_seq(s, "handcrafted"@)
        || starts_with_seq(s, "expert"@) {
        SourceTier::Authoritative
    } else if starts_with_seq(s, "oasst2"@) || starts_with_seq(s, "dolly"@) || starts_with_seq(
        s,
        "openhermes"@,
    ) || starts_with_seq(s, "sharegpt"@) || starts_with_seq(s, "stanford_alpaca"@)
        || starts_with_seq(s, "metamathqa"@) {
        SourceTier::Curated
    } else if starts_with_seq(s, "ollama"@) || starts_with_seq(s, "self_play"@) || starts_with_seq(
        s,
        "magpie"@,
    ) {
        SourceTier::Community
    } else {
        SourceTier::Unvetted
    }
}

/// Suggested quality floor of a tier, in hundredths.
pub open spec fn floor_of(t: SourceTier) -> u32 {
    match t {
        SourceTier::Authoritative => 85,
        SourceTier::Curated => 70,
        SourceTier::Community => 50,
        SourceTier::Unvetted => 30,
    }
}

impl Source {
    /// The source name.
    pub closed spec fn name(&self) -> Seq<char> {
        self.0@
    }

    /// A source identifier: lower-cased, trimmed, spaces replaced by `_`.
    pub fn new(name: &str) -> (r: Self)
        ensures
            r.name() == normalize_source(name@),
    {
        let lower = lowercase_str(name);
        let trimmed = trim_chars(lower.as_slice());
        let replaced = replace_char(trimmed.as_slice(), ' ', '_');
        Source(string_from(replaced.as_slice()))
    }

    /// The source name as a string slice.
    pub fn as_str(&self) -> (r: &str)
        ensures
            r@ == self.name(),
    {
        self.0.as_str()
    }

    /// The source name as an owned string (what `Display` would print).
    pub fn display_string(&self) -> (r: String)
        ensures
            r@ == self.name(),
    {
        String::from_str(self.0.as_str())
    }

    /// The trust tier the source name suggests.
    pub fn infer_tier(&self) -> (r: SourceTier)
        ensures
            r == tier_of(self.name()),
    {
        let cs = chars_of(self.0.as_str());
        let s = cs.as_slice();
        if starts_with_str(s, "user_correction") || starts_with_str(s, "handcrafted")
            || starts_with_str(s, "expert") {
            SourceTier::Authoritative
        } else if starts_with_str(s, "oasst2") || starts_with_str(s, "dolly") || starts_with_str(
            s,
            "openhermes",
        ) || starts_with_str(s, "sharegpt") || starts_with_str(s, "stanford_alpaca")
            || starts_with_str(s, "metamathqa") {
            SourceTier::Curated
        } else if starts_with_str(s, "ollama") || starts_with_str(s, "self_play")
            || starts_with_str(s, "magpie") {
            SourceTier::Community
        } else {
            SourceTier::Unvetted
        }
    }

    /// Suggested quality floor of the source's tier, in hundredths
    /// (0.85, 0.70, 0.50, 0.30).
    pub fn quality_floor_hundredths(&self) -> (r: u32)
        ensures
            r == floor_of(tier_of(self.name())),
    {
        match self.infer_tier() {
            SourceTier::Authoritative => 85,
            SourceTier::Curated => 70,
            SourceTier::Community => 50,
            SourceTier::Unvetted => 30,
        }
    }
}

/// Higher tiers have higher quality floors.
pub proof fn lemma_floor_follows_tier(a: SourceTier, b: SourceTier)
    ensures
        tier_rank(a) < tier_rank(b) ==> floor_of(a) < floor_of(b),
{
}

/// Position of a tier in the order, least reliable first.
pub open spec fn tier_rank(t: SourceTier) -> int {
    match t {
        SourceTier::Unvetted => 0,
        SourceTier::Community => 1,
        SourceTier::Curated => 2,
        SourceTier::Authoritative => 3,
    }
}

impl From<&str> for Source {
    /// Same as `Source::new`.
    fn from(s: &str) -> (r: Self) {
        Self::new(s)
    }
}

impl vstd::std_specs::convert::FromSpecImpl<&str> for Source {
    open spec fn obeys_from_spec() -> bool {
        false
    }

    closed spec fn from_spec(v: &str) -> Self {
        choose|d: Source| d.name() == normalize_source(v@)
    }
}

impl From<String> for Source {
    /// Same as `Source::new` on the string's characters.
    fn from(s: String) -> (r: Self) {
        Self::new(s.as_str())
    }
}

impl vstd::std_specs::convert::FromSpecImpl<String> for Source {
    open spec fn obeys_from_spec() -> bool {
        false
    }

    closed spec fn from_spec(v: String) -> Self {
        choose|d: Source| d.name() == normalize_source(v@)
    }
}

} // verus!
