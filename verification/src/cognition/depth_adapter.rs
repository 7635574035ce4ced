//! Expertise levels, and the wording signals from which a user's expertise
//! in a domain is estimated.
use vstd::prelude::*;
use crate::text::{lowercase_str, contains_str, contains_seq, unicode_lowercase};

verus! {

/// How much a user knows of a domain, least first.
#[derive(Debug, Clone, Copy, PartialEq, Eq, Structural, PartialOrd)]
pub enum ExpertiseLevel {
    Novice,
    Intermediate,
    Advanced,
    Expert,
}

/// The name of each level.
pub open spec fn level_name(l: ExpertiseLevel) -> Seq<char> {
    match l {
        ExpertiseLevel::Novice => "novice"@,
        ExpertiseLevel::Intermediate => "intermediate"@,
        ExpertiseLevel::Advanced => "advanced"@,
        ExpertiseLevel::Expert => "expert"@,
    }
}

/// The system-prompt guidance of each level.
pub open spec fn level_guidance(l: ExpertiseLevel) -> Seq<char> {
    match l {
        ExpertiseLevel::Novice => "Explain like teaching a beginner. Use simple analogies, avoid jargon. Break into numbered steps. Define any technical term you use."@,
        ExpertiseLevel::Intermediate => "User has basic understanding. Use some technical terms but explain complex ones. Give practical examples."@,
        ExpertiseLevel::Advanced => "User is knowledgeable. Use technical vocabulary freely. Focus on nuances, edge cases, and deeper implications."@,
        ExpertiseLevel::Expert => "Peer-level discussion. Skip fundamentals entirely. Discuss trade-offs, recent developments, and advanced techniques. Be concise."@,
    }
}

impl ExpertiseLevel {
    /// The name of the level.
    pub fn as_str(&self) -> (r: &'static str)
        ensures
            r@ == level_name(*self),
    {
        match self {
            ExpertiseLevel::Novice => "novice",
            ExpertiseLevel::Intermediate => "intermediate",
            ExpertiseLevel::Advanced => "advanced",
            ExpertiseLevel::Expert => "expert",
        }
    }

    /// How a system prompt should pitch explanations for this level.
    pub fn prompt_guidance(&self) -> (r: &'static str)
        ensures
            r@ == level_guidance(*self),
    {
        match self {
            ExpertiseLevel::Novice => "Explain like teaching a beginner. Use simple analogies, avoid jargon. Break into numbered steps. Define any technical term you use.",
            ExpertiseLevel::Intermediate => "User has basic understanding. Use some technical terms but explain complex ones. Give practical examples.",
            ExpertiseLevel::Advanced => "User is knowledgeable. Use technical vocabulary freely. Focus on nuances, edge cases, and deeper implications.",
            ExpertiseLevel::Expert => "Peer-level discussion. Skip fundamentals entirely. Discuss trade-offs, recent developments, and advanced techniques. Be concise.",
        }
    }
}

/// Phrases that suggest an expert.
pub open spec fn expert_signals() -> Seq<Seq<char>> {
    seq![
        "specifically"@, "technically"@, "implementation"@, "architecture"@, "trade-off"@,
        "optimize"@, "benchmark"@, "latency"@, "throughput"@, "complexity"@, "algorithm"@,
        "protocol"@, "kernel"@, "syscall"@, "concurrency"@, "deadlock"@, "mutex"@, "atomic"@,
    ]
}

/// Phrases that suggest a novice.
pub open spec fn novice_signals() -> Seq<Seq<char>> {
    seq![
        "what is"@, "explain like"@, "simple"@, "basic"@, "beginner"@, "don't understand"@,
        "confused"@, "eli5"@, "in simple terms"@, "step by step"@, "how do i start"@,
        "what does"@,
    ]
}

/// How many of the first `n` phrases occur in `s`.
pub open spec fn hits(s: Seq<char>, pats: Seq<Seq<char>>, n: int) -> nat
    decreases n,
{
    if n <= 0 {
        0
    } else {
        hits(s, pats, n - 1) + if contains_seq(s, pats[n - 1]) { 1nat } else { 0nat }
    }
}

fn expert_signal(i: usize) -> (r: &'static str)
    requires
        i < 18,
    ensures
        r@ == expert_signals()[i as int],
{
    match i {
        0 => "specifically",
        1 => "technically",
        2 => "implementation",
        3 => "architecture",
        4 => "trade-off",
        5 => "optimize",
        6 => "benchmark",
        7 => "latency",
        8 => "throughput",
        9 => "complexity",
        10 => "algorithm",
        11 => "protocol",
        12 => "kernel",
        13 => "syscall",
        14 => "concurrency",
        15 => "deadlock",
        16 => "mutex",
        _ => "atomic",
    }
}

fn novice_signal(i: usize) -> (r: &'static str)
    requires
        i < 12,
    ensures
        r@ == novice_signals()[i as int],
{
    match i {
        0 => "what is",
        1 => "explain like",
        2 => "simple",
        3 => "basic",
        4 => "beginner",
        5 => "don't understand",
        6 => "confused",
        7 => "eli5",
        8 => "in simple terms",
        9 => "step by step",
        10 => "how do i start",
        _ => "what does",
    }
}

/// How many expert phrases and how many novice phrases occur in the
/// lower-cased message.
pub fn signal_hits(input: &str) -> (r: (usize, usize))
    ensures
        r.0 == hits(unicode_lowercase(input@), expert_signals(), 18),
        r.1 == hits(unicode_lowercase(input@), novice_signals(), 12),
{
    let lower = lowercase_str(input);
    let s = lower.as_slice();
    let mut e: usize = 0;
    let mut i: usize = 0;
    while i < 18
        invariant
            i <= 18,
            e <= i,
            e == hits(s@, expert_signals(), i as int),
        decreases 18 - i,
    {
        if contains_str(s, expert_signal(i)) {
            e = e + 1;
        }
        i = i + 1;
    }
    let mut n: usize = 0;
    let mut j: usize = 0;
    while j < 12
        invariant
            j <= 12,
            n <= j,
            n == hits(s@, novice_signals(), j as int),
        decreases 12 - j,
    {
        if contains_str(s, novice_signal(j)) {
            n = n + 1;
        }
        j = j + 1;
    }
    (e, n)
}

} // verus!
