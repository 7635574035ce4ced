//! Parser for discourse-relation rows (Penn Discourse Treebank, RST):
//! `arg1 | relation | arg2 [| source]`, or the same separated by tabs.
use vstd::prelude::*;
use crate::text::{
    chars_eq_str, trim_str, trim_chars, trim_seq, split_char, split_char_seq, split_pat,
    split_pat_seq, contains_str, contains_seq, views, byte_len, utf8_len, string_from, chars_of,
    to_ascii_lowercase, ascii_lower_seq,
};

verus! {

/// The longest argument kept, in bytes.
pub const MAX_ARG_BYTES: u128 = 512;

/// A parsed discourse row.
#[derive(Debug, Clone, Default, PartialEq)]
pub struct ParsedDiscourseTuple {
    pub arg1: String,
    pub predicate: &'static str,
    pub arg2: String,
    pub raw_relation: String,
    pub source_corpus: Option<String>,
}

/// The canonical predicate of a lower-cased relation label, if we keep it.
pub open spec fn label_predicate(l: Seq<char>) -> Option<Seq<char>> {
    if l == "cause"@ || l == "result"@ || l == "nonvolitional-cause"@ || l == "volitional-cause"@ || l == "nonvolitional-result"@ || l == "volitional-result"@ || l == "cause.reason"@ || l == "cause.result"@ {
        Some("Causes"@)
    } else if l == "contrast"@ || l == "concession"@ || l == "antithesis"@ || l == "otherwise"@ || l == "comparison.contrast"@ || l == "comparison.concession"@ {
        Some("Contrast"@)
    } else if l == "elaboration"@ || l == "elaboration-general-specific"@ || l == "elaboration-set-member"@ || l == "elaboration-object-attribute"@ || l == "expansion.elaboration"@ || l == "expansion.restatement"@ {
        Some("Elaboration"@)
    } else if l == "enablement"@ || l == "purpose"@ || l == "contingency.condition"@ {
        Some("Enables"@)
    } else if l == "condition"@ || l == "hypothetical"@ || l == "contingency.cause"@ {
        Some("Condition"@)
    } else if l == "temporal-before"@ || l == "temporal.asynchronous.precedence"@ || l == "temporal.before"@ {
        Some("IsBefore"@)
    } else if l == "temporal-after"@ || l == "temporal.asynchronous.succession"@ || l == "temporal.after"@ {
        Some("IsAfter"@)
    } else if l == "conjunction"@ || l == "list"@ || l == "joint"@ || l == "expansion.conjunction"@ {
        Some("Conjunction"@)
    } else if l == "background"@ {
        Some("Background"@)
    } else if l == "summary"@ {
        Some("Summary"@)
    } else if l == "evidence"@ || l == "justify"@ {
        Some("Evidence"@)
    } else if l == "manner"@ || l == "circumstance"@ {
        Some("Manner"@)
    } else {
        None
    }
}

/// The canonical predicate of a relation label, matched without regard to
/// ASCII case or surrounding white space.
pub open spec fn discourse_predicate(rel: Seq<char>) -> Option<Seq<char>> {
    label_predicate(ascii_lower_seq(trim_seq(rel)))
}

/// The fields of a row: split on " | " when the trimmed row holds it, on
/// tabs otherwise.
pub open spec fn discourse_parts(t: Seq<char>) -> Seq<Seq<char>> {
    if contains_seq(t, " | "@) {
        split_pat_seq(t, " | "@)
    } else {
        split_char_seq(t, '\t')
    }
}

/// What a row parses to: first argument, predicate, second argument, raw
/// relation and source corpus (the trimmed fourth field, when there is a
/// non-empty one), or nothing for blank lines, comments, short rows, empty
/// or over-long arguments and unknown relations.
pub open spec fn discourse_parse(line: Seq<char>) -> Option<(Seq<char>, Seq<char>, Seq<char>, Seq<char>, Option<Seq<char>>)> {
    let t = trim_seq(line);
    if t.len() == 0 || t[0] == '#' {
        None
    } else {
        let parts = discourse_parts(t);
        if parts.len() < 3 {
            None
        } else {
            let a1 = trim_seq(parts[0]);
            let rel = trim_seq(parts[1]);
            let a2 = trim_seq(parts[2]);
            let src = if parts.len() > 3 && trim_seq(parts[3]).len() > 0 {
                Some(trim_seq(parts[3]))
            } else {
                None
            };
            if a1.len() == 0 || a2.len() == 0 || utf8_len(a1) > 512 || utf8_len(a2) > 512 {
                None
            } else {
                match discourse_predicate(rel) {
                    Some(p) => Some((a1, p, a2, rel, src)),
                    None => None,
                }
            }
        }
    }
}

fn label_name(l: &[char]) -> (r: Option<&'static str>)
    ensures
        match label_predicate(l@) {
            Some(p) => r matches Some(q) && q@ == p,
            None => r is None,
        },
{
    if chars_eq_str(l, "cause") || chars_eq_str(l, "result") || chars_eq_str(l, "nonvolitional-cause") || chars_eq_str(l, "volitional-cause") || chars_eq_str(l, "nonvolitional-result") || chars_eq_str(l, "volitional-result") || chars_eq_str(l, "cause.reason") || chars_eq_str(l, "cause.result") {
        Some("Causes")
    } else if chars_eq_str(l, "contrast") || chars_eq_str(l, "concession") || chars_eq_str(l, "antithesis") || chars_eq_str(l, "otherwise") || chars_eq_str(l, "comparison.contrast") || chars_eq_str(l, "comparison.concession") {
        Some("Contrast")
    } else if chars_eq_str(l, "elaboration") || chars_eq_str(l, "elaboration-general-specific") || chars_eq_str(l, "elaboration-set-member") || chars_eq_str(l, "elaboration-object-attribute") || chars_eq_str(l, "expansion.elaboration") || chars_eq_str(l, "expansion.restatement") {
        Some("Elaboration")
    } else if chars_eq_str(l, "enablement") || chars_eq_str(l, "purpose") || chars_eq_str(l, "contingency.condition") {
        Some("Enables")
    } else if chars_eq_str(l, "condition") || chars_eq_str(l, "hypothetical") || chars_eq_str(l, "contingency.cause") {
        Some("Condition")
    } else if chars_eq_str(l, "temporal-before") || chars_eq_str(l, "temporal.asynchronous.precedence") || chars_eq_str(l, "temporal.before") {
        Some("IsBefore")
    } else if chars_eq_str(l, "temporal-after") || chars_eq_str(l, "temporal.asynchronous.succession") || chars_eq_str(l, "temporal.after") {
        Some("IsAfter")
    } else if chars_eq_str(l, "conjunction") || chars_eq_str(l, "list") || chars_eq_str(l, "joint") || chars_eq_str(l, "expansion.conjunction") {
        Some("Conjunction")
    } else if chars_eq_str(l, "background") {
        Some("Background")
    } else if chars_eq_str(l, "summary") {
        Some("Summary")
    } else if chars_eq_str(l, "evidence") || chars_eq_str(l, "justify") {
        Some("Evidence")
    } else if chars_eq_str(l, "manner") || chars_eq_str(l, "circumstance") {
        Some("Manner")
    } else {
        None
    }
}

/// The canonical predicate of a relation label (see `discourse_predicate`).
fn predicate_name(rel: &[char]) -> (r: Option<&'static str>)
    ensures
        match discourse_predicate(rel@) {
            Some(p) => r matches Some(q) && q@ == p,
            None => r is None,
        },
{
    let t = trim_chars(rel);
    let l = to_ascii_lowercase(t.as_slice());
    label_name(l.as_slice())
}

/// Parse one row; rows that carry no tuple give `None`.
pub fn parse_line(line: &str) -> (r: Option<ParsedDiscourseTuple>)
    ensures
        match discourse_parse(line@) {
            Some(t) => r matches Some(p) && p.arg1@ == t.0 && p.predicate@ == t.1 && p.arg2@ == t.2
                && p.raw_relation@ == t.3 && match t.4 {
                Some(s) => p.source_corpus matches Some(c) && c@ == s,
                None => p.source_corpus is None,
            },
            None => r is None,
        },
{
    let t = trim_str(line);
    if t.len() == 0 || t[0] == '#' {
        return None;
    }
    let parts = if contains_str(t.as_slice(), " | ") {
        let sep = chars_of(" | ");
        proof {
            reveal_strlit(" | ");
        }
        split_pat(t.as_slice(), sep.as_slice())
    } else {
        split_char(t.as_slice(), '\t')
    };
    if parts.len() < 3 {
        return None;
    }
    proof {
        assert(views(parts@)[0] == parts@[0]@);
        assert(views(parts@)[1] == parts@[1]@);
        assert(views(parts@)[2] == parts@[2]@);
    }
    let arg1 = trim_chars(parts[0].as_slice());
    let relation = trim_chars(parts[1].as_slice());
    let arg2 = trim_chars(parts[2].as_slice());
    let source_corpus = if parts.len() > 3 {
        assert(views(parts@)[3] == parts@[3]@);
        let s = trim_chars(parts[3].as_slice());
        if s.len() > 0 {
            Some(string_from(s.as_slice()))
        } else {
            None
        }
    } else {
        None
    };
    if arg1.len() == 0 || arg2.len() == 0 || byte_len(arg1.as_slice()) > MAX_ARG_BYTES
        || byte_len(arg2.as_slice()) > MAX_ARG_BYTES {
        return None;
    }
    match predicate_name(relation.as_slice()) {
        Some(pred) => Some(
            ParsedDiscourseTuple {
                arg1: string_from(arg1.as_slice()),
                predicate: pred,
                arg2: string_from(arg2.as_slice()),
                raw_relation: string_from(relation.as_slice()),
                source_corpus,
            },
        ),
        None => None,
    }
}

} // verus!
