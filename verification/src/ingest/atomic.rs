//! Parser for ATOMIC-2020 commonsense if-then rows: `head`, `relation`
//! and `tail`, separated by tabs.
use vstd::prelude::*;
use crate::text::{
    chars_eq_str, trim_str, trim_chars, trim_seq, split_char, split_char_seq, views, byte_len,
    utf8_len, string_from,
};

verus! {

/// The longest head or tail phrase kept, in bytes.
pub const MAX_PHRASE_BYTES: u128 = 256;

/// A parsed ATOMIC row.
#[derive(Debug, Clone, Default, PartialEq)]
pub struct ParsedAtomicTuple {
    pub head: String,
    pub predicate: &'static str,
    pub tail: String,
    /// The relation as written, before it was mapped to a predicate.
    pub raw_relation: String,
}

/// The canonical predicate of an ATOMIC relation, if it is one we keep.
pub open spec fn atomic_predicate(rel: Seq<char>) -> Option<Seq<char>> {
    if rel == "xIntent"@ || rel == "xWant"@ {
        Some("Intends"@)
    } else if rel == "xReact"@ || rel == "oReact"@ {
        Some("Reacts"@)
    } else if rel == "xNeed"@ {
        Some("Needs"@)
    } else if rel == "xAttr"@ {
        Some("HasAttribute"@)
    } else if rel == "xEffect"@ || rel == "oEffect"@ {
        Some("Effect"@)
    } else if rel == "Causes"@ || rel == "HinderedBy"@ {
        Some("Causes"@)
    } else if rel == "isAfter"@ {
        Some("IsAfter"@)
    } else if rel == "isBefore"@ {
        Some("IsBefore"@)
    } else if rel == "HasSubEvent"@ {
        Some("HasSubevent"@)
    } else if rel == "IsA"@ {
        Some("IsA"@)
    } else if rel == "CapableOf"@ {
        Some("CapableOf"@)
    } else if rel == "UsedFor"@ {
        Some("UsedFor"@)
    } else if rel == "PartOf"@ {
        Some("PartOf"@)
    } else if rel == "MadeUpOf"@ {
        Some("PartOf"@)
    } else if rel == "HasProperty"@ {
        Some("HasProperty"@)
    } else {
        None
    }
}

/// What a row parses to: head, predicate, tail and raw relation, or nothing
/// for blank lines, comments, short rows, "none" fillers, phrases over
/// the byte limit and relations we do not keep.
pub open spec fn atomic_parse(line: Seq<char>) -> Option<(Seq<char>, Seq<char>, Seq<char>, Seq<char>)> {
    let t = trim_seq(line);
    if t.len() == 0 || t[0] == '#' {
        None
    } else {
        let parts = split_char_seq(t, '\t');
        if parts.len() < 3 {
            None
        } else {
            let head = trim_seq(parts[0]);
            let rel = trim_seq(parts[1]);
            let tail = trim_seq(parts[2]);
            if head.len() == 0 || tail.len() == 0 || tail == "none"@ || head == "none"@ {
                None
            } else if utf8_len(head) > 256 || utf8_len(tail) > 256 {
                None
            } else {
                match atomic_predicate(rel) {
                    Some(p) => Some((head, p, tail, rel)),
                    None => None,
                }
            }
        }
    }
}

fn predicate_name(rel: &[char]) -> (r: Option<&'static str>)
    ensures
        match atomic_predicate(rel@) {
            Some(p) => r matches Some(q) && q@ == p,
            None => r is None,
        },
{
    if chars_eq_str(rel, "xIntent") || chars_eq_str(rel, "xWant") {
        Some("Intends")
    } else if chars_eq_str(rel, "xReact") || chars_eq_str(rel, "oReact") {
        Some("Reacts")
    } else if chars_eq_str(rel, "xNeed") {
        Some("Needs")
    } else if chars_eq_str(rel, "xAttr") {
        Some("HasAttribute")
    } else if chars_eq_str(rel, "xEffect") || chars_eq_str(rel, "oEffect") {
        Some("Effect")
    } else if chars_eq_str(rel, "Causes") || chars_eq_str(rel, "HinderedBy") {
        Some("Causes")
    } else if chars_eq_str(rel, "isAfter") {
        Some("IsAfter")
    } else if chars_eq_str(rel, "isBefore") {
        Some("IsBefore")
    } else if chars_eq_str(rel, "HasSubEvent") {
        Some("HasSubevent")
    } else if chars_eq_str(rel, "IsA") {
        Some("IsA")
    } else if chars_eq_str(rel, "CapableOf") {
        Some("CapableOf")
    } else if chars_eq_str(rel, "UsedFor") {
        Some("UsedFor")
    } else if chars_eq_str(rel, "PartOf") {
        Some("PartOf")
    } else if chars_eq_str(rel, "MadeUpOf") {
        Some("PartOf")
    } else if chars_eq_str(rel, "HasProperty") {
        Some("HasProperty")
    } else {
        None
    }
}

/// Parse one row. It never fails: rows that carry no tuple give `None`.
pub fn parse_line(line: &str) -> (r: Result<Option<ParsedAtomicTuple>, &'static str>)
    ensures
        r matches Ok(o) && match atomic_parse(line@) {
            Some(t) => o matches Some(p) && p.head@ == t.0 && p.predicate@ == t.1 && p.tail@ == t.2
                && p.raw_relation@ == t.3,
            None => o is None,
        },
{
    let t = trim_str(line);
    if t.len() == 0 || t[0] == '#' {
        return Ok(None);
    }
    let parts = split_char(t.as_slice(), '\t');
    if parts.len() < 3 {
        return Ok(None);
    }
    proof {
        assert(views(parts@)[0] == parts@[0]@);
        assert(views(parts@)[1] == parts@[1]@);
        assert(views(parts@)[2] == parts@[2]@);
    }
    let head = trim_chars(parts[0].as_slice());
    let relation = trim_chars(parts[1].as_slice());
    let tail = trim_chars(parts[2].as_slice());
    if head.len() == 0 || tail.len() == 0 || chars_eq_str(tail.as_slice(), "none")
        || chars_eq_str(head.as_slice(), "none") {
        return Ok(None);
    }
    if byte_len(head.as_slice()) > MAX_PHRASE_BYTES || byte_len(tail.as_slice()) > MAX_PHRASE_BYTES {
        return Ok(None);
    }
    match predicate_name(relation.as_slice()) {
        Some(pred) => Ok(
            Some(
                ParsedAtomicTuple {
                    head: string_from(head.as_slice()),
                    predicate: pred,
                    tail: string_from(tail.as_slice()),
                    raw_relation: string_from(relation.as_slice()),
                },
            ),
        ),
        None => Ok(None),
    }
}

} // verus!
