//! Predicate-role-filler tuples from PropBank, FrameNet and VerbNet frame
//! records.
use vstd::prelude::*;
use crate::text::{chars_eq_str, trim_str, trim_seq, byte_len, utf8_len, string_from, chars_of};

verus! {

/// The most roles read from one record.
pub const MAX_ROLES: usize = 16;

/// One semantic frame record: a sentence, its frame and the roles found.
#[derive(Debug, Clone)]
pub struct SemanticFrameRecord {
    pub sentence: String,
    pub frame: String,
    pub roles: Vec<Role>,
    /// "propbank", "framenet" or "verbnet".
    pub corpus: Option<String>,
}

/// A role label and its filler.
#[derive(Debug, Clone)]
pub struct Role {
    pub label: String,
    pub filler: String,
}

/// One (frame, role, filler) tuple with its sentence and corpus.
#[derive(Debug, Clone, Default, PartialEq)]
pub struct ParsedRoleTuple {
    pub frame: String,
    pub role_label: String,
    pub filler: String,
    pub sentence: String,
    pub source_corpus: String,
}

/// The view of the roles of a record: label and filler.
pub open spec fn roles_view(roles: Seq<Role>) -> Seq<(Seq<char>, Seq<char>)> {
    roles.map_values(|r: Role| (r.label@, r.filler@))
}

/// The trimmed (label, filler) pairs, among the first `n` roles, whose
/// label and filler are non-empty and within 32 and 256 bytes.
pub open spec fn kept_roles(roles: Seq<(Seq<char>, Seq<char>)>, n: int) -> Seq<(Seq<char>, Seq<char>)>
    decreases n,
{
    if n <= 0 {
        seq![]
    } else {
        let l = trim_seq(roles[n - 1].0);
        let f = trim_seq(roles[n - 1].1);
        if l.len() == 0 || f.len() == 0 || utf8_len(l) > 32 || utf8_len(f) > 256 {
            kept_roles(roles, n - 1)
        } else {
            kept_roles(roles, n - 1).push((l, f))
        }
    }
}

/// Whether a record's trimmed sentence and frame are usable: non-empty and
/// within 1024 and 128 bytes.
pub open spec fn record_usable(sentence: Seq<char>, frame: Seq<char>) -> bool {
    let s = trim_seq(sentence);
    let f = trim_seq(frame);
    !(s.len() == 0 || f.len() == 0 || utf8_len(s) > 1024 || utf8_len(f) > 128)
}

/// The number of roles read from a record.
pub open spec fn roles_read(n: nat) -> int {
    if n < MAX_ROLES { n as int } else { MAX_ROLES as int }
}

/// The source corpus named in the tuples: the record's, or "unknown".
pub open spec fn corpus_name(c: Option<Seq<char>>) -> Seq<char> {
    match c {
        Some(s) => s,
        None => "unknown"@,
    }
}

/// The tuples of a record: one per kept role among its first sixteen, or
/// none when the record is unusable.
pub fn tuples_from_record(record: &SemanticFrameRecord) -> (r: Vec<ParsedRoleTuple>)
    ensures
        !record_usable(record.sentence@, record.frame@) ==> r@.len() == 0,
        record_usable(record.sentence@, record.frame@) ==> {
            let kept = kept_roles(roles_view(record.roles@), roles_read(record.roles@.len()));
            &&& r@.len() == kept.len()
            &&& forall|i: int|
                #![trigger r@[i]]
                0 <= i < r@.len() ==> {
                    &&& r@[i].frame@ == trim_seq(record.frame@)
                    &&& r@[i].sentence@ == trim_seq(record.sentence@)
                    &&& r@[i].role_label@ == kept[i].0
                    &&& r@[i].filler@ == kept[i].1
                    &&& r@[i].source_corpus@ == corpus_name(
                        match record.corpus {
                            Some(c) => Some(c@),
                            None => None,
                        },
                    )
                }
        },
{
    let mut out: Vec<ParsedRoleTuple> = Vec::new();
    let sentence = trim_str(record.sentence.as_str());
    let frame = trim_str(record.frame.as_str());
    if sentence.len() == 0 || frame.len() == 0 || byte_len(sentence.as_slice()) > 1024
        || byte_len(frame.as_slice()) > 128 {
        return out;
    }
    let source: Vec<char> = match &record.corpus {
        Some(c) => chars_of(c.as_str()),
        None => chars_of("unknown"),
    };
    let ghost rv = roles_view(record.roles@);
    let n = if record.roles.len() < MAX_ROLES {
        record.roles.len()
    } else {
        MAX_ROLES
    };
    let mut i: usize = 0;
    while i < n
        invariant
            n == roles_read(record.roles@.len()),
            n <= record.roles@.len(),
            rv == roles_view(record.roles@),
            i <= n,
            sentence@ == trim_seq(record.sentence@),
            frame@ == trim_seq(record.frame@),
            source@ == corpus_name(
                match record.corpus {
                    Some(c) => Some(c@),
                    None => None,
                },
            ),
            out@.len() == kept_roles(rv, i as int).len(),
            forall|k: int|
                #![trigger out@[k]]
                0 <= k < out@.len() ==> {
                    &&& out@[k].frame@ == frame@
                    &&& out@[k].sentence@ == sentence@
                    &&& out@[k].role_label@ == kept_roles(rv, i as int)[k].0
                    &&& out@[k].filler@ == kept_roles(rv, i as int)[k].1
                    &&& out@[k].source_corpus@ == source@
                },
        decreases n - i,
    {
        let role = &record.roles[i];
        assert(rv[i as int] == (role.label@, role.filler@));
        let label = trim_str(role.label.as_str());
        let filler = trim_str(role.filler.as_str());
        if !(label.len() == 0 || filler.len() == 0 || byte_len(label.as_slice()) > 32
            || byte_len(filler.as_slice()) > 256) {
            out.push(
                ParsedRoleTuple {
                    frame: string_from(frame.as_slice()),
                    role_label: string_from(label.as_slice()),
                    filler: string_from(filler.as_slice()),
                    sentence: string_from(sentence.as_slice()),
                    source_corpus: string_from(source.as_slice()),
                },
            );
        }
        i = i + 1;
    }
    out
}

/// The role name of a PropBank label, matched after trimming.
pub open spec fn canonical_role_of(l: Seq<char>) -> Seq<char> {
    if l == "ARG0"@ || l == "A0"@ {
        "Agent"@
    } else if l == "ARG1"@ || l == "A1"@ {
        "Theme"@
    } else if l == "ARG2"@ || l == "A2"@ {
        "Recipient"@
    } else if l == "ARG3"@ || l == "A3"@ {
        "Source"@
    } else if l == "ARG4"@ || l == "A4"@ {
        "Benefactive"@
    } else if l == "ARGM-LOC"@ {
        "Location"@
    } else if l == "ARGM-TMP"@ {
        "Time"@
    } else if l == "ARGM-MNR"@ {
        "Manner"@
    } else if l == "ARGM-CAU"@ {
        "Cause"@
    } else if l == "ARGM-PRP"@ {
        "Purpose"@
    } else {
        "Other"@
    }
}

/// Map a PropBank numbered argument to its role name ("Other" for labels
/// that have none).
pub fn canonical_role(label: &str) -> (r: &'static str)
    ensures
        r@ == canonical_role_of(trim_seq(label@)),
{
    let t = trim_str(label);
    let l = t.as_slice();
    if chars_eq_str(l, "ARG0") || chars_eq_str(l, "A0") {
        "Agent"
    } else if chars_eq_str(l, "ARG1") || chars_eq_str(l, "A1") {
        "Theme"
    } else if chars_eq_str(l, "ARG2") || chars_eq_str(l, "A2") {
        "Recipient"
    } else if chars_eq_str(l, "ARG3") || chars_eq_str(l, "A3") {
        "Source"
    } else if chars_eq_str(l, "ARG4") || chars_eq_str(l, "A4") {
        "Benefactive"
    } else if chars_eq_str(l, "ARGM-LOC") {
        "Location"
    } else if chars_eq_str(l, "ARGM-TMP") {
        "Time"
    } else if chars_eq_str(l, "ARGM-MNR") {
        "Manner"
    } else if chars_eq_str(l, "ARGM-CAU") {
        "Cause"
    } else if chars_eq_str(l, "ARGM-PRP") {
        "Purpose"
    } else {
        "Other"
    }
}

} // verus!
