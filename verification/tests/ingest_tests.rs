use lfi_vsa_core::ingest::atomic;
use lfi_vsa_core::ingest::discourse;
use lfi_vsa_core::ingest::semantic_role::{canonical_role, tuples_from_record, Role, SemanticFrameRecord};

// ---------------------------------------------------------------- atomic

#[test]
fn parses_basic_intent_tuple() {
    let line = "PersonX starts running\txIntent\tto get fit";
    let p = atomic::parse_line(line).unwrap().unwrap();
    assert_eq!(p.head, "PersonX starts running");
    assert_eq!(p.predicate, "Intends");
    assert_eq!(p.tail, "to get fit");
    assert_eq!(p.raw_relation, "xIntent");
}

#[test]
fn parses_causes_tuple() {
    let line = "rain\tCauses\tflooding";
    let p = atomic::parse_line(line).unwrap().unwrap();
    assert_eq!(p.predicate, "Causes");
}

#[test]
fn skips_none_fillers() {
    let line = "X\txIntent\tnone";
    assert!(atomic::parse_line(line).unwrap().is_none());
}

#[test]
fn atomic_skips_blank_and_comments() {
    assert!(atomic::parse_line("").unwrap().is_none());
    assert!(atomic::parse_line("# comment line").unwrap().is_none());
}

#[test]
fn atomic_skips_unknown_relation() {
    let line = "X\tSomeWeirdRel\tY";
    assert!(atomic::parse_line(line).unwrap().is_none());
}

#[test]
fn skips_short_rows() {
    assert!(atomic::parse_line("just one col").unwrap().is_none());
    assert!(atomic::parse_line("two\tcols").unwrap().is_none());
}

#[test]
fn caps_oversize_phrases() {
    let huge = "x".repeat(300);
    let line = format!("{}\txIntent\t{}", huge, huge);
    assert!(atomic::parse_line(&line).unwrap().is_none());
}

#[test]
fn atomic_trims_fields_and_maps_aliases() {
    let p = atomic::parse_line("  a cup \t MadeUpOf \t clay  ").unwrap().unwrap();
    assert_eq!(p.head, "a cup");
    assert_eq!(p.predicate, "PartOf");
    assert_eq!(p.tail, "clay");
    assert_eq!(p.raw_relation, "MadeUpOf");
    let q = atomic::parse_line("x\tHinderedBy\ty").unwrap().unwrap();
    assert_eq!(q.predicate, "Causes");
    // 256 bytes is still accepted.
    let edge = "y".repeat(256);
    assert!(atomic::parse_line(&format!("{}\txNeed\tz", edge)).unwrap().is_some());
}

// ---------------------------------------------------------------- discourse

#[test]
fn parses_pipe_delimited_cause() {
    let line = "The rain started. | Cause | The ground became wet.";
    let p = discourse::parse_line(line).unwrap();
    assert_eq!(p.predicate, "Causes");
    assert_eq!(p.arg1, "The rain started.");
    assert_eq!(p.arg2, "The ground became wet.");
}

#[test]
fn parses_tsv_contrast() {
    let line = "She studied hard.\tContrast\tShe still failed.";
    let p = discourse::parse_line(line).unwrap();
    assert_eq!(p.predicate, "Contrast");
}

#[test]
fn captures_source_corpus_when_present() {
    let line = "X | Elaboration | Y | pdt";
    let p = discourse::parse_line(line).unwrap();
    assert_eq!(p.source_corpus.as_deref(), Some("pdt"));
}

#[test]
fn case_insensitive_relation_match() {
    let line = "A | CAUSE | B";
    let p = discourse::parse_line(line).unwrap();
    assert_eq!(p.predicate, "Causes");
}

#[test]
fn maps_compound_labels() {
    let line = "A | Comparison.Contrast | B";
    let p = discourse::parse_line(line).unwrap();
    assert_eq!(p.predicate, "Contrast");
}

#[test]
fn discourse_skips_blank_and_comments() {
    assert!(discourse::parse_line("").is_none());
    assert!(discourse::parse_line("# comment").is_none());
}

#[test]
fn discourse_skips_unknown_relation() {
    assert!(discourse::parse_line("A | FooBar | B").is_none());
}

#[test]
fn discourse_source_absent_or_blank() {
    let p = discourse::parse_line("A | Summary | B").unwrap();
    assert_eq!(p.source_corpus, None);
    assert_eq!(p.raw_relation, "Summary");
    let q = discourse::parse_line("A | Manner | B |   ").unwrap();
    assert_eq!(q.source_corpus, None);
    let long = "z".repeat(513);
    assert!(discourse::parse_line(&format!("{} | Cause | B", long)).is_none());
}

// ---------------------------------------------------------------- semantic roles

#[test]
fn canonical_role_mapping_core_args() {
    assert_eq!(canonical_role("ARG0"), "Agent");
    assert_eq!(canonical_role("A1"), "Theme");
    assert_eq!(canonical_role("ARGM-LOC"), "Location");
    assert_eq!(canonical_role("unknown"), "Other");
}

fn role(label: &str, filler: &str) -> Role {
    Role { label: label.into(), filler: filler.into() }
}

#[test]
fn tuples_from_propbank_record() {
    let record = SemanticFrameRecord {
        sentence: "John broke the window.".into(),
        frame: "break.01".into(),
        roles: vec![role("ARG0", "John"), role("ARG1", "the window")],
        corpus: Some("propbank".into()),
    };
    let out = tuples_from_record(&record);
    assert_eq!(out.len(), 2);
    assert_eq!(out[0].role_label, "ARG0");
    assert_eq!(out[0].filler, "John");
    assert_eq!(out[1].role_label, "ARG1");
    assert_eq!(out[0].source_corpus, "propbank");
    assert_eq!(out[1].frame, "break.01");
}

#[test]
fn tuples_skip_bad_records_and_roles() {
    let empty = SemanticFrameRecord { sentence: "".into(), frame: "x.01".into(), roles: vec![], corpus: None };
    assert!(tuples_from_record(&empty).is_empty());
    let long = "x".repeat(300);
    let oversize = SemanticFrameRecord {
        sentence: "S".into(),
        frame: "f.01".into(),
        roles: vec![role("ARG0", &long)],
        corpus: None,
    };
    assert!(tuples_from_record(&oversize).is_empty());
    let many = SemanticFrameRecord {
        sentence: "S".into(),
        frame: "f.01".into(),
        roles: (0..20).map(|i| role(&format!("R{}", i), &format!("f{}", i))).collect(),
        corpus: None,
    };
    let out = tuples_from_record(&many);
    assert_eq!(out.len(), 16);
    assert_eq!(out[0].source_corpus, "unknown");
}
