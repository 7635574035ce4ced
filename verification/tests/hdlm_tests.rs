use lfi_vsa_core::hdc::vector::{BipolarVector, HD_DIMENSIONS};
use lfi_vsa_core::hdlm::ast::{kind_key_string, NodeKind};
use lfi_vsa_core::hdlm::codebook::HdlmCodebook;
use lfi_vsa_core::hdlm::error::HdlmError;
use lfi_vsa_core::hdlm::symbolic_codebook::SymbolicCodebook;

fn similarity(a: &BipolarVector, b: &BipolarVector) -> f64 {
    let h = a.hamming_distance(b).unwrap() as f64;
    1.0 - 2.0 * h / (a.dim() as f64)
}

#[test]
fn encode_is_deterministic_per_symbol() {
    let mut a = SymbolicCodebook::new("wordnet");
    let mut b = SymbolicCodebook::new("wordnet");
    let va = a.encode("bank#1");
    let vb = b.encode("bank#1");
    assert_eq!(va, vb);
}

#[test]
fn different_symbols_produce_different_vectors() {
    let mut cb = SymbolicCodebook::new("wordnet");
    let v1 = cb.encode("bank#1");
    let v2 = cb.encode("bank#2");
    assert_ne!(v1, v2);
    let s = similarity(&v1, &v2);
    assert!(s.abs() < 0.1, "orthogonality expected, got cosine={}", s);
}

#[test]
fn different_namespaces_produce_different_vectors() {
    let mut a = SymbolicCodebook::new("wordnet.noun");
    let mut b = SymbolicCodebook::new("wordnet.verb");
    let va = a.encode("bank");
    let vb = b.encode("bank");
    assert_ne!(va, vb);
}

#[test]
fn cache_is_bounded() {
    let mut cb = SymbolicCodebook::with_capacity("test", 4);
    for i in 0..20 {
        cb.encode(&format!("sym{}", i));
    }
    assert!(cb.cached_count() <= 4, "cache size {} exceeded cap 4", cb.cached_count());
}

#[test]
fn cached_and_uncached_encodings_agree() {
    let mut cb = SymbolicCodebook::with_capacity("scale", 2);
    let a = cb.encode("x");
    let b = cb.encode("x");
    assert_eq!(a, b);
    assert_eq!(a, cb.encode_uncached("x"));
    assert_eq!(cb.cached_count(), 1);
    assert_eq!(cb.namespace(), "scale");
    assert_eq!(a.dim(), HD_DIMENSIONS);
}

#[test]
fn scales_to_10k_symbols_without_collision() {
    let cb = SymbolicCodebook::with_capacity("scale", 10_100);
    let vectors: Vec<_> = (0..100).map(|i| cb.encode_uncached(&format!("synset_{:06}", i))).collect();
    for i in 0..vectors.len() {
        for j in (i + 1)..vectors.len() {
            let s = similarity(&vectors[i], &vectors[j]);
            assert!(s.abs() < 0.1, "symbols {} vs {} not orthogonal: {}", i, j, s);
        }
    }
}

#[test]
fn codebook_dedups_kinds_and_has_ten_positions() {
    let kinds = vec![
        NodeKind::Root,
        NodeKind::Literal { value: "1".into() },
        NodeKind::Root,
    ];
    let cb = HdlmCodebook::new(&kinds).unwrap();
    assert!(cb.get_kind_base(&NodeKind::Root).is_some());
    assert!(cb.get_kind_base(&NodeKind::Literal { value: "1".into() }).is_some());
    assert!(cb.get_kind_base(&NodeKind::Literal { value: "2".into() }).is_none());
    assert!(cb.get_pos_base(9).is_some());
    assert!(cb.get_pos_base(10).is_none());
    assert_eq!(kind_key_string(&NodeKind::Literal { value: "x".into() }), "Literal { value: \"x\" }");
    assert_eq!(kind_key_string(&NodeKind::Root), "Root");
}

#[test]
fn identify_kind_finds_the_nearest_base() {
    let lit = NodeKind::Literal { value: "42".to_string() };
    let cb = HdlmCodebook::new(&[NodeKind::Root, lit.clone()]).unwrap();
    let literal = cb.get_kind_base(&lit).unwrap().clone();
    let (kind, d) = cb.identify_kind(&literal).unwrap();
    assert_eq!(kind, lit);
    assert_eq!(d, 0);
    let root = cb.get_kind_base(&NodeKind::Root).unwrap().clone();
    assert_eq!(cb.identify_kind(&root).unwrap(), (NodeKind::Root, 0));
    let mut near = literal.clone();
    near.data[0] = !near.data[0];
    near.data[1] = !near.data[1];
    assert_eq!(cb.identify_kind(&near).unwrap(), (lit.clone(), 2));
}

#[test]
fn identify_kind_of_a_single_literal() {
    let kinds = vec![NodeKind::Literal { value: "0".to_string() }];
    let cb = HdlmCodebook::new(&kinds).unwrap();
    let hv = cb.get_kind_base(&kinds[0]).unwrap().clone();
    assert_eq!(cb.identify_kind(&hv).unwrap(), (NodeKind::Literal { value: "0".to_string() }, 0));
}

#[test]
fn identify_kind_refuses_bad_queries() {
    let empty = HdlmCodebook::new(&[]).unwrap();
    let v = BipolarVector::from_seed(7);
    match empty.identify_kind(&v) {
        Err(HdlmError::Tier1GenerationFailed { reason }) => assert_eq!(reason, "IdentifyKind: Codebook is empty"),
        other => panic!("unexpected {:?}", other),
    }
    let cb = HdlmCodebook::new(&[NodeKind::Root]).unwrap();
    let short = BipolarVector { data: vec![true, false, true] };
    match cb.identify_kind(&short) {
        Err(HdlmError::Tier1GenerationFailed { reason }) => {
            assert_eq!(reason, format!("Similarity check failed: Dimension Mismatch: expected 3, got {}", HD_DIMENSIONS))
        }
        other => panic!("unexpected {:?}", other),
    }
}
