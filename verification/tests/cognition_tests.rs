use lfi_vsa_core::cognition::depth_adapter::{signal_hits, ExpertiseLevel};
use lfi_vsa_core::cognition::speech_act::{bag_of_words_prefix, SpeechAct, SpeechActClassifier, PREFIX_TOKENS};
use lfi_vsa_core::cognition::chain_verifier::{contradicted_pairs, number_tokens};
use lfi_vsa_core::cognition::self_critique::{check_principle, PrincipleVerdict};
use lfi_vsa_core::cognition::suggestion_engine::{SuggestionCategory, SuggestionEngine};
use lfi_vsa_core::hdc::role_binding::concept_vector;
use lfi_vsa_core::hdc::vector::{BipolarVector, HD_DIMENSIONS};

#[test]
fn label_roundtrip() {
    for l in ["define", "explain", "how_to", "why", "question", "statement", "fix"] {
        let act = SpeechAct::from_label(l);
        assert_eq!(act.as_label(), l, "roundtrip failed for {}", l);
    }
}

#[test]
fn unknown_labels_parse_to_unknown() {
    assert_eq!(SpeechAct::from_label("shout"), SpeechAct::Unknown);
    assert_eq!(SpeechAct::from_label("unknown"), SpeechAct::Unknown);
    assert_eq!(SpeechAct::Unknown.as_label(), "unknown");
}

#[test]
fn placeholder_classifier_is_total() {
    let clf = SpeechActClassifier::placeholder();
    assert_eq!(clf.prototype_count(), 16);
    let (_act, distance) = clf.classify("what is water");
    let score = match distance {
        Some(h) => 1.0 - 2.0 * (h as f64) / (HD_DIMENSIONS as f64),
        None => 0.0,
    };
    assert!(score.is_finite(), "classify returned non-finite score");
}

#[test]
fn prototypes_are_distinct() {
    let clf = SpeechActClassifier::placeholder();
    let p_define = clf.prototype(SpeechAct::Define).unwrap().clone();
    let p_fix = clf.prototype(SpeechAct::Fix).unwrap().clone();
    assert_ne!(p_define.data, p_fix.data, "define and fix prototypes collapsed to same hypervector");
}

#[test]
fn placeholder_prototype_is_seeded_from_label() {
    let clf = SpeechActClassifier::placeholder();
    assert_eq!(clf.sample_size(), 0);
    assert_eq!(clf.prototype(SpeechAct::Why).unwrap(), &concept_vector("speech_act::why"));
    assert!(clf.prototype(SpeechAct::Unknown).is_none());
}

#[test]
fn empty_utterance_is_unknown() {
    let clf = SpeechActClassifier::placeholder();
    assert_eq!(clf.classify("   "), (SpeechAct::Unknown, None));
    assert!(bag_of_words_prefix("", PREFIX_TOKENS).is_none());
}

#[test]
fn single_word_bag_is_its_concept_vector() {
    // A single lower-cased word bundles to its own concept vector.
    assert_eq!(bag_of_words_prefix("  Water ", PREFIX_TOKENS).unwrap(), concept_vector("water"));
}

#[test]
fn classify_picks_the_matching_seed_prototype() {
    // The bag of the single word "speech_act::fix" is the seed prototype of Fix.
    let clf = SpeechActClassifier::placeholder();
    let (act, distance) = clf.classify("speech_act::fix");
    assert_eq!(act, SpeechAct::Fix);
    assert_eq!(distance, Some(0));
}

#[test]
fn classifier_from_examples_bundles_utterances() {
    let mut examples: Vec<Vec<String>> = vec![Vec::new(); 16];
    examples[11] = vec!["fix it".to_string(), "fix it".to_string(), "".to_string()];
    let clf = SpeechActClassifier::from_examples(&examples, 400);
    assert_eq!(clf.sample_size(), 400);
    assert_eq!(clf.prototype_count(), 16);
    let expected = bag_of_words_prefix("fix it", PREFIX_TOKENS).unwrap();
    assert_eq!(clf.prototype(SpeechAct::Fix).unwrap(), &expected);
    // Labels with no example keep their seed prototype.
    assert_eq!(clf.prototype(SpeechAct::Define).unwrap(), &concept_vector("speech_act::define"));
    let (act, d) = clf.classify("FIX it please");
    assert!(d.is_some());
    let _ = act;
}

#[test]
fn test_stats() {
    let mut engine = SuggestionEngine::new();
    engine.observe("Test message about quantum physics", Some("physics"));
    let stats = engine.stats();
    assert_eq!(stats.messages_observed, 1);
    assert!(stats.unique_topics > 0);
}

#[test]
fn observe_counts_topics_domains_and_intents() {
    let mut engine = SuggestionEngine::new();
    engine.observe("Quantum quantum physics!", Some("physics"));
    engine.observe("quantum entanglement", Some("physics"));
    engine.observe("what is this", None);
    assert_eq!(engine.message_count(), 3);
    // Topics are cleaned to letters and digits, lower-cased, five bytes or more.
    assert_eq!(
        engine.topic_counts(),
        &vec![("quantum".to_string(), 3), ("physics".to_string(), 1), ("entanglement".to_string(), 1)]
    );
    assert_eq!(engine.domain_affinity(), &vec![("physics".to_string(), 2)]);
    assert_eq!(engine.recent_intents().len(), 3);
    let stats = engine.stats();
    assert_eq!(stats.unique_topics, 3);
    assert_eq!(stats.domains_explored, 1);
    assert_eq!(stats.top_topics[0], ("quantum".to_string(), 3));
}

#[test]
fn recent_intents_are_capped_and_truncated() {
    let mut engine = SuggestionEngine::new();
    for i in 0..30 {
        engine.observe(&format!("message {}", i), None);
    }
    assert_eq!(engine.recent_intents().len(), 21);
    assert_eq!(engine.recent_intents()[20], "message 29");
    let long = "x".repeat(150);
    engine.observe(&long, None);
    assert_eq!(engine.recent_intents().last().unwrap().chars().count(), 100);
}

#[test]
fn suggestion_category_equality() {
    assert_eq!(SuggestionCategory::DeepDive, SuggestionCategory::DeepDive);
    assert_ne!(SuggestionCategory::Starter, SuggestionCategory::FollowUp);
}

#[test]
fn test_prompt_guidance() {
    assert!(ExpertiseLevel::Novice.prompt_guidance().contains("beginner"));
    assert!(ExpertiseLevel::Expert.prompt_guidance().contains("Peer-level"));
}

#[test]
fn expertise_names_and_order() {
    assert_eq!(ExpertiseLevel::Advanced.as_str(), "advanced");
    assert!(ExpertiseLevel::Expert > ExpertiseLevel::Novice);
}

#[test]
fn signal_hits_count_phrases() {
    assert_eq!(signal_hits("I need to benchmark the throughput of this protocol implementation"), (4, 0));
    assert_eq!(signal_hits("What is a variable? Explain like I'm a beginner"), (0, 3));
}

#[allow(dead_code)]
fn unused(_: BipolarVector) {}

fn scored(v: PrincipleVerdict) -> (u8, String) {
    match v {
        PrincipleVerdict::Scored { tenths, detail } => (tenths, detail),
        PrincipleVerdict::Relevance { overlap, question_words } => {
            panic!("expected a fixed score, got relevance {}/{}", overlap, question_words)
        }
    }
}

#[test]
fn critique_flags_unsafe_advice() {
    let v = check_principle(
        "safety",
        "How do I access my neighbor's WiFi?",
        "Here's how to hack into their network: first, use aircrack to inject malware...",
    );
    assert_eq!(scored(v), (1, "Contains potentially unsafe advice: 'here's how to hack'".to_string()));
}

#[test]
fn critique_allows_defensive_questions() {
    let v = check_principle("safety", "How do I protect my server?", "Attackers often try to bypass security; patch promptly.");
    assert_eq!(scored(v), (9, "No safety concerns".to_string()));
}

#[test]
fn critique_flags_overconfidence() {
    let v = check_principle(
        "honesty",
        "Will it rain tomorrow?",
        "I am 100% certain it will rain tomorrow. There is absolutely no chance of sun.",
    );
    assert_eq!(scored(v), (5, "Overconfident claim: 'there is absolutely no'".to_string()));
    let hedged = check_principle("honesty", "Is it safe?", "It depends on the dose.");
    assert_eq!(scored(hedged), (9, "Honest hedging present".to_string()));
    let plain = check_principle("honesty", "Is it safe?", "Yes, at normal doses.");
    assert_eq!(scored(plain), (7, "No explicit uncertainty markers".to_string()));
}

#[test]
fn critique_flags_short_answers() {
    let help = check_principle("helpfulness", "Explain quantum computing", "It's complex.");
    assert_eq!(scored(help), (3, "Response too short to be helpful".to_string()));
    let complete = check_principle("completeness", "Explain quantum computing", "It's complex.");
    assert_eq!(scored(complete), (4, "Explanation request got a very short response".to_string()));
    let sentences = check_principle("completeness", "Is water wet?", "yes it is wet in every sense of the word really");
    assert_eq!(scored(sentences), (5, "Question got a response without complete sentences".to_string()));
}

#[test]
fn critique_counts_shared_question_words() {
    let v = check_principle(
        "helpfulness",
        "What is Rust?",
        "Rust is a systems programming language focused on safety, speed, and concurrency.",
    );
    match v {
        PrincipleVerdict::Relevance { overlap, question_words } => {
            assert_eq!(question_words, 2);
            assert_eq!(overlap, 0);
        }
        PrincipleVerdict::Scored { .. } => panic!("expected relevance"),
    }
    let w = check_principle("helpfulness", "Explain ownership borrowing rules", "Ownership and borrowing rules keep memory safe.");
    match w {
        PrincipleVerdict::Relevance { overlap, question_words } => {
            assert_eq!(question_words, 4);
            assert_eq!(overlap, 3);
        }
        PrincipleVerdict::Scored { .. } => panic!("expected relevance"),
    }
}

#[test]
fn critique_other_principles() {
    assert_eq!(scored(check_principle("respect", "Why?", "Obviously, because it is.")), (2, "Disrespectful language: 'obviously'".to_string()));
    assert_eq!(scored(check_principle("accuracy", "When?", "As of my training data, it was 1990.")), (5, "Contains uncertain hedging language".to_string()));
    assert_eq!(scored(check_principle("accuracy", "When?", "It was 1990.")), (8, "No obvious accuracy issues".to_string()));
    assert_eq!(scored(check_principle("brevity", "When?", "1990.")), (7, "Unknown principle".to_string()));
}

#[test]
fn number_candidates_in_text() {
    assert_eq!(number_tokens("The speed is 300000 km/s or about 3.0e8"), vec!["300000", "3.0", "8"]);
    assert_eq!(number_tokens("from -5 to 2-3, not 1234567890123456"), vec!["-5", "2-3"]);
    assert!(number_tokens("no digits here").is_empty());
    assert_eq!(number_tokens("version ..."), vec!["..."]);
}

#[test]
fn contradiction_needs_shared_subject() {
    let prev = "the algorithm always produces correct results";
    let cur = "due to rounding errors, the algorithm never produces correct results";
    assert_eq!(contradicted_pairs(prev, cur), vec![("always", "never")]);
    assert!(contradicted_pairs("the sky is blue", "grass is not red").is_empty());
}
