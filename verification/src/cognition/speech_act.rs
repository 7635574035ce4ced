//! Speech-act classification by prototype matching.
//!
//! Each speech act has a prototype hypervector. An utterance is turned into a
//! bag-of-words vector over its first few words, and the prototype nearest to
//! it (fewest differing bits, i.e. highest cosine similarity) names the act.
use vstd::prelude::*;
use crate::hdc::vector::{
    lemma_hamming_bounded,
    BipolarVector, HD_DIMENSIONS, bundle_seq, hamming_seq, vec_views,
};
use crate::hdc::role_binding::{concept_vector, concept_bits};
use crate::text::{
    chars_of, chars_eq_str, split_whitespace, lowercase_chars, string_from, push_str, words,
    views, unicode_lowercase,
};

verus! {

/// Number of leading words bundled into an utterance's vector.
pub const PREFIX_TOKENS: usize = 6;

/// Number of speech acts that have a prototype.
pub const KNOWN_ACTS: usize = 16;

/// Speech-act labels of the intent decomposer.
#[derive(Debug, Clone, Copy, PartialEq, Eq, Structural, Hash)]
pub enum SpeechAct {
    Define,
    Explain,
    HowTo,
    Why,
    WhQuestion,
    WhoQuestion,
    Compare,
    Enumerate,
    Generate,
    Summarize,
    Translate,
    Fix,
    Improve,
    Analyze,
    Question,
    Statement,
    Unknown,
}

/// The label of each speech act.
pub open spec fn label_of(a: SpeechAct) -> Seq<char> {
    match a {
        SpeechAct::Define => "define"@,
        SpeechAct::Explain => "explain"@,
        SpeechAct::HowTo => "how_to"@,
        SpeechAct::Why => "why"@,
        SpeechAct::WhQuestion => "wh_question"@,
        SpeechAct::WhoQuestion => "who_question"@,
        SpeechAct::Compare => "compare"@,
        SpeechAct::Enumerate => "enumerate"@,
        SpeechAct::Generate => "generate"@,
        SpeechAct::Summarize => "summarize"@,
        SpeechAct::Translate => "translate"@,
        SpeechAct::Fix => "fix"@,
        SpeechAct::Improve => "improve"@,
        SpeechAct::Analyze => "analyze"@,
        SpeechAct::Question => "question"@,
        SpeechAct::Statement => "statement"@,
        SpeechAct::Unknown => "unknown"@,
    }
}

/// The speech act a label names; anything that is not one of the sixteen
/// known labels is `Unknown`.
pub open spec fn act_of_label(s: Seq<char>) -> SpeechAct {
    if s == "define"@ {
        SpeechAct::Define
    } else if s == "explain"@ {
        SpeechAct::Explain
    } else if s == "how_to"@ {
        SpeechAct::HowTo
    } else if s == "why"@ {
        SpeechAct::Why
    } else if s == "wh_question"@ {
        SpeechAct::WhQuestion
    } else if s == "who_question"@ {
        SpeechAct::WhoQuestion
    } else if s == "compare"@ {
        SpeechAct::Compare
    } else if s == "enumerate"@ {
        SpeechAct::Enumerate
    } else if s == "generate"@ {
        SpeechAct::Generate
    } else if s == "summarize"@ {
        SpeechAct::Summarize
    } else if s == "translate"@ {
        SpeechAct::Translate
    } else if s == "fix"@ {
        SpeechAct::Fix
    } else if s == "improve"@ {
        SpeechAct::Improve
    } else if s == "analyze"@ {
        SpeechAct::Analyze
    } else if s == "question"@ {
        SpeechAct::Question
    } else if s == "statement"@ {
        SpeechAct::Statement
    } else {
        SpeechAct::Unknown
    }
}

/// The speech act of the `i`-th prototype, in the order of the known labels.
pub open spec fn known_act(i: int) -> SpeechAct {
    if i == 0 {
        SpeechAct::Define
    } else if i == 1 {
        SpeechAct::Explain
    } else if i == 2 {
        SpeechAct::HowTo
    } else if i == 3 {
        SpeechAct::Why
    } else if i == 4 {
        SpeechAct::WhQuestion
    } else if i == 5 {
        SpeechAct::WhoQuestion
    } else if i == 6 {
        SpeechAct::Compare
    } else if i == 7 {
        SpeechAct::Enumerate
    } else if i == 8 {
        SpeechAct::Generate
    } else if i == 9 {
        SpeechAct::Summarize
    } else if i == 10 {
        SpeechAct::Translate
    } else if i == 11 {
        SpeechAct::Fix
    } else if i == 12 {
        SpeechAct::Improve
    } else if i == 13 {
        SpeechAct::Analyze
    } else if i == 14 {
        SpeechAct::Question
    } else {
        SpeechAct::Statement
    }
}

impl SpeechAct {
    /// Parse a label of the dialogue-tuple ingester.
    pub fn from_label(s: &str) -> (r: SpeechAct)
        ensures
            r == act_of_label(s@),
    {
        let cs = chars_of(s);
        let c = cs.as_slice();
        if chars_eq_str(c, "define") {
            SpeechAct::Define
        } else if chars_eq_str(c, "explain") {
            SpeechAct::Explain
        } else if chars_eq_str(c, "how_to") {
            SpeechAct::HowTo
        } else if chars_eq_str(c, "why") {
            SpeechAct::Why
        } else if chars_eq_str(c, "wh_question") {
            SpeechAct::WhQuestion
        } else if chars_eq_str(c, "who_question") {
            SpeechAct::WhoQuestion
        } else if chars_eq_str(c, "compare") {
            SpeechAct::Compare
        } else if chars_eq_str(c, "enumerate") {
            SpeechAct::Enumerate
        } else if chars_eq_str(c, "generate") {
            SpeechAct::Generate
        } else if chars_eq_str(c, "summarize") {
            SpeechAct::Summarize
        } else if chars_eq_str(c, "translate") {
            SpeechAct::Translate
        } else if chars_eq_str(c, "fix") {
            SpeechAct::Fix
        } else if chars_eq_str(c, "improve") {
            SpeechAct::Improve
        } else if chars_eq_str(c, "analyze") {
            SpeechAct::Analyze
        } else if chars_eq_str(c, "question") {
            SpeechAct::Question
        } else if chars_eq_str(c, "statement") {
            SpeechAct::Statement
        } else {
            SpeechAct::Unknown
        }
    }

    /// The label of this speech act.
    pub fn as_label(self) -> (r: &'static str)
        ensures
            r@ == label_of(self),
    {
        match self {
            SpeechAct::Define => "define",
            SpeechAct::Explain => "explain",
            SpeechAct::HowTo => "how_to",
            SpeechAct::Why => "why",
            SpeechAct::WhQuestion => "wh_question",
            SpeechAct::WhoQuestion => "who_question",
            SpeechAct::Compare => "compare",
            SpeechAct::Enumerate => "enumerate",
            SpeechAct::Generate => "generate",
            SpeechAct::Summarize => "summarize",
            SpeechAct::Translate => "translate",
            SpeechAct::Fix => "fix",
            SpeechAct::Improve => "improve",
            SpeechAct::Analyze => "analyze",
            SpeechAct::Question => "question",
            SpeechAct::Statement => "statement",
            SpeechAct::Unknown => "unknown",
        }
    }
}

/// Parsing the label of any speech act gives that speech act back.
pub proof fn lemma_label_roundtrip(a: SpeechAct)
    ensures
        act_of_label(label_of(a)) == a,
{
    reveal_strlit("define");
    reveal_strlit("explain");
    reveal_strlit("how_to");
    reveal_strlit("why");
    reveal_strlit("wh_question");
    reveal_strlit("who_question");
    reveal_strlit("compare");
    reveal_strlit("enumerate");
    reveal_strlit("generate");
    reveal_strlit("summarize");
    reveal_strlit("translate");
    reveal_strlit("fix");
    reveal_strlit("improve");
    reveal_strlit("analyze");
    reveal_strlit("question");
    reveal_strlit("statement");
    reveal_strlit("unknown");
    assert("define"@.len() == 6 && "define"@[0] == 'd');
    assert("explain"@.len() == 7 && "explain"@[0] == 'e');
    assert("how_to"@.len() == 6 && "how_to"@[0] == 'h');
    assert("why"@.len() == 3 && "why"@[0] == 'w');
    assert("wh_question"@.len() == 11 && "wh_question"@[0] == 'w');
    assert("who_question"@.len() == 12 && "who_question"@[0] == 'w');
    assert("compare"@.len() == 7 && "compare"@[0] == 'c');
    assert("enumerate"@.len() == 9 && "enumerate"@[0] == 'e');
    assert("generate"@.len() == 8 && "generate"@[0] == 'g');
    assert("summarize"@.len() == 9 && "summarize"@[0] == 's');
    assert("translate"@.len() == 9 && "translate"@[0] == 't');
    assert("fix"@.len() == 3 && "fix"@[0] == 'f');
    assert("improve"@.len() == 7 && "improve"@[0] == 'i');
    assert("analyze"@.len() == 7 && "analyze"@[0] == 'a');
    assert("question"@.len() == 8 && "question"@[0] == 'q');
    assert("statement"@.len() == 9 && "statement"@[0] == 's');
    assert("unknown"@.len() == 7 && "unknown"@[0] == 'u');
    assert("summarize"@[1] != "statement"@[1]);
}


/// The keys of the first `n` words: each lower-cased, empty ones dropped.
pub open spec fn lowered_keys(ws: Seq<Seq<char>>, n: int) -> Seq<Seq<char>>
    decreases n,
{
    if n <= 0 {
        seq![]
    } else {
        let prev = lowered_keys(ws, n - 1);
        let w = unicode_lowercase(ws[n - 1]);
        if w.len() > 0 {
            prev.push(w)
        } else {
            prev
        }
    }
}

/// The keys of an utterance: its first `max_tokens` white-space separated
/// words, lower-cased, without empty ones.
pub open spec fn prefix_keys(text: Seq<char>, max_tokens: nat) -> Seq<Seq<char>> {
    let ws = words(text);
    lowered_keys(ws, if max_tokens < ws.len() { max_tokens as int } else { ws.len() as int })
}

/// The concept vectors of a family of keys.
pub open spec fn key_bits(keys: Seq<Seq<char>>) -> Seq<Seq<bool>> {
    keys.map_values(|k: Seq<char>| concept_bits(k))
}

/// The bag-of-words vector of a non-empty family of keys: the bundle of
/// their concept vectors.
pub open spec fn bag_bits(keys: Seq<Seq<char>>) -> Seq<bool> {
    bundle_seq(key_bits(keys))
}

/// Every concept vector has the full dimension.
pub proof fn lemma_concept_dims(k: Seq<char>)
    ensures
        concept_bits(k).len() == HD_DIMENSIONS,
{
}

/// The bag-of-words hypervector of the first `max_tokens` words of `text`,
/// or `None` when there is no word.
pub fn bag_of_words_prefix(text: &str, max_tokens: usize) -> (r: Option<BipolarVector>)
    ensures
        prefix_keys(text@, max_tokens as nat).len() == 0 ==> r is None,
        prefix_keys(text@, max_tokens as nat).len() > 0 ==> (r matches Some(v) && v@ == bag_bits(
            prefix_keys(text@, max_tokens as nat),
        )),
{
    let cs = chars_of(text);
    let ws = split_whitespace(cs.as_slice());
    let n = if max_tokens < ws.len() {
        max_tokens
    } else {
        ws.len()
    };
    let mut hvs: Vec<BipolarVector> = Vec::new();
    let ghost mut keys: Seq<Seq<char>> = seq![];
    let mut i: usize = 0;
    while i < n
        invariant
            i <= n,
            n <= ws@.len(),
            views(ws@) == words(text@),
            keys == lowered_keys(views(ws@), i as int),
            hvs@.len() == keys.len(),
            forall|k: int| 0 <= k < hvs@.len() ==> #[trigger] hvs@[k]@ == concept_bits(keys[k]),
        decreases n - i,
    {
        let w = lowercase_chars(ws[i].as_slice());
        assert(views(ws@)[i as int] == ws@[i as int]@);
        if w.len() > 0 {
            let st = string_from(w.as_slice());
            let v = concept_vector(st.as_str());
            hvs.push(v);
            proof {
                keys = keys.push(w@);
            }
        }
        i = i + 1;
    }
    assert(keys == prefix_keys(text@, max_tokens as nat));
    if hvs.len() == 0 {
        return None;
    }
    let mut refs: Vec<&BipolarVector> = Vec::new();
    let mut j: usize = 0;
    while j < hvs.len()
        invariant
            j <= hvs@.len(),
            refs@.len() == j,
            forall|k: int| 0 <= k < j ==> #[trigger] refs@[k]@ == hvs@[k]@,
        decreases hvs@.len() - j,
    {
        refs.push(&hvs[j]);
        j = j + 1;
    }
    proof {
        assert(vec_views(refs@) =~= key_bits(keys));
        assert forall|k: int| 0 <= k < key_bits(keys).len() implies #[trigger] key_bits(
            keys,
        )[k].len() == key_bits(keys)[0].len() by {
            lemma_concept_dims(keys[k]);
            lemma_concept_dims(keys[0]);
        }
    }
    match BipolarVector::bundle(refs.as_slice()) {
        Ok(v) => Some(v),
        Err(_) => hvs.pop(),
    }
}

/// Distinct positions hold distinct speech acts.
pub proof fn lemma_known_act_injective(i: int, j: int)
    requires
        0 <= i < KNOWN_ACTS,
        0 <= j < KNOWN_ACTS,
        known_act(i) == known_act(j),
    ensures
        i == j,
{
}

/// The label of the `i`-th prototype.
fn known_label_str(i: usize) -> (r: &'static str)
    requires
        i < KNOWN_ACTS,
    ensures
        r@ == label_of(known_act(i as int)),
{
    match i {
        0 => "define",
        1 => "explain",
        2 => "how_to",
        3 => "why",
        4 => "wh_question",
        5 => "who_question",
        6 => "compare",
        7 => "enumerate",
        8 => "generate",
        9 => "summarize",
        10 => "translate",
        11 => "fix",
        12 => "improve",
        13 => "analyze",
        14 => "question",
        _ => "statement",
    }
}

/// The seed prototype of a speech act with no examples.
pub open spec fn placeholder_bits(a: SpeechAct) -> Seq<bool> {
    concept_bits("speech_act::"@ + label_of(a))
}

/// The seed prototype of the speech act with the given label.
fn placeholder_vector(label: &str) -> (r: BipolarVector)
    ensures
        r@ == concept_bits("speech_act::"@ + label@),
{
    let mut key: Vec<char> = Vec::new();
    push_str(&mut key, "speech_act::");
    push_str(&mut key, label);
    let st = string_from(key.as_slice());
    concept_vector(st.as_str())
}

/// The bag-of-words vectors of those of the first `n` utterances that have
/// a word, in order.
pub open spec fn utterance_bags(texts: Seq<Seq<char>>, n: int) -> Seq<Seq<bool>>
    decreases n,
{
    if n <= 0 {
        seq![]
    } else {
        let prev = utterance_bags(texts, n - 1);
        let keys = prefix_keys(texts[n - 1], PREFIX_TOKENS as nat);
        if keys.len() > 0 {
            prev.push(bag_bits(keys))
        } else {
            prev
        }
    }
}

/// The prototype of a speech act built from its example utterances, of
/// which at most `per_intent` are read: the bundle of their bag-of-words
/// vectors, or the seed prototype when none of them has a word.
pub open spec fn example_proto(a: SpeechAct, texts: Seq<Seq<char>>, per_intent: nat) -> Seq<bool> {
    let m = if per_intent < texts.len() { per_intent as int } else { texts.len() as int };
    let bags = utterance_bags(texts, m);
    if bags.len() == 0 {
        placeholder_bits(a)
    } else {
        bundle_seq(bags)
    }
}

/// The example utterances given for the `i`-th speech act.
pub open spec fn examples_at(examples: Seq<Vec<String>>, i: int) -> Seq<Seq<char>> {
    if i < examples.len() {
        examples[i]@.map_values(|t: String| t@)
    } else {
        seq![]
    }
}

/// A bag-of-words vector has the full dimension.
pub proof fn lemma_bag_dims(keys: Seq<Seq<char>>)
    requires
        keys.len() > 0,
    ensures
        bag_bits(keys).len() == HD_DIMENSIONS,
{
    lemma_concept_dims(keys[0]);
}

/// The prototype of one speech act built from its example utterances.
fn prototype_from(label: &str, rows: &[String], per_intent: usize) -> (r: BipolarVector)
    requires
        label_of(act_of_label(label@)) == label@,
    ensures
        r@ == example_proto(act_of_label(label@), rows@.map_values(|t: String| t@), per_intent as nat),
        r@.len() == HD_DIMENSIONS,
{
    let ghost texts = rows@.map_values(|t: String| t@);
    let m = if per_intent < rows.len() {
        per_intent
    } else {
        rows.len()
    };
    let mut hvs: Vec<BipolarVector> = Vec::new();
    let mut i: usize = 0;
    while i < m
        invariant
            i <= m,
            m <= rows@.len(),
            texts == rows@.map_values(|t: String| t@),
            hvs@.len() == utterance_bags(texts, i as int).len(),
            forall|k: int| 0 <= k < hvs@.len() ==> #[trigger] hvs@[k]@ == utterance_bags(texts, i as int)[k],
            forall|k: int| 0 <= k < hvs@.len() ==> #[trigger] hvs@[k]@.len() == HD_DIMENSIONS,
        decreases m - i,
    {
        assert(texts[i as int] == rows@[i as int]@);
        match bag_of_words_prefix(rows[i].as_str(), PREFIX_TOKENS) {
            Some(v) => {
                proof {
                    lemma_bag_dims(prefix_keys(texts[i as int], PREFIX_TOKENS as nat));
                }
                hvs.push(v);
            },
            None => {},
        }
        i = i + 1;
    }
    if hvs.len() == 0 {
        let v = placeholder_vector(label);
        proof {
            lemma_concept_dims("speech_act::"@ + label@);
        }
        return v;
    }
    let mut refs: Vec<&BipolarVector> = Vec::new();
    let mut j: usize = 0;
    while j < hvs.len()
        invariant
            j <= hvs@.len(),
            refs@.len() == j,
            forall|k: int| 0 <= k < j ==> #[trigger] refs@[k]@ == hvs@[k]@,
        decreases hvs@.len() - j,
    {
        refs.push(&hvs[j]);
        j = j + 1;
    }
    let ghost bags = utterance_bags(texts, m as int);
    proof {
        assert(vec_views(refs@) =~= bags);
        assert(bundle_seq(bags).len() == bags[0].len());
    }
    match BipolarVector::bundle(refs.as_slice()) {
        Ok(v) => v,
        Err(_) => {
            let v = placeholder_vector(label);
            v
        },
    }
}

/// A prototype-based speech-act classifier: one prototype per known speech
/// act, in the order of the known labels.
pub struct SpeechActClassifier {
    prototypes: Vec<(SpeechAct, BipolarVector)>,
    per_intent_samples: usize,
}

impl SpeechActClassifier {
    #[verifier::type_invariant]
    spec fn wf(&self) -> bool {
        &&& self.prototypes@.len() == KNOWN_ACTS
        &&& forall|i: int|
            #![trigger self.prototypes@[i]]
            0 <= i < KNOWN_ACTS ==> self.prototypes@[i].0 == known_act(i)
                && self.prototypes@[i].1@.len() == HD_DIMENSIONS
    }

    /// The speech act of each prototype.
    pub closed spec fn acts(&self) -> Seq<SpeechAct> {
        self.prototypes@.map_values(|p: (SpeechAct, BipolarVector)| p.0)
    }

    /// The hypervector of each prototype.
    pub closed spec fn protos(&self) -> Seq<Seq<bool>> {
        self.prototypes@.map_values(|p: (SpeechAct, BipolarVector)| p.1@)
    }

    /// The number of examples bundled per speech act.
    pub closed spec fn samples(&self) -> usize {
        self.per_intent_samples
    }

    /// A classifier whose prototypes are the seed prototypes of the known
    /// labels.
    pub fn placeholder() -> (r: SpeechActClassifier)
        ensures
            r.samples() == 0,
            r.acts().len() == KNOWN_ACTS,
            r.protos().len() == KNOWN_ACTS,
            forall|i: int|
                0 <= i < KNOWN_ACTS ==> #[trigger] r.acts()[i] == known_act(i) && r.protos()[i]
                    == placeholder_bits(known_act(i)),
    {
        let mut prototypes: Vec<(SpeechAct, BipolarVector)> = Vec::new();
        let mut i: usize = 0;
        while i < KNOWN_ACTS
            invariant
                i <= KNOWN_ACTS,
                prototypes@.len() == i,
                forall|k: int|
                    0 <= k < i ==> #[trigger] prototypes@[k].0 == known_act(k) && prototypes@[k].1@
                        == placeholder_bits(known_act(k)),
            decreases KNOWN_ACTS - i,
        {
            let label = known_label_str(i);
            let act = SpeechAct::from_label(label);
            proof {
                lemma_label_roundtrip(known_act(i as int));
            }
            let v = placeholder_vector(label);
            prototypes.push((act, v));
            i = i + 1;
        }
        proof {
            assert forall|k: int| 0 <= k < KNOWN_ACTS implies #[trigger] prototypes@[k].1@.len()
                == HD_DIMENSIONS by {
                assert(prototypes@[k].0 == known_act(k));
                lemma_concept_dims("speech_act::"@ + label_of(known_act(k)));
            }
        }
        SpeechActClassifier { prototypes, per_intent_samples: 0 }
    }

    /// A classifier built from example utterances: `examples[i]` holds the
    /// utterances labelled with the `i`-th known speech act, of which at
    /// most `per_intent` are bundled into its prototype. A speech act with
    /// no usable example gets its seed prototype.
    pub fn from_examples(examples: &Vec<Vec<String>>, per_intent: usize) -> (r: SpeechActClassifier)
        ensures
            r.samples() == per_intent,
            r.acts().len() == KNOWN_ACTS,
            r.protos().len() == KNOWN_ACTS,
            forall|i: int|
                0 <= i < KNOWN_ACTS ==> #[trigger] r.acts()[i] == known_act(i) && r.protos()[i]
                    == example_proto(known_act(i), examples_at(examples@, i), per_intent as nat),
    {
        let mut prototypes: Vec<(SpeechAct, BipolarVector)> = Vec::new();
        let empty: Vec<String> = Vec::new();
        let mut i: usize = 0;
        while i < KNOWN_ACTS
            invariant
                i <= KNOWN_ACTS,
                empty@.len() == 0,
                prototypes@.len() == i,
                forall|k: int|
                    #![trigger prototypes@[k]]
                    0 <= k < i ==> prototypes@[k].0 == known_act(k) && prototypes@[k].1@
                        == example_proto(known_act(k), examples_at(examples@, k), per_intent as nat)
                        && prototypes@[k].1@.len() == HD_DIMENSIONS,
            decreases KNOWN_ACTS - i,
        {
            let label = known_label_str(i);
            let act = SpeechAct::from_label(label);
            proof {
                lemma_label_roundtrip(known_act(i as int));
            }
            let rows: &Vec<String> = if i < examples.len() {
                &examples[i]
            } else {
                &empty
            };
            proof {
                assert(rows@.map_values(|t: String| t@) =~= examples_at(examples@, i as int));
            }
            let v = prototype_from(label, rows.as_slice(), per_intent);
            prototypes.push((act, v));
            i = i + 1;
        }
        SpeechActClassifier { prototypes, per_intent_samples: per_intent }
    }

    /// The number of examples bundled per speech act.
    pub fn sample_size(&self) -> (n: usize)
        ensures
            n == self.samples(),
    {
        self.per_intent_samples
    }

    /// The number of prototypes: one per known speech act.
    pub fn prototype_count(&self) -> (n: usize)
        ensures
            n == self.acts().len(),
            n == KNOWN_ACTS,
    {
        proof {
            use_type_invariant(self);
        }
        self.prototypes.len()
    }

    /// The prototype of a speech act, if it has one.
    pub fn prototype(&self, act: SpeechAct) -> (r: Option<&BipolarVector>)
        ensures
            forall|i: int| 0 <= i < self.acts().len() && self.acts()[i] == act ==> (r matches Some(
                v) && v@ == self.protos()[i]),
            (forall|i: int| 0 <= i < self.acts().len() ==> self.acts()[i] != act) ==> r is None,
    {
        proof {
            use_type_invariant(self);
        }
        let mut i: usize = 0;
        while i < self.prototypes.len()
            invariant
                i <= self.prototypes@.len(),
                self.prototypes@.len() == KNOWN_ACTS,
                forall|k: int| 0 <= k < KNOWN_ACTS ==> #[trigger] self.prototypes@[k].0 == known_act(k),
                forall|k: int| 0 <= k < i ==> #[trigger] self.prototypes@[k].0 != act,
            decreases self.prototypes@.len() - i,
        {
            if self.prototypes[i].0 == act {
                proof {
                    assert(self.acts()[i as int] == act);
                    assert forall|k: int|
                        0 <= k < self.acts().len() && self.acts()[k] == act implies k == i by {
                        assert(self.acts()[k] == self.prototypes@[k].0);
                        lemma_known_act_injective(k, i as int);
                    }
                }
                return Some(&self.prototypes[i].1);
            }
            i = i + 1;
        }
        None
    }

    /// Classify an utterance: the speech act of the prototype nearest to its
    /// bag-of-words vector (the first one among equally near prototypes),
    /// with the number of dimensions on which they differ. An utterance
    /// with no word is `Unknown`, with no distance.
    pub fn classify(&self, text: &str) -> (r: (SpeechAct, Option<usize>))
        ensures
            prefix_keys(text@, PREFIX_TOKENS as nat).len() == 0 ==> r == (SpeechAct::Unknown, None::<usize>),
            prefix_keys(text@, PREFIX_TOKENS as nat).len() > 0 ==> ({
                let probe = bag_bits(prefix_keys(text@, PREFIX_TOKENS as nat));
                r.1 matches Some(d) && exists|i: int|
                    0 <= i < self.acts().len() && r.0 == self.acts()[i] && d == hamming_seq(
                        probe,
                        #[trigger] self.protos()[i],
                    ) && (forall|j: int|
                        0 <= j < self.acts().len() ==> d <= hamming_seq(probe, #[trigger] self.protos()[j]))
                        && (forall|j: int| 0 <= j < i ==> d < hamming_seq(probe, #[trigger] self.protos()[j]))
            }),
    {
        proof {
            use_type_invariant(self);
        }
        let probe = match bag_of_words_prefix(text, PREFIX_TOKENS) {
            Some(v) => v,
            None => return (SpeechAct::Unknown, None),
        };
        let ghost pb = probe@;
        proof {
            let keys = prefix_keys(text@, PREFIX_TOKENS as nat);
            lemma_concept_dims(keys[0]);
        }
        assert forall|k: int| 0 <= k < KNOWN_ACTS implies #[trigger] self.prototypes@[k].1@.len()
            == HD_DIMENSIONS by {
            assert(self.prototypes@[k].1@.len() == HD_DIMENSIONS);
        }
        let mut best_act = SpeechAct::Unknown;
        let mut best: Option<usize> = None;
        let ghost mut best_i: int = -1;
        let mut i: usize = 0;
        while i < self.prototypes.len()
            invariant
                i <= self.prototypes@.len(),
                self.prototypes@.len() == KNOWN_ACTS,
                forall|k: int| 0 <= k < KNOWN_ACTS ==> #[trigger] self.prototypes@[k].1@.len()
                    == HD_DIMENSIONS,
                probe@ == pb,
                pb.len() == HD_DIMENSIONS,
                i == 0 ==> best is None,
                i > 0 ==> (best matches Some(d) && 0 <= best_i < i && best_act == self.prototypes@[best_i].0
                    && d == hamming_seq(pb, self.prototypes@[best_i].1@)
                    && (forall|j: int| 0 <= j < i ==> d <= hamming_seq(pb, #[trigger] self.prototypes@[j].1@))
                    && (forall|j: int| 0 <= j < best_i ==> d < hamming_seq(pb, #[trigger] self.prototypes@[j].1@))),
            decreases self.prototypes@.len() - i,
        {
            proof {
                lemma_hamming_bounded(pb, self.prototypes@[i as int].1@, pb.len() as int);
            }
            let d = match probe.hamming_distance(&self.prototypes[i].1) {
                Ok(d) => d,
                Err(_) => {
                    i = i + 1;
                    continue;
                },
            };
            let better = match best {
                None => true,
                Some(b) => d < b,
            };
            if better {
                best = Some(d);
                best_act = self.prototypes[i].0;
                proof {
                    best_i = i as int;
                }
            }
            i = i + 1;
        }
        proof {
            assert(self.acts()[best_i] == self.prototypes@[best_i].0);
            assert forall|j: int| 0 <= j < self.acts().len() implies #[trigger] self.protos()[j]
                == self.prototypes@[j].1@ by {}
            let d = best->0;
            assert(d == hamming_seq(pb, self.protos()[best_i]));
            assert(forall|j: int|
                0 <= j < self.acts().len() ==> d <= hamming_seq(pb, #[trigger] self.protos()[j]));
            assert(forall|j: int| 0 <= j < best_i ==> d < hamming_seq(pb, #[trigger] self.protos()[j]));
        }
        (best_act, best)
    }
}

} // verus!
