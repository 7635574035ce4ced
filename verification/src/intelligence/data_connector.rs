//! Data-source descriptions: file types, column mappings, domains guessed
//! from file names, and registry summaries.
use vstd::prelude::*;
use crate::text::{
    chars_of, chars_eq_str, lowercase_str, lowercase_chars, unicode_lowercase, contains_str,
    contains_seq, split_char, split_char_seq, trim_chars, trim_seq, views, string_from,
};
use crate::cognition::suggestion_engine::{bump_key, bump_all, table_view, lemma_bump, distinct_keys};

verus! {

/// Kinds of data source.
#[derive(Debug, Clone, Copy, PartialEq, Eq, Structural)]
pub enum SourceType {
    LocalCsv,
    LocalJsonl,
    LocalTsv,
    HuggingFace,
    UciMl,
    WebApi,
    UserUpload,
}

/// The name of each kind of source.
pub open spec fn source_type_name(t: SourceType) -> Seq<char> {
    match t {
        SourceType::LocalCsv => "local_csv"@,
        SourceType::LocalJsonl => "local_jsonl"@,
        SourceType::LocalTsv => "local_tsv"@,
        SourceType::HuggingFace => "huggingface"@,
        SourceType::UciMl => "uci_ml"@,
        SourceType::WebApi => "web_api"@,
        SourceType::UserUpload => "user_upload"@,
    }
}

/// The kind of local file a lower-cased extension names.
pub open spec fn type_of_extension(l: Seq<char>) -> Option<SourceType> {
    if l == "csv"@ {
        Some(SourceType::LocalCsv)
    } else if l == "jsonl"@ || l == "json"@ || l == "ndjson"@ {
        Some(SourceType::LocalJsonl)
    } else if l == "tsv"@ {
        Some(SourceType::LocalTsv)
    } else {
        None
    }
}

impl SourceType {
    /// The name of the kind of source.
    pub fn as_str(&self) -> (r: &'static str)
        ensures
            r@ == source_type_name(*self),
    {
        match self {
            SourceType::LocalCsv => "local_csv",
            SourceType::LocalJsonl => "local_jsonl",
            SourceType::LocalTsv => "local_tsv",
            SourceType::HuggingFace => "huggingface",
            SourceType::UciMl => "uci_ml",
            SourceType::WebApi => "web_api",
            SourceType::UserUpload => "user_upload",
        }
    }

    /// The kind of local file an extension names, matched in lower case.
    pub fn from_extension(ext: &str) -> (r: Option<SourceType>)
        ensures
            r == type_of_extension(unicode_lowercase(ext@)),
    {
        let lower = lowercase_str(ext);
        let l = lower.as_slice();
        if chars_eq_str(l, "csv") {
            Some(SourceType::LocalCsv)
        } else if chars_eq_str(l, "jsonl") || chars_eq_str(l, "json") || chars_eq_str(l, "ndjson") {
            Some(SourceType::LocalJsonl)
        } else if chars_eq_str(l, "tsv") {
            Some(SourceType::LocalTsv)
        } else {
            None
        }
    }
}

/// How a source's columns or fields map to a fact.
#[derive(Debug, Clone)]
pub struct ColumnMapping {
    /// Column or field of the fact key.
    pub key_field: String,
    /// Column or field of the fact value.
    pub value_field: String,
    /// Column or field of a quality score, if any.
    pub quality_field: Option<String>,
    /// Column or field of a domain, if any.
    pub domain_field: Option<String>,
}

impl Default for ColumnMapping {
    fn default() -> (r: Self)
        ensures
            r.key_field@ == "key"@,
            r.value_field@ == "value"@,
            r.quality_field is None,
            r.domain_field is None,
    {
        ColumnMapping {
            key_field: String::from_str("key"),
            value_field: String::from_str("value"),
            quality_field: None,
            domain_field: None,
        }
    }
}

/// The outcome of one ingestion run.
#[derive(Debug, Clone)]
pub struct IngestResult {
    pub source_name: String,
    pub source_type: String,
    pub facts_processed: usize,
    pub facts_added: usize,
    pub facts_skipped: usize,
    pub errors: Vec<String>,
    pub duration_ms: u64,
    pub domain: Option<String>,
}

/// The domain guessed from a lower-cased file name: the first topic, in a
/// fixed order, one of whose keywords it holds, else "general".
pub open spec fn domain_for_name(lower: Seq<char>) -> Seq<char> {
    if contains_seq(lower, "cyber"@) || contains_seq(lower, "security"@) || contains_seq(lower, "attack"@) {
        "cybersecurity"@
    } else if contains_seq(lower, "conversation"@) || contains_seq(lower, "chat"@) || contains_seq(lower, "dialog"@) {
        "conversational"@
    } else if contains_seq(lower, "math"@) || contains_seq(lower, "algebra"@) {
        "mathematics"@
    } else if contains_seq(lower, "medical"@) || contains_seq(lower, "health"@) || contains_seq(lower, "bio"@) {
        "biology"@
    } else if contains_seq(lower, "physics"@) || contains_seq(lower, "quantum"@) {
        "physics"@
    } else if contains_seq(lower, "news"@) || contains_seq(lower, "article"@) {
        "news_topics"@
    } else if contains_seq(lower, "sentiment"@) || contains_seq(lower, "emotion"@) {
        "sentiment"@
    } else if contains_seq(lower, "code"@) || contains_seq(lower, "program"@) {
        "programming"@
    } else {
        "general"@
    }
}

/// The keyword table of domains, checked in order: a file name naming
/// security ("cyber", "security", "attack") is cybersecurity; else
/// conversation ("conversation", "chat", "dialog"); else mathematics
/// ("math", "algebra"); else biology ("medical", "health", "bio"); else
/// physics ("physics", "quantum"); else news ("news", "article"); else
/// sentiment ("sentiment", "emotion"); else programming ("code",
/// "program"); and any other name is general.
pub proof fn lemma_domain_keywords(lower: Seq<char>)
    ensures
        (contains_seq(lower, "cyber"@) || contains_seq(lower, "security"@) || contains_seq(lower, "attack"@))
            ==> domain_for_name(lower) == "cybersecurity"@,
        !(contains_seq(lower, "cyber"@) || contains_seq(lower, "security"@) || contains_seq(lower, "attack"@)) && (contains_seq(lower, "conversation"@) || contains_seq(lower, "chat"@) || contains_seq(lower, "dialog"@))
            ==> domain_for_name(lower) == "conversational"@,
        !(contains_seq(lower, "cyber"@) || contains_seq(lower, "security"@) || contains_seq(lower, "attack"@)) && !(contains_seq(lower, "conversation"@) || contains_seq(lower, "chat"@) || contains_seq(lower, "dialog"@)) && (contains_seq(lower, "math"@) || contains_seq(lower, "algebra"@))
            ==> domain_for_name(lower) == "mathematics"@,
        !(contains_seq(lower, "cyber"@) || contains_seq(lower, "security"@) || contains_seq(lower, "attack"@)) && !(contains_seq(lower, "conversation"@) || contains_seq(lower, "chat"@) || contains_seq(lower, "dialog"@)) && !(contains_seq(lower, "math"@) || contains_seq(lower, "algebra"@)) && (contains_seq(lower, "medical"@) || contains_seq(lower, "health"@) || contains_seq(lower, "bio"@))
            ==> domain_for_name(lower) == "biology"@,
        !(contains_seq(lower, "cyber"@) || contains_seq(lower, "security"@) || contains_seq(lower, "attack"@)) && !(contains_seq(lower, "conversation"@) || contains_seq(lower, "chat"@) || contains_seq(lower, "dialog"@)) && !(contains_seq(lower, "math"@) || contains_seq(lower, "algebra"@)) && !(contains_seq(lower, "medical"@) || contains_seq(lower, "health"@) || contains_seq(lower, "bio"@)) && (contains_seq(lower, "physics"@) || contains_seq(lower, "quantum"@))
            ==> domain_for_name(lower) == "physics"@,
        !(contains_seq(lower, "cyber"@) || contains_seq(lower, "security"@) || contains_seq(lower, "attack"@)) && !(contains_seq(lower, "conversation"@) || contains_seq(lower, "chat"@) || contains_seq(lower, "dialog"@)) && !(contains_seq(lower, "math"@) || contains_seq(lower, "algebra"@)) && !(contains_seq(lower, "medical"@) || contains_seq(lower, "health"@) || contains_seq(lower, "bio"@)) && !(contains_seq(lower, "physics"@) || contains_seq(lower, "quantum"@)) && (contains_seq(lower, "news"@) || contains_seq(lower, "article"@))
            ==> domain_for_name(lower) == "news_topics"@,
        !(contains_seq(lower, "cyber"@) || contains_seq(lower, "security"@) || contains_seq(lower, "attack"@)) && !(contains_seq(lower, "conversation"@) || contains_seq(lower, "chat"@) || contains_seq(lower, "dialog"@)) && !(contains_seq(lower, "math"@) || contains_seq(lower, "algebra"@)) && !(contains_seq(lower, "medical"@) || contains_seq(lower, "health"@) || contains_seq(lower, "bio"@)) && !(contains_seq(lower, "physics"@) || contains_seq(lower, "quantum"@)) && !(contains_seq(lower, "news"@) || contains_seq(lower, "article"@)) && (contains_seq(lower, "sentiment"@) || contains_seq(lower, "emotion"@))
            ==> domain_for_name(lower) == "sentiment"@,
        !(contains_seq(lower, "cyber"@) || contains_seq(lower, "security"@) || contains_seq(lower, "attack"@)) && !(contains_seq(lower, "conversation"@) || contains_seq(lower, "chat"@) || contains_seq(lower, "dialog"@)) && !(contains_seq(lower, "math"@) || contains_seq(lower, "algebra"@)) && !(contains_seq(lower, "medical"@) || contains_seq(lower, "health"@) || contains_seq(lower, "bio"@)) && !(contains_seq(lower, "physics"@) || contains_seq(lower, "quantum"@)) && !(contains_seq(lower, "news"@) || contains_seq(lower, "article"@)) && !(contains_seq(lower, "sentiment"@) || contains_seq(lower, "emotion"@)) && (contains_seq(lower, "code"@) || contains_seq(lower, "program"@))
            ==> domain_for_name(lower) == "programming"@,
        !(contains_seq(lower, "cyber"@) || contains_seq(lower, "security"@) || contains_seq(lower, "attack"@)) && !(contains_seq(lower, "conversation"@) || contains_seq(lower, "chat"@) || contains_seq(lower, "dialog"@)) && !(contains_seq(lower, "math"@) || contains_seq(lower, "algebra"@)) && !(contains_seq(lower, "medical"@) || contains_seq(lower, "health"@) || contains_seq(lower, "bio"@)) && !(contains_seq(lower, "physics"@) || contains_seq(lower, "quantum"@)) && !(contains_seq(lower, "news"@) || contains_seq(lower, "article"@)) && !(contains_seq(lower, "sentiment"@) || contains_seq(lower, "emotion"@)) && !(contains_seq(lower, "code"@) || contains_seq(lower, "program"@))
            ==> domain_for_name(lower) == "general"@,
{
}

/// Guess a source's domain from its file name.
pub fn detect_domain(name: &str) -> (r: String)
    ensures
        r@ == domain_for_name(unicode_lowercase(name@)),
{
    let lower = lowercase_str(name);
    let l = lower.as_slice();
    let d = if contains_str(l, "cyber") || contains_str(l, "security") || contains_str(l, "attack") {
        "cybersecurity"
    } else if contains_str(l, "conversation") || contains_str(l, "chat") || contains_str(l, "dialog") {
        "conversational"
    } else if contains_str(l, "math") || contains_str(l, "algebra") {
        "mathematics"
    } else if contains_str(l, "medical") || contains_str(l, "health") || contains_str(l, "bio") {
        "biology"
    } else if contains_str(l, "physics") || contains_str(l, "quantum") {
        "physics"
    } else if contains_str(l, "news") || contains_str(l, "article") {
        "news_topics"
    } else if contains_str(l, "sentiment") || contains_str(l, "emotion") {
        "sentiment"
    } else if contains_str(l, "code") || contains_str(l, "program") {
        "programming"
    } else {
        "general"
    };
    String::from_str(d)
}

// ---------------------------------------------------------------- columns

/// The views of a list of names.
pub open spec fn strs_view(names: Seq<&str>) -> Seq<Seq<char>> {
    names.map_values(|s: &str| s@)
}

/// The first index, from `i` on, of an entry of `cols` that is one of
/// `names`.
pub open spec fn first_in(cols: Seq<Seq<char>>, names: Seq<Seq<char>>, i: int) -> Option<int>
    decreases cols.len() - i,
{
    if i < 0 || i >= cols.len() {
        None
    } else if names.contains(cols[i]) {
        Some(i)
    } else {
        first_in(cols, names, i + 1)
    }
}

proof fn lemma_first_in(cols: Seq<Seq<char>>, names: Seq<Seq<char>>, a: int, j: int)
    requires
        0 <= a <= j <= cols.len(),
        forall|k: int| a <= k < j ==> !names.contains(#[trigger] cols[k]),
    ensures
        j < cols.len() && names.contains(cols[j]) ==> first_in(cols, names, a) == Some(j),
        j == cols.len() ==> first_in(cols, names, a) is None,
    decreases j - a,
{
    if a < j {
        lemma_first_in(cols, names, a + 1, j);
    }
}

proof fn lemma_first_in_bounds(cols: Seq<Seq<char>>, names: Seq<Seq<char>>, a: int)
    requires
        0 <= a,
    ensures
        first_in(cols, names, a) matches Some(k) ==> a <= k < cols.len(),
    decreases cols.len() - a,
{
    if a < cols.len() {
        lemma_first_in_bounds(cols, names, a + 1);
    }
}

/// Whether `c` is one of `names`.
fn is_one_of(c: &[char], names: &[&str]) -> (r: bool)
    ensures
        r == strs_view(names@).contains(c@),
{
    let mut i: usize = 0;
    while i < names.len()
        invariant
            i <= names@.len(),
            forall|k: int| 0 <= k < i ==> strs_view(names@)[k] != c@,
        decreases names@.len() - i,
    {
        if chars_eq_str(c, names[i]) {
            assert(strs_view(names@)[i as int] == c@);
            return true;
        }
        i = i + 1;
    }
    proof {
        if strs_view(names@).contains(c@) {
            let k = choose|k: int| 0 <= k < strs_view(names@).len() && strs_view(names@)[k] == c@;
            assert(strs_view(names@)[k] != c@);
        }
    }
    false
}

/// The first index of an entry of `cols` that is one of `names`.
fn position_in(cols: &Vec<Vec<char>>, names: &[&str]) -> (r: Option<usize>)
    ensures
        r matches Some(k) ==> k < cols@.len() && first_in(views(cols@), strs_view(names@), 0)
            == Some(k as int),
        first_in(views(cols@), strs_view(names@), 0) matches Some(k) ==> 0 <= k < cols@.len(),
        match first_in(views(cols@), strs_view(names@), 0) {
            Some(k) => r == Some(k as usize),
            None => r is None,
        },
{
    let ghost cv = views(cols@);
    proof {
        lemma_first_in_bounds(cv, strs_view(names@), 0);
    }
    let mut i: usize = 0;
    while i < cols.len()
        invariant
            i <= cols@.len(),
            cv == views(cols@),
            forall|k: int| 0 <= k < i ==> !strs_view(names@).contains(#[trigger] cv[k]),
        decreases cols@.len() - i,
    {
        assert(cv[i as int] == cols@[i as int]@);
        if is_one_of(cols[i].as_slice(), names) {
            proof {
                lemma_first_in(cv, strs_view(names@), 0, i as int);
            }
            return Some(i);
        }
        i = i + 1;
    }
    proof {
        lemma_first_in(cv, strs_view(names@), 0, cols@.len() as int);
    }
    None
}

/// `s` without leading and trailing copies of `c`.
pub open spec fn trim_char_seq(s: Seq<char>, c: char) -> Seq<char>
    decreases s.len(),
{
    if s.len() > 0 && s[0] == c {
        trim_char_seq(s.drop_first(), c)
    } else if s.len() > 0 && s.last() == c {
        trim_char_seq(s.drop_last(), c)
    } else {
        s
    }
}

/// `s` without leading and trailing copies of `c` (`str::trim_matches` with
/// a character).
pub fn trim_char(s: &[char], c: char) -> (r: Vec<char>)
    ensures
        r@ == trim_char_seq(s@, c),
{
    let mut i: usize = 0;
    let mut j: usize = s.len();
    assert(s@.subrange(0, j as int) =~= s@);
    while i < j && s[i] == c
        invariant
            i <= j == s@.len(),
            forall|k: int| 0 <= k < i ==> s@[k] == c,
            trim_char_seq(s@, c) == trim_char_seq(s@.subrange(i as int, j as int), c),
        decreases j - i,
    {
        assert(s@.subrange(i as int, j as int).drop_first() =~= s@.subrange(i + 1, j as int));
        i = i + 1;
    }
    while j > i && s[j - 1] == c
        invariant
            i <= j <= s@.len(),
            (i < j ==> s@[i as int] != c),
            trim_char_seq(s@, c) == trim_char_seq(s@.subrange(i as int, j as int), c),
        decreases j,
    {
        assert(s@.subrange(i as int, j as int).drop_last() =~= s@.subrange(i as int, j - 1));
        j = j - 1;
    }
    let mut r: Vec<char> = Vec::new();
    let mut k: usize = i;
    while k < j
        invariant
            i <= k <= j <= s@.len(),
            r@ == s@.subrange(i as int, k as int),
        decreases j - k,
    {
        r.push(s[k]);
        assert(s@.subrange(i as int, k + 1) =~= s@.subrange(i as int, k as int).push(s@[k as int]));
        k = k + 1;
    }
    r
}

/// The lower-cased name of a column: trimmed, stripped of quotes.
pub open spec fn column_name(c: Seq<char>) -> Seq<char> {
    unicode_lowercase(trim_char_seq(trim_seq(c), '"'))
}

/// Column names that can hold the fact key, value, quality and domain.
pub open spec fn csv_key_names() -> Seq<Seq<char>> {
    seq!["key"@, "id"@, "name"@, "question"@, "instruction"@, "prompt"@]
}

pub open spec fn value_names() -> Seq<Seq<char>> {
    seq!["value"@, "text"@, "content"@, "answer"@, "output"@, "response"@]
}

pub open spec fn csv_quality_names() -> Seq<Seq<char>> {
    seq!["quality"@, "score"@, "confidence"@]
}

pub open spec fn csv_domain_names() -> Seq<Seq<char>> {
    seq!["domain"@, "category"@, "topic"@]
}

pub open spec fn json_key_names() -> Seq<Seq<char>> {
    seq!["key"@, "id"@, "question"@, "instruction"@, "prompt"@]
}

pub open spec fn json_quality_names() -> Seq<Seq<char>> {
    seq!["quality"@, "score"@]
}

pub open spec fn json_domain_names() -> Seq<Seq<char>> {
    seq!["domain"@, "category"@]
}

/// The field picked for a role: the trimmed column at the first matching
/// index, else the trimmed column at the fallback index, else empty.
pub open spec fn pick_column(cols: Seq<Seq<char>>, found: Option<int>, fallback: int) -> Seq<char> {
    match found {
        Some(i) => trim_seq(cols[i]),
        None => if fallback < cols.len() { trim_seq(cols[fallback]) } else { seq![] },
    }
}

/// The mapping detected from a CSV or TSV header row.
pub open spec fn header_mapping(line: Seq<char>, sep: char) -> (Seq<char>, Seq<char>, Option<Seq<char>>, Option<Seq<char>>) {
    let cols = split_char_seq(line, sep);
    let lower = cols.map_values(|c: Seq<char>| column_name(c));
    (
        pick_column(cols, first_in(lower, csv_key_names(), 0), 0),
        pick_column(cols, first_in(lower, value_names(), 0), 1),
        match first_in(lower, csv_quality_names(), 0) { Some(i) => Some(trim_seq(cols[i])), None => None },
        match first_in(lower, csv_domain_names(), 0) { Some(i) => Some(trim_seq(cols[i])), None => None },
    )
}

/// The first key, among `keys`, that is one of `names`.
pub open spec fn first_key(keys: Seq<Seq<char>>, names: Seq<Seq<char>>) -> Option<Seq<char>> {
    match first_in(keys, names, 0) {
        Some(i) => Some(keys[i]),
        None => None,
    }
}

/// The mapping detected from the keys of a JSON object.
pub open spec fn keys_mapping(keys: Seq<Seq<char>>) -> (Seq<char>, Seq<char>, Option<Seq<char>>, Option<Seq<char>>) {
    (
        match first_key(keys, json_key_names()) { Some(k) => k, None => "key"@ },
        match first_key(keys, value_names()) { Some(k) => k, None => "value"@ },
        first_key(keys, json_quality_names()),
        first_key(keys, json_domain_names()),
    )
}

/// The view of a column mapping.
pub open spec fn mapping_view(m: ColumnMapping) -> (Seq<char>, Seq<char>, Option<Seq<char>>, Option<Seq<char>>) {
    (
        m.key_field@,
        m.value_field@,
        match m.quality_field { Some(s) => Some(s@), None => None },
        match m.domain_field { Some(s) => Some(s@), None => None },
    )
}

/// The keys of the JSON object a line holds, in the order of serde_json's
/// map; nothing when the line is no JSON object.
pub uninterp spec fn json_object_keys(line: Seq<char>) -> Option<Seq<Seq<char>>>;

/// Parses a line with `serde_json::from_str::<serde_json::Value>` and, when
/// it is an object, lists its keys (`serde_json::Map::keys`). The contract
/// names the result `json_object_keys` and claims nothing more of it.
#[verifier::external_body]
fn object_keys(line: &str) -> (r: Option<Vec<String>>)
    ensures
        match json_object_keys(line@) {
            Some(ks) => r matches Some(v) && v@.map_values(|s: String| s@) == ks,
            None => r is None,
        },
{
    match serde_json::from_str::<serde_json::Value>(line) {
        Ok(serde_json::Value::Object(map)) => Some(map.keys().cloned().collect()),
        _ => None,
    }
}

/// The mapping for a CSV or TSV header row.
fn mapping_from_header(line: &str, sep: char) -> (r: ColumnMapping)
    ensures
        mapping_view(r) == header_mapping(line@, sep),
{
    let lc = chars_of(line);
    let cols = split_char(lc.as_slice(), sep);
    let ghost cv = views(cols@);
    let mut lower: Vec<Vec<char>> = Vec::new();
    let mut i: usize = 0;
    while i < cols.len()
        invariant
            i <= cols@.len(),
            cv == views(cols@),
            views(lower@) == cv.take(i as int).map_values(|c: Seq<char>| column_name(c)),
        decreases cols@.len() - i,
    {
        assert(cv[i as int] == cols@[i as int]@);
        let t = trim_chars(cols[i].as_slice());
        let q = trim_char(t.as_slice(), '"');
        let l = lowercase_chars(q.as_slice());
        let ghost before = lower@;
        let ghost lv = l@;
        lower.push(l);
        proof {
            assert(lower@ == before.push(l));
            assert(views(lower@) =~= views(before).push(lv));
            assert(lv == column_name(cv[i as int]));
            assert(cv.take(i as int + 1).map_values(|c: Seq<char>| column_name(c)) =~= cv.take(
                i as int,
            ).map_values(|c: Seq<char>| column_name(c)).push(column_name(cv[i as int])));
        }
        i = i + 1;
    }
    assert(cv.take(cols@.len() as int) =~= cv);
    let key_names = ["key", "id", "name", "question", "instruction", "prompt"];
    let value_names_ = ["value", "text", "content", "answer", "output", "response"];
    let quality_names = ["quality", "score", "confidence"];
    let domain_names = ["domain", "category", "topic"];
    proof {
        assert(strs_view(key_names@) =~= csv_key_names());
        assert(strs_view(value_names_@) =~= value_names());
        assert(strs_view(quality_names@) =~= csv_quality_names());
        assert(strs_view(domain_names@) =~= csv_domain_names());
    }
    let key_idx = position_in(&lower, key_names.as_slice());
    let value_idx = position_in(&lower, value_names_.as_slice());
    let quality_idx = position_in(&lower, quality_names.as_slice());
    let domain_idx = position_in(&lower, domain_names.as_slice());
    let key_field = match key_idx {
        Some(k) => {
            assert(cv[k as int] == cols@[k as int]@);
            string_from(trim_chars(cols[k].as_slice()).as_slice())
        },
        None => if cols.len() > 0 {
            assert(cv[0] == cols@[0]@);
            string_from(trim_chars(cols[0].as_slice()).as_slice())
        } else {
            String::new()
        },
    };
    let value_field = match value_idx {
        Some(k) => {
            assert(cv[k as int] == cols@[k as int]@);
            string_from(trim_chars(cols[k].as_slice()).as_slice())
        },
        None => if cols.len() > 1 {
            assert(cv[1] == cols@[1]@);
            string_from(trim_chars(cols[1].as_slice()).as_slice())
        } else {
            String::new()
        },
    };
    let quality_field = match quality_idx {
        Some(k) => {
            assert(cv[k as int] == cols@[k as int]@);
            Some(string_from(trim_chars(cols[k].as_slice()).as_slice()))
        },
        None => None,
    };
    let domain_field = match domain_idx {
        Some(k) => {
            assert(cv[k as int] == cols@[k as int]@);
            Some(string_from(trim_chars(cols[k].as_slice()).as_slice()))
        },
        None => None,
    };
    ColumnMapping { key_field, value_field, quality_field, domain_field }
}

/// The first of `keys` that is one of `names`, as a string.
fn first_key_of(keys: &Vec<Vec<char>>, names: &[&str]) -> (r: Option<String>)
    ensures
        match first_key(views(keys@), strs_view(names@)) {
            Some(k) => r matches Some(s) && s@ == k,
            None => r is None,
        },
{
    let p = position_in(keys, names);
    match p {
        Some(i) => {
            assert(views(keys@)[i as int] == keys@[i as int]@);
            let r = string_from(keys[i].as_slice());
            Some(r)
        },
        None => None,
    }
}

/// The mapping for the keys of a JSON object, as characters.
fn mapping_from_key_chars(keys: &Vec<Vec<char>>) -> (r: ColumnMapping)
    ensures
        mapping_view(r) == keys_mapping(views(keys@)),
{
    let key_names = ["key", "id", "question", "instruction", "prompt"];
    let value_names_ = ["value", "text", "content", "answer", "output", "response"];
    let quality_names = ["quality", "score"];
    let domain_names = ["domain", "category"];
    proof {
        assert(strs_view(key_names@) =~= json_key_names());
        assert(strs_view(value_names_@) =~= value_names());
        assert(strs_view(quality_names@) =~= json_quality_names());
        assert(strs_view(domain_names@) =~= json_domain_names());
    }
    let key_field = match first_key_of(keys, key_names.as_slice()) {
        Some(s) => s,
        None => String::from_str("key"),
    };
    let value_field = match first_key_of(keys, value_names_.as_slice()) {
        Some(s) => s,
        None => String::from_str("value"),
    };
    let quality_field = first_key_of(keys, quality_names.as_slice());
    let domain_field = first_key_of(keys, domain_names.as_slice());
    ColumnMapping { key_field, value_field, quality_field, domain_field }
}

/// The column mapping for the keys of the first object of a JSON-lines
/// file: the first key among the usual names of each column (the default
/// `key` and `value` where none occurs; no quality or domain column where
/// none occurs).
pub fn mapping_from_keys(keys: &[String]) -> (r: ColumnMapping)
    ensures
        mapping_view(r) == keys_mapping(keys@.map_values(|s: String| s@)),
{
    let mut kc: Vec<Vec<char>> = Vec::new();
    let mut i: usize = 0;
    while i < keys.len()
        invariant
            i <= keys@.len(),
            views(kc@) == keys@.take(i as int).map_values(|s: String| s@),
        decreases keys@.len() - i,
    {
        let kv = chars_of(keys[i].as_str());
        let ghost before = kc@;
        let ghost kvv = kv@;
        kc.push(kv);
        proof {
            assert(kc@ == before.push(kv));
            assert(views(kc@) =~= views(before).push(kvv));
            assert(keys@.take(i as int + 1).map_values(|s: String| s@) =~= keys@.take(
                i as int,
            ).map_values(|s: String| s@).push(keys@[i as int]@));
        }
        i = i + 1;
    }
    assert(keys@.take(keys@.len() as int) =~= keys@);
    mapping_from_key_chars(&kc)
}

/// The column mapping of a source detected from its first line: from the
/// header row of a CSV (comma) or TSV (tab) file, from the keys of the
/// first object of a JSON-lines file, else the default mapping.
pub fn detect_column_mapping(first_line: &str, source_type: SourceType) -> (r: ColumnMapping)
    ensures
        mapping_view(r) == match source_type {
            SourceType::LocalCsv => header_mapping(first_line@, ','),
            SourceType::LocalTsv => header_mapping(first_line@, '\t'),
            SourceType::LocalJsonl => match json_object_keys(first_line@) {
                Some(ks) => keys_mapping(ks),
                None => ("key"@, "value"@, None, None),
            },
            _ => ("key"@, "value"@, None, None),
        },
{
    match source_type {
        SourceType::LocalCsv => mapping_from_header(first_line, ','),
        SourceType::LocalTsv => mapping_from_header(first_line, '\t'),
        SourceType::LocalJsonl => match object_keys(first_line) {
            Some(ks) => mapping_from_keys(ks.as_slice()),
            None => ColumnMapping::default(),
        },
        _ => ColumnMapping::default(),
    }
}


// ---------------------------------------------------------------- summary

/// Counts over a registry of sources.
#[derive(Debug)]
pub struct RegistrySummary {
    pub total_sources: usize,
    /// Sources per kind, in the order kinds were first met.
    pub by_type: Vec<(String, usize)>,
    /// Sources per domain ("unclassified" for none), in the order domains
    /// were first met.
    pub by_domain: Vec<(String, usize)>,
    pub total_facts_ingested: usize,
    pub total_ingestion_runs: usize,
}

/// The sum of the first `n` numbers.
pub open spec fn sum_upto(xs: Seq<usize>, n: int) -> nat
    decreases n,
{
    if n <= 0 {
        0
    } else {
        sum_upto(xs, n - 1) + xs[n - 1] as nat
    }
}

/// The kind names of a list of sources.
pub open spec fn type_names(sources: Seq<(SourceType, Option<String>)>) -> Seq<Seq<char>> {
    sources.map_values(|s: (SourceType, Option<String>)| source_type_name(s.0))
}

/// The domain names of a list of sources.
pub open spec fn domain_names(sources: Seq<(SourceType, Option<String>)>) -> Seq<Seq<char>> {
    sources.map_values(
        |s: (SourceType, Option<String>)|
            match s.1 {
                Some(d) => d@,
                None => "unclassified"@,
            },
    )
}

/// Summarise a registry from the kind and domain of each source and the
/// number of facts each ingestion run added.
pub fn summarize(sources: &[(SourceType, Option<String>)], facts_added: &[usize]) -> (r: RegistrySummary)
    requires
        sum_upto(facts_added@, facts_added@.len() as int) <= usize::MAX,
    ensures
        r.total_sources == sources@.len(),
        table_view(r.by_type@) == bump_all(seq![], type_names(sources@)),
        table_view(r.by_domain@) == bump_all(seq![], domain_names(sources@)),
        r.total_facts_ingested == sum_upto(facts_added@, facts_added@.len() as int),
        r.total_ingestion_runs == facts_added@.len(),
{
    let mut by_type: Vec<(String, usize)> = Vec::new();
    let mut by_domain: Vec<(String, usize)> = Vec::new();
    let ghost tn = type_names(sources@);
    let ghost dn = domain_names(sources@);
    assert(table_view(by_type@) =~= bump_all(seq![], tn.take(0)));
    assert(table_view(by_domain@) =~= bump_all(seq![], dn.take(0)));
    let mut i: usize = 0;
    while i < sources.len()
        invariant
            i <= sources@.len(),
            tn == type_names(sources@),
            dn == domain_names(sources@),
            table_view(by_type@) == bump_all(seq![], tn.take(i as int)),
            table_view(by_domain@) == bump_all(seq![], dn.take(i as int)),
            distinct_keys(table_view(by_type@)),
            distinct_keys(table_view(by_domain@)),
            forall|k: int| 0 <= k < by_type@.len() ==> #[trigger] by_type@[k].1 <= i,
            forall|k: int| 0 <= k < by_domain@.len() ==> #[trigger] by_domain@[k].1 <= i,
        decreases sources@.len() - i,
    {
        let t = chars_of(sources[i].0.as_str());
        let d: Vec<char> = match &sources[i].1 {
            Some(d) => chars_of(d.as_str()),
            None => chars_of("unclassified"),
        };
        assert(tn[i as int] == t@);
        assert(dn[i as int] == d@);
        proof {
            lemma_bump(table_view(by_type@), t@, i as nat);
            lemma_bump(table_view(by_domain@), d@, i as nat);
            assert(tn.take(i as int + 1).drop_last() =~= tn.take(i as int));
            assert(dn.take(i as int + 1).drop_last() =~= dn.take(i as int));
            assert forall|k: int| 0 <= k < by_type@.len() implies by_type@[k].1 < usize::MAX by {
                assert(by_type@[k].1 <= i);
            }
            assert forall|k: int| 0 <= k < by_domain@.len() implies by_domain@[k].1 < usize::MAX by {
                assert(by_domain@[k].1 <= i);
            }
        }
        bump_key(&mut by_type, t.as_slice());
        bump_key(&mut by_domain, d.as_slice());
        proof {
            assert forall|k: int| 0 <= k < by_type@.len() implies #[trigger] by_type@[k].1 <= i + 1 by {
                assert(table_view(by_type@)[k].1 == by_type@[k].1);
            }
            assert forall|k: int| 0 <= k < by_domain@.len() implies #[trigger] by_domain@[k].1 <= i
                + 1 by {
                assert(table_view(by_domain@)[k].1 == by_domain@[k].1);
            }
        }
        i = i + 1;
    }
    assert(tn.take(sources@.len() as int) =~= tn);
    assert(dn.take(sources@.len() as int) =~= dn);
    let mut total: usize = 0;
    let mut j: usize = 0;
    while j < facts_added.len()
        invariant
            j <= facts_added@.len(),
            total == sum_upto(facts_added@, j as int),
            sum_upto(facts_added@, facts_added@.len() as int) <= usize::MAX,
        decreases facts_added@.len() - j,
    {
        proof {
            lemma_sum_monotone(facts_added@, j as int + 1, facts_added@.len() as int);
        }
        total = total + facts_added[j];
        j = j + 1;
    }
    RegistrySummary {
        total_sources: sources.len(),
        by_type,
        by_domain,
        total_facts_ingested: total,
        total_ingestion_runs: facts_added.len(),
    }
}

proof fn lemma_sum_monotone(xs: Seq<usize>, a: int, b: int)
    requires
        0 <= a <= b,
    ensures
        sum_upto(xs, a) <= sum_upto(xs, b),
    decreases b - a,
{
    if a < b {
        lemma_sum_monotone(xs, a, b - 1);
    }
}

} // verus!
