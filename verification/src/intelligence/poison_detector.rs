//! Detection of poisoned training pairs: empty or echoed answers, data
//! dumps, repetition loops, nonsense, encoding artifacts and prompt
//! injection.
use vstd::prelude::*;
use crate::text::{
    chars_of, chars_eq, split_whitespace, views, words, push_chars, trim_chars, trim_seq,
    byte_len, utf8_len, is_alphanumeric, unicode_alphanumeric, is_whitespace, is_ws,
    contains_str, contains_seq, lowercase_str, lowercase_chars, unicode_lowercase, matches_at,
    starts_with_seq, string_from,
};

verus! {

/// Kinds of poisoning.
#[derive(Debug, Clone, PartialEq, Eq, Structural)]
pub enum PoisonCategory {
    Nonsense,
    RepetitionLoop,
    PromptInjection,
    EncodingArtifact,
    ExcessiveLength,
    EmptyContent,
    SuspiciousPattern,
}

impl PoisonCategory {
    /// The name of the category.
    pub fn as_str(&self) -> (r: &'static str)
        ensures
            r@ == category_name(*self),
    {
        match self {
            PoisonCategory::Nonsense => "nonsense",
            PoisonCategory::RepetitionLoop => "repetition_loop",
            PoisonCategory::PromptInjection => "prompt_injection",
            PoisonCategory::EncodingArtifact => "encoding_artifact",
            PoisonCategory::ExcessiveLength => "excessive_length",
            PoisonCategory::EmptyContent => "empty_content",
            PoisonCategory::SuspiciousPattern => "suspicious_pattern",
        }
    }
}

/// The name of each category.
pub open spec fn category_name(c: PoisonCategory) -> Seq<char> {
    match c {
        PoisonCategory::Nonsense => "nonsense"@,
        PoisonCategory::RepetitionLoop => "repetition_loop"@,
        PoisonCategory::PromptInjection => "prompt_injection"@,
        PoisonCategory::EncodingArtifact => "encoding_artifact"@,
        PoisonCategory::ExcessiveLength => "excessive_length"@,
        PoisonCategory::EmptyContent => "empty_content"@,
        PoisonCategory::SuspiciousPattern => "suspicious_pattern"@,
    }
}

// ---------------------------------------------------------------- repetition

/// Words joined with single spaces.
pub open spec fn join_space(ws: Seq<Seq<char>>) -> Seq<char>
    decreases ws.len(),
{
    if ws.len() == 0 {
        seq![]
    } else if ws.len() == 1 {
        ws[0]
    } else {
        join_space(ws.drop_last()) + seq![' '] + ws.last()
    }
}

/// The number of windows of `w` words.
pub open spec fn window_count(ws: Seq<Seq<char>>, w: int) -> int {
    ws.len() - w + 1
}

/// The text of the window of `w` words starting at word `j`.
pub open spec fn window_key(ws: Seq<Seq<char>>, w: int, j: int) -> Seq<char> {
    join_space(ws.subrange(j, j + w))
}

/// How many of the first `n` windows have the text `k`.
pub open spec fn key_count(ws: Seq<Seq<char>>, w: int, k: Seq<char>, n: int) -> nat
    decreases n,
{
    if n <= 0 {
        0
    } else {
        key_count(ws, w, k, n - 1) + if window_key(ws, w, n - 1) == k { 1nat } else { 0nat }
    }
}

/// The window starting at `j` is the third (or later) window with its text.
pub open spec fn repeats_at(ws: Seq<Seq<char>>, w: int, j: int) -> bool {
    key_count(ws, w, window_key(ws, w, j), j + 1) >= 3
}

/// The first window, from `j` on, whose text has been seen three times.
pub open spec fn first_repeat_from(ws: Seq<Seq<char>>, w: int, j: int) -> Option<int>
    decreases window_count(ws, w) - j,
{
    if j < 0 || j >= window_count(ws, w) {
        None
    } else if repeats_at(ws, w, j) {
        Some(j)
    } else {
        first_repeat_from(ws, w, j + 1)
    }
}

/// The repeated phrase of a list of words: none for fewer than ten words;
/// else, for window sizes three, five and eight in turn, the text of the
/// first window whose text has occurred three times.
pub open spec fn repeated_phrase(ws: Seq<Seq<char>>) -> Option<Seq<char>> {
    if ws.len() < 10 {
        None
    } else {
        match first_repeat_from(ws, 3, 0) {
            Some(j) => Some(window_key(ws, 3, j)),
            None => match first_repeat_from(ws, 5, 0) {
                Some(j) => Some(window_key(ws, 5, j)),
                None => match first_repeat_from(ws, 8, 0) {
                    Some(j) => Some(window_key(ws, 8, j)),
                    None => None,
                },
            },
        }
    }
}

proof fn lemma_first_repeat(ws: Seq<Seq<char>>, w: int, s: int, j: int)
    requires
        0 <= s <= j,
        j <= window_count(ws, w),
        forall|i: int| s <= i < j ==> !repeats_at(ws, w, i),
    ensures
        j < window_count(ws, w) && repeats_at(ws, w, j) ==> first_repeat_from(ws, w, s) == Some(j),
        j == window_count(ws, w) ==> first_repeat_from(ws, w, s) is None,
    decreases j - s,
{
    if s < j {
        lemma_first_repeat(ws, w, s + 1, j);
    }
}

/// Counting windows up to `n` never counts fewer than up to an earlier
/// bound, and a window with the text counts one more.
proof fn lemma_key_count_grows(ws: Seq<Seq<char>>, w: int, k: Seq<char>, m: int, n: int)
    requires
        0 <= m <= n,
    ensures
        key_count(ws, w, k, m) <= key_count(ws, w, k, n),
    decreases n - m,
{
    if m < n {
        lemma_key_count_grows(ws, w, k, m, n - 1);
    }
}

/// A phrase of three words met three times over makes the text repetitive:
/// in a list of at least ten words where the same three consecutive words
/// start at three different places, a repeated phrase is found. A list of
/// fewer than ten words never has one.
pub proof fn lemma_repetition_found(ws: Seq<Seq<char>>, i1: int, i2: int, i3: int)
    ensures
        ws.len() < 10 ==> repeated_phrase(ws) is None,
        ws.len() >= 10 && 0 <= i1 < i2 < i3 && i3 + 3 <= ws.len() && ws.subrange(i1, i1 + 3) == ws.subrange(i2, i2 + 3)
            && ws.subrange(i2, i2 + 3) == ws.subrange(i3, i3 + 3) ==> repeated_phrase(ws) is Some,
{
    if ws.len() >= 10 && 0 <= i1 < i2 < i3 && i3 + 3 <= ws.len() && ws.subrange(i1, i1 + 3) == ws.subrange(i2, i2 + 3)
        && ws.subrange(i2, i2 + 3) == ws.subrange(i3, i3 + 3) {
        let k = window_key(ws, 3, i3);
        assert(window_key(ws, 3, i1) == k);
        assert(window_key(ws, 3, i2) == k);
        lemma_key_count_grows(ws, 3, k, 0, i1);
        lemma_key_count_grows(ws, 3, k, i1 + 1, i2);
        lemma_key_count_grows(ws, 3, k, i2 + 1, i3);
        assert(key_count(ws, 3, k, i1 + 1) >= 1);
        assert(key_count(ws, 3, k, i2 + 1) >= 2);
        assert(key_count(ws, 3, k, i3 + 1) >= 3);
        assert(repeats_at(ws, 3, i3));
        lemma_first_repeat_exists(ws, 3, 0, i3);
    }
}

/// A window that repeats from `s` on is found from `s`.
proof fn lemma_first_repeat_exists(ws: Seq<Seq<char>>, w: int, s: int, j: int)
    requires
        0 <= s <= j < window_count(ws, w),
        repeats_at(ws, w, j),
    ensures
        first_repeat_from(ws, w, s) is Some,
    decreases j - s,
{
    if s < j && !repeats_at(ws, w, s) {
        lemma_first_repeat_exists(ws, w, s + 1, j);
    }
}

/// Letters, digits and white space: the characters of plain text.
pub open spec fn plain_text_char() -> spec_fn(char) -> bool {
    |c: char| unicode_alphanumeric(c) || is_ws(c)
}

/// The characters counted as plain text among the first `n` are those that
/// are letters, digits or white space.
pub proof fn lemma_kept_count(s: Seq<char>, n: int)
    requires
        0 <= n <= s.len(),
    ensures
        kept_count(s, n) == s.take(n).filter(plain_text_char()).len(),
        plain_text_char() == (|c: char| unicode_alphanumeric(c) || is_ws(c)),
    decreases n,
{
    if n > 0 {
        lemma_kept_count(s, n - 1);
        let t = s.take(n);
        reveal(Seq::filter);
        assert(t.drop_last() =~= s.take(n - 1));
        assert(t.last() == s[n - 1]);
        assert(t.filter(plain_text_char()) == (if plain_text_char()(t.last()) {
            t.drop_last().filter(plain_text_char()).push(t.last())
        } else {
            t.drop_last().filter(plain_text_char())
        }));
    } else {
        reveal(Seq::filter);
        assert(s.take(0) =~= Seq::<char>::empty());
    }
}

/// The words `ws[j..j+w]` joined with single spaces.
fn join_window(ws: &Vec<Vec<char>>, j: usize, w: usize) -> (r: Vec<char>)
    requires
        j + w <= ws@.len(),
    ensures
        r@ == window_key(views(ws@), w as int, j as int),
{
    let ghost vs = views(ws@);
    let mut r: Vec<char> = Vec::new();
    let mut k: usize = 0;
    let len = ws.len();
    while k < w
        invariant
            len == ws@.len(),
            k <= w,
            j + w <= ws@.len(),
            vs == views(ws@),
            r@ == join_space(vs.subrange(j as int, j + k)),
        decreases w - k,
    {
        assert(vs.subrange(j as int, j + k + 1).drop_last() =~= vs.subrange(j as int, j + k));
        assert(vs[j + k] == ws@[j + k]@);
        if k > 0 {
            r.push(' ');
        }
        push_chars(&mut r, ws[j + k].as_slice());
        proof {
            if k == 0 {
                assert(r@ =~= vs.subrange(j as int, j + 1)[0]);
            } else {
                assert(r@ =~= join_space(vs.subrange(j as int, j + k)) + seq![' '] + vs[j + k]);
            }
        }
        k = k + 1;
    }
    r
}

/// The first window of `w` words whose text has been seen three times.
fn first_repeat(ws: &Vec<Vec<char>>, w: usize) -> (r: Option<Vec<char>>)
    requires
        1 <= w <= ws@.len(),
    ensures
        match first_repeat_from(views(ws@), w as int, 0) {
            Some(j) => r matches Some(k) && k@ == window_key(views(ws@), w as int, j),
            None => r is None,
        },
{
    let ghost vs = views(ws@);
    let n = ws.len() - w + 1;
    let mut keys: Vec<Vec<char>> = Vec::new();
    let mut j: usize = 0;
    while j < n
        invariant
            n == window_count(vs, w as int),
            1 <= w <= ws@.len(),
            vs == views(ws@),
            j <= n,
            keys@.len() == j,
            forall|i: int| 0 <= i < j ==> #[trigger] keys@[i]@ == window_key(vs, w as int, i),
            forall|i: int| 0 <= i < j ==> !repeats_at(vs, w as int, i),
        decreases n - j,
    {
        let key = join_window(ws, j, w);
        let mut c: usize = 1;
        let mut i: usize = 0;
        while i < j
            invariant
                i <= j,
                j < n,
                keys@.len() == j,
                forall|m: int| 0 <= m < j ==> #[trigger] keys@[m]@ == window_key(vs, w as int, m),
                c == key_count(vs, w as int, key@, i as int) + 1,
                c <= i + 1,
            decreases j - i,
        {
            if chars_eq(keys[i].as_slice(), key.as_slice()) {
                c = c + 1;
            }
            i = i + 1;
        }
        assert(key_count(vs, w as int, key@, j + 1) == c);
        if c >= 3 {
            proof {
                lemma_first_repeat(vs, w as int, 0, j as int);
            }
            return Some(key);
        }
        keys.push(key);
        j = j + 1;
    }
    proof {
        lemma_first_repeat(vs, w as int, 0, n as int);
    }
    None
}

/// The repeated phrase of a text (see `repeated_phrase`), as a string.
pub fn detect_repetition(text: &str) -> (r: Option<String>)
    ensures
        match repeated_phrase(words(text@)) {
            Some(p) => r matches Some(s) && s@ == p,
            None => r is None,
        },
{
    let cs = chars_of(text);
    let ws = split_whitespace(cs.as_slice());
    if ws.len() < 10 {
        return None;
    }
    match first_repeat(&ws, 3) {
        Some(k) => {
            return Some(string_from(k.as_slice()));
        },
        None => {},
    }
    match first_repeat(&ws, 5) {
        Some(k) => {
            return Some(string_from(k.as_slice()));
        },
        None => {},
    }
    match first_repeat(&ws, 8) {
        Some(k) => Some(string_from(k.as_slice())),
        None => None,
    }
}


// ---------------------------------------------------------------- findings

/// The encoding artifacts looked for, in order.
pub open spec fn encoding_markers() -> Seq<Seq<char>> {
    seq!["&amp;"@, "&lt;"@, "&gt;"@, "&#"@, "\u{FFFD}"@, "Ã"@, "â€"@]
}

/// The prompt-injection phrases looked for (in lower case), in order.
pub open spec fn injection_patterns() -> Seq<Seq<char>> {
    seq![
        "ignore previous instructions"@,
        "ignore all previous"@,
        "disregard the above"@,
        "system prompt:"@,
        "you are now"@,
        "new instructions:"@,
        "forget everything"@,
        "override:"@,
        "<|im_start|>"@,
        "### instruction:"@,
    ]
}

/// The first pattern, from index `i` on, that occurs in `s`.
pub open spec fn first_found(s: Seq<char>, pats: Seq<Seq<char>>, i: int) -> Option<int>
    decreases pats.len() - i,
{
    if i < 0 || i >= pats.len() {
        None
    } else if contains_seq(s, pats[i]) {
        Some(i)
    } else {
        first_found(s, pats, i + 1)
    }
}

/// Among the first `n` characters, how many are alphanumeric or white space.
pub open spec fn kept_count(s: Seq<char>, n: int) -> nat
    decreases n,
{
    if n <= 0 {
        0
    } else {
        kept_count(s, n - 1) + if unicode_alphanumeric(s[n - 1]) || is_ws(s[n - 1]) {
            1nat
        } else {
            0nat
        }
    }
}

/// One check of a training pair that found a problem.
#[derive(Debug, Clone, Copy, PartialEq, Eq, Structural)]
pub enum PoisonFinding {
    /// The trimmed output is under five bytes long.
    EmptyOutput,
    /// The trimmed instruction is under three bytes long.
    EmptyInstruction,
    /// The output is over ten thousand bytes long.
    ExcessiveLength { bytes: u128 },
    /// The output repeats a phrase (see `detect_repetition`).
    RepetitionLoop,
    /// Under half of the output's bytes count alphanumeric or white-space
    /// characters: `kept` such characters in `bytes` bytes.
    LowAlphanumeric { kept: u128, bytes: u128 },
    /// The output holds the encoding artifact with this index.
    EncodingArtifact { marker: usize },
    /// The lower-cased output holds the injection phrase with this index.
    PromptInjection { pattern: usize },
    /// The lower-cased output begins with the lower-cased instruction.
    InstructionEcho,
}

/// The severity of a finding, in tenths.
pub open spec fn severity_spec(f: PoisonFinding) -> nat {
    match f {
        PoisonFinding::EmptyOutput => 10,
        PoisonFinding::EmptyInstruction => 8,
        PoisonFinding::ExcessiveLength { .. } => 5,
        PoisonFinding::RepetitionLoop => 9,
        PoisonFinding::LowAlphanumeric { .. } => 7,
        PoisonFinding::EncodingArtifact { .. } => 6,
        PoisonFinding::PromptInjection { .. } => 10,
        PoisonFinding::InstructionEcho => 6,
    }
}

/// The category of a finding.
pub open spec fn category_of(f: PoisonFinding) -> PoisonCategory {
    match f {
        PoisonFinding::EmptyOutput => PoisonCategory::EmptyContent,
        PoisonFinding::EmptyInstruction => PoisonCategory::EmptyContent,
        PoisonFinding::ExcessiveLength { .. } => PoisonCategory::ExcessiveLength,
        PoisonFinding::RepetitionLoop => PoisonCategory::RepetitionLoop,
        PoisonFinding::LowAlphanumeric { .. } => PoisonCategory::Nonsense,
        PoisonFinding::EncodingArtifact { .. } => PoisonCategory::EncodingArtifact,
        PoisonFinding::PromptInjection { .. } => PoisonCategory::PromptInjection,
        PoisonFinding::InstructionEcho => PoisonCategory::SuspiciousPattern,
    }
}

impl PoisonFinding {
    /// The severity of the finding, in tenths.
    pub fn severity_tenths(&self) -> (r: u8)
        ensures
            r == severity_spec(*self),
    {
        match self {
            PoisonFinding::EmptyOutput => 10,
            PoisonFinding::EmptyInstruction => 8,
            PoisonFinding::ExcessiveLength { .. } => 5,
            PoisonFinding::RepetitionLoop => 9,
            PoisonFinding::LowAlphanumeric { .. } => 7,
            PoisonFinding::EncodingArtifact { .. } => 6,
            PoisonFinding::PromptInjection { .. } => 10,
            PoisonFinding::InstructionEcho => 6,
        }
    }

    /// The category of the finding.
    pub fn category(&self) -> (r: PoisonCategory)
        ensures
            r == category_of(*self),
    {
        match self {
            PoisonFinding::EmptyOutput => PoisonCategory::EmptyContent,
            PoisonFinding::EmptyInstruction => PoisonCategory::EmptyContent,
            PoisonFinding::ExcessiveLength { .. } => PoisonCategory::ExcessiveLength,
            PoisonFinding::RepetitionLoop => PoisonCategory::RepetitionLoop,
            PoisonFinding::LowAlphanumeric { .. } => PoisonCategory::Nonsense,
            PoisonFinding::EncodingArtifact { .. } => PoisonCategory::EncodingArtifact,
            PoisonFinding::PromptInjection { .. } => PoisonCategory::PromptInjection,
            PoisonFinding::InstructionEcho => PoisonCategory::SuspiciousPattern,
        }
    }
}

/// The findings of all checks on a training pair, in the order of the
/// checks.
pub open spec fn poison_findings(instr: Seq<char>, out: Seq<char>) -> Seq<PoisonFinding> {
    let bytes = utf8_len(out);
    let s1 = if utf8_len(trim_seq(out)) < 5 {
        seq![PoisonFinding::EmptyOutput]
    } else {
        seq![]
    };
    let s2 = if utf8_len(trim_seq(instr)) < 3 {
        s1.push(PoisonFinding::EmptyInstruction)
    } else {
        s1
    };
    let s3 = if bytes > 10000 {
        s2.push(PoisonFinding::ExcessiveLength { bytes: bytes as u128 })
    } else {
        s2
    };
    let s4 = if repeated_phrase(words(out)) is Some {
        s3.push(PoisonFinding::RepetitionLoop)
    } else {
        s3
    };
    let kept = kept_count(out, out.len() as int);
    let s5 = if 2 * kept < (if bytes == 0 { 1 } else { bytes }) && bytes > 20 {
        s4.push(PoisonFinding::LowAlphanumeric { kept: kept as u128, bytes: bytes as u128 })
    } else {
        s4
    };
    let s6 = match first_found(out, encoding_markers(), 0) {
        Some(k) => s5.push(PoisonFinding::EncodingArtifact { marker: k as usize }),
        None => s5,
    };
    let s7 = match first_found(unicode_lowercase(out), injection_patterns(), 0) {
        Some(k) => s6.push(PoisonFinding::PromptInjection { pattern: k as usize }),
        None => s6,
    };
    let head = if instr.len() < 50 { instr } else { instr.take(50) };
    if bytes > 20 && utf8_len(instr) > 10 && starts_with_seq(
        unicode_lowercase(out),
        unicode_lowercase(head),
    ) {
        s7.push(PoisonFinding::InstructionEcho)
    } else {
        s7
    }
}

/// A pattern is found from `i` on exactly when one of the patterns from
/// `i` on occurs, and the one found occurs and no earlier one does.
pub proof fn lemma_first_found_exists(s: Seq<char>, pats: Seq<Seq<char>>, i: int)
    requires
        0 <= i,
    ensures
        first_found(s, pats, i) is Some <==> exists|k: int| i <= k < pats.len() && contains_seq(s, #[trigger] pats[k]),
        first_found(s, pats, i) matches Some(k) ==> i <= k < pats.len() && contains_seq(s, pats[k])
            && forall|j: int| i <= j < k ==> !contains_seq(s, #[trigger] pats[j]),
    decreases pats.len() - i,
{
    if i < pats.len() && !contains_seq(s, pats[i]) {
        lemma_first_found_exists(s, pats, i + 1);
        if exists|k: int| i <= k < pats.len() && contains_seq(s, #[trigger] pats[k]) {
            let k = choose|k: int| i <= k < pats.len() && contains_seq(s, #[trigger] pats[k]);
            assert(k != i);
            assert(i + 1 <= k);
        }
    }
}

/// What each check of a training pair finds:
/// - an empty output (trimmed, under five bytes) and an empty instruction
///   (trimmed, under three bytes);
/// - an output of over ten thousand bytes, reported with its length;
/// - a repeated phrase;
/// - an output over twenty bytes long of which under half the bytes are
///   letters, digits or white space;
/// - an encoding artifact ("&amp;", "&lt;", "&gt;", "&#", U+FFFD, "Ã",
///   "â€"), reported by the first one present;
/// - an injection phrase in the lower-cased output, reported by the first
///   one present;
/// - an output over twenty bytes that begins, ignoring case, with the
///   first fifty characters of an instruction over ten bytes.
/// A pair has a finding exactly when one of these holds.
pub proof fn lemma_finding_checks(instr: Seq<char>, out: Seq<char>)
    ensures
        encoding_markers() == seq!["&amp;"@, "&lt;"@, "&gt;"@, "&#"@, "\u{FFFD}"@, "Ã"@, "â€"@],
        injection_patterns() == seq![
            "ignore previous instructions"@, "ignore all previous"@, "disregard the above"@,
            "system prompt:"@, "you are now"@, "new instructions:"@, "forget everything"@,
            "override:"@, "<|im_start|>"@, "### instruction:"@,
        ],
        poison_findings(instr, out).contains(PoisonFinding::EmptyOutput) <==> utf8_len(trim_seq(out)) < 5,
        poison_findings(instr, out).contains(PoisonFinding::EmptyInstruction) <==> utf8_len(trim_seq(instr)) < 3,
        poison_findings(instr, out).contains(PoisonFinding::ExcessiveLength { bytes: utf8_len(out) as u128 })
            <==> utf8_len(out) > 10000,
        poison_findings(instr, out).contains(PoisonFinding::RepetitionLoop) <==> repeated_phrase(words(out)) is Some,
        poison_findings(instr, out).contains(PoisonFinding::LowAlphanumeric {
            kept: kept_count(out, out.len() as int) as u128,
            bytes: utf8_len(out) as u128,
        }) <==> (2 * kept_count(out, out.len() as int) < utf8_len(out) && utf8_len(out) > 20),
        (exists|m: usize| #[trigger] poison_findings(instr, out).contains(PoisonFinding::EncodingArtifact { marker: m }))
            <==> (exists|k: int| 0 <= k < 7 && contains_seq(out, #[trigger] encoding_markers()[k])),
        forall|m: usize| #[trigger] poison_findings(instr, out).contains(PoisonFinding::EncodingArtifact { marker: m })
            ==> m < 7 && contains_seq(out, encoding_markers()[m as int])
                && forall|j: int| 0 <= j < m ==> !contains_seq(out, #[trigger] encoding_markers()[j]),
        (exists|m: usize| #[trigger] poison_findings(instr, out).contains(PoisonFinding::PromptInjection { pattern: m }))
            <==> (exists|k: int| 0 <= k < 10 && contains_seq(unicode_lowercase(out), #[trigger] injection_patterns()[k])),
        forall|m: usize| #[trigger] poison_findings(instr, out).contains(PoisonFinding::PromptInjection { pattern: m })
            ==> m < 10 && contains_seq(unicode_lowercase(out), injection_patterns()[m as int])
                && forall|j: int| 0 <= j < m ==> !contains_seq(unicode_lowercase(out), #[trigger] injection_patterns()[j]),
        poison_findings(instr, out).contains(PoisonFinding::InstructionEcho) <==> (utf8_len(out) > 20
            && utf8_len(instr) > 10 && starts_with_seq(
            unicode_lowercase(out),
            unicode_lowercase(if instr.len() < 50 { instr } else { instr.take(50) }),
        )),
        poison_findings(instr, out).len() == 0 <==> (utf8_len(trim_seq(out)) >= 5 && utf8_len(trim_seq(instr)) >= 3
            && utf8_len(out) <= 10000 && repeated_phrase(words(out)) is None
            && !(2 * kept_count(out, out.len() as int) < utf8_len(out) && utf8_len(out) > 20)
            && !(exists|k: int| 0 <= k < 7 && contains_seq(out, #[trigger] encoding_markers()[k]))
            && !(exists|k: int| 0 <= k < 10 && contains_seq(unicode_lowercase(out), #[trigger] injection_patterns()[k]))
            && !(utf8_len(out) > 20 && utf8_len(instr) > 10 && starts_with_seq(
            unicode_lowercase(out),
            unicode_lowercase(if instr.len() < 50 { instr } else { instr.take(50) }),
        ))),
{
    broadcast use vstd::seq_lib::lemma_seq_contains_after_push;
    lemma_first_found_exists(out, encoding_markers(), 0);
    lemma_first_found_exists(unicode_lowercase(out), injection_patterns(), 0);
    let r = poison_findings(instr, out);
    if r.len() == 0 {
        assert(!r.contains(PoisonFinding::EmptyOutput));
    }
    if exists|m: usize| #[trigger] r.contains(PoisonFinding::EncodingArtifact { marker: m }) {
        let m = choose|m: usize| #[trigger] r.contains(PoisonFinding::EncodingArtifact { marker: m });
        assert(first_found(out, encoding_markers(), 0) is Some);
    }
    if exists|m: usize| #[trigger] r.contains(PoisonFinding::PromptInjection { pattern: m }) {
        let m = choose|m: usize| #[trigger] r.contains(PoisonFinding::PromptInjection { pattern: m });
        assert(first_found(unicode_lowercase(out), injection_patterns(), 0) is Some);
    }
    if let Some(k) = first_found(out, encoding_markers(), 0) {
        assert(r.contains(PoisonFinding::EncodingArtifact { marker: k as usize }));
    }
    if let Some(k) = first_found(unicode_lowercase(out), injection_patterns(), 0) {
        assert(r.contains(PoisonFinding::PromptInjection { pattern: k as usize }));
    }
}

/// A pair whose trimmed instruction is under three bytes long is poisoned.
pub proof fn lemma_empty_instruction_poisons(instr: Seq<char>, out: Seq<char>)
    requires
        utf8_len(trim_seq(instr)) < 3,
    ensures
        poison_findings(instr, out).contains(PoisonFinding::EmptyInstruction),
        poison_findings(instr, out).len() > 0,
{
    lemma_finding_checks(instr, out);
}

/// The encoding artifact with index `i`.
pub fn encoding_marker(i: usize) -> (r: &'static str)
    requires
        i < 7,
    ensures
        r@ == encoding_markers()[i as int],
{
    match i {
        0 => "&amp;",
        1 => "&lt;",
        2 => "&gt;",
        3 => "&#",
        4 => "\u{FFFD}",
        5 => "Ã",
        _ => "â€",
    }
}

/// The prompt-injection phrase with index `i`.
pub fn injection_pattern(i: usize) -> (r: &'static str)
    requires
        i < 10,
    ensures
        r@ == injection_patterns()[i as int],
{
    match i {
        0 => "ignore previous instructions",
        1 => "ignore all previous",
        2 => "disregard the above",
        3 => "system prompt:",
        4 => "you are now",
        5 => "new instructions:",
        6 => "forget everything",
        7 => "override:",
        8 => "<|im_start|>",
        _ => "### instruction:",
    }
}

proof fn lemma_first_found(s: Seq<char>, pats: Seq<Seq<char>>, a: int, j: int)
    requires
        0 <= a <= j <= pats.len(),
        forall|i: int| a <= i < j ==> !contains_seq(s, #[trigger] pats[i]),
    ensures
        j < pats.len() && contains_seq(s, pats[j]) ==> first_found(s, pats, a) == Some(j),
        j == pats.len() ==> first_found(s, pats, a) is None,
    decreases j - a,
{
    if a < j {
        lemma_first_found(s, pats, a + 1, j);
    }
}

/// The index of the first encoding artifact that occurs in `s`.
fn find_marker(s: &[char]) -> (r: Option<usize>)
    ensures
        match first_found(s@, encoding_markers(), 0) {
            Some(k) => r == Some(k as usize),
            None => r is None,
        },
{
    let mut i: usize = 0;
    while i < 7
        invariant
            i <= 7,
            encoding_markers().len() == 7,
            forall|k: int| 0 <= k < i ==> !contains_seq(s@, #[trigger] encoding_markers()[k]),
        decreases 7 - i,
    {
        if contains_str(s, encoding_marker(i)) {
            proof {
                lemma_first_found(s@, encoding_markers(), 0, i as int);
            }
            return Some(i);
        }
        i = i + 1;
    }
    proof {
        lemma_first_found(s@, encoding_markers(), 0, 7);
    }
    None
}

/// The index of the first injection phrase that occurs in `s`.
fn find_injection(s: &[char]) -> (r: Option<usize>)
    ensures
        match first_found(s@, injection_patterns(), 0) {
            Some(k) => r == Some(k as usize),
            None => r is None,
        },
{
    let mut i: usize = 0;
    while i < 10
        invariant
            i <= 10,
            injection_patterns().len() == 10,
            forall|k: int| 0 <= k < i ==> !contains_seq(s@, #[trigger] injection_patterns()[k]),
        decreases 10 - i,
    {
        if contains_str(s, injection_pattern(i)) {
            proof {
                lemma_first_found(s@, injection_patterns(), 0, i as int);
            }
            return Some(i);
        }
        i = i + 1;
    }
    proof {
        lemma_first_found(s@, injection_patterns(), 0, 10);
    }
    None
}

/// How many characters of `s` are alphanumeric or white space.
fn count_kept(s: &[char]) -> (r: usize)
    ensures
        r == kept_count(s@, s@.len() as int),
{
    let mut n: usize = 0;
    let mut i: usize = 0;
    let len = s.len();
    while i < len
        invariant
            len == s@.len(),
            i <= len,
            n <= i,
            n == kept_count(s@, i as int),
        decreases len - i,
    {
        if is_alphanumeric(s[i]) || is_whitespace(s[i]) {
            n = n + 1;
        }
        i = i + 1;
    }
    n
}

/// Checks training pairs for poisoning.
pub struct PoisonDetector;

impl PoisonDetector {
    /// Run every check on a training pair and list what was found, in the
    /// order of the checks.
    pub fn findings(instruction: &str, output: &str) -> (r: Vec<PoisonFinding>)
        ensures
            r@ == poison_findings(instruction@, output@),
    {
        let out = chars_of(output);
        let ins = chars_of(instruction);
        let bytes = byte_len(out.as_slice());
        let mut r: Vec<PoisonFinding> = Vec::new();
        let tout = trim_chars(out.as_slice());
        if byte_len(tout.as_slice()) < 5 {
            r.push(PoisonFinding::EmptyOutput);
        }
        let tins = trim_chars(ins.as_slice());
        if byte_len(tins.as_slice()) < 3 {
            r.push(PoisonFinding::EmptyInstruction);
        }
        if bytes > 10000 {
            r.push(PoisonFinding::ExcessiveLength { bytes });
        }
        match detect_repetition(output) {
            Some(_) => r.push(PoisonFinding::RepetitionLoop),
            None => {},
        }
        let kept = count_kept(out.as_slice());
        let denom: u128 = if bytes == 0 {
            1
        } else {
            bytes
        };
        if 2 * (kept as u128) < denom && bytes > 20 {
            r.push(PoisonFinding::LowAlphanumeric { kept: kept as u128, bytes });
        }
        match find_marker(out.as_slice()) {
            Some(k) => r.push(PoisonFinding::EncodingArtifact { marker: k }),
            None => {},
        }
        let lower = lowercase_str(output);
        match find_injection(lower.as_slice()) {
            Some(k) => r.push(PoisonFinding::PromptInjection { pattern: k }),
            None => {},
        }
        if bytes > 20 && byte_len(ins.as_slice()) > 10 {
            let mut head: Vec<char> = Vec::new();
            let mut i: usize = 0;
            while i < ins.len() && i < 50
                invariant
                    i <= ins@.len(),
                    i <= 50,
                    head@ == ins@.take(i as int),
                decreases 50 - i,
            {
                head.push(ins[i]);
                assert(ins@.take(i as int + 1) =~= ins@.take(i as int).push(ins@[i as int]));
                i = i + 1;
            }
            assert(head@ == (if ins@.len() < 50 { ins@ } else { ins@.take(50) }));
            let lhead = lowercase_chars(head.as_slice());
            if matches_at(lower.as_slice(), lhead.as_slice(), 0) {
                r.push(PoisonFinding::InstructionEcho);
            }
        }
        assert(r@ =~= poison_findings(instruction@, output@));
        r
    }

    /// Whether a pair with these findings is poisoned: the mean severity is
    /// at least one half (no finding means a risk of zero).
    pub fn is_poisoned(findings: &[PoisonFinding]) -> (r: bool)
        ensures
            r == (findings@.len() > 0 && 2 * severity_sum(findings@, findings@.len() as int) >= 10
                * findings@.len()),
            r == (findings@.len() > 0),
    {
        let mut sum: u128 = 0;
        let mut i: usize = 0;
        let len = findings.len();
        while i < len
            invariant
                len == findings@.len(),
                i <= len,
                sum == severity_sum(findings@, i as int),
                sum <= 10 * i,
                5 * i <= sum,
            decreases len - i,
        {
            let t = findings[i].severity_tenths();
            sum = sum + t as u128;
            i = i + 1;
        }
        len > 0 && 2 * sum >= 10 * (len as u128)
    }

    /// Check a batch of (instruction, output) pairs: how many are clean and
    /// how many are poisoned.
    pub fn check_batch_counts(pairs: &[(String, String)]) -> (r: (usize, usize))
        ensures
            r.1 == poisoned_count(pairs@, pairs@.len() as int),
            r.0 + r.1 == pairs@.len(),
    {
        let mut clean: usize = 0;
        let mut poisoned: usize = 0;
        let mut i: usize = 0;
        while i < pairs.len()
            invariant
                i <= pairs@.len(),
                poisoned == poisoned_count(pairs@, i as int),
                clean + poisoned == i,
            decreases pairs@.len() - i,
        {
            let f = Self::findings(pairs[i].0.as_str(), pairs[i].1.as_str());
            if Self::is_poisoned(f.as_slice()) {
                poisoned = poisoned + 1;
            } else {
                clean = clean + 1;
            }
            i = i + 1;
        }
        (clean, poisoned)
    }
}

/// How many of the first `n` pairs have a finding, that is, are poisoned.
pub open spec fn poisoned_count(pairs: Seq<(String, String)>, n: int) -> nat
    decreases n,
{
    if n <= 0 {
        0
    } else {
        poisoned_count(pairs, n - 1) + if poison_findings(pairs[n - 1].0@, pairs[n - 1].1@).len() > 0 {
            1nat
        } else {
            0nat
        }
    }
}

/// The total severity, in tenths, of the first `n` findings.
pub open spec fn severity_sum(fs: Seq<PoisonFinding>, n: int) -> nat
    decreases n,
{
    if n <= 0 {
        0
    } else {
        severity_sum(fs, n - 1) + severity_spec(fs[n - 1])
    }
}

} // verus!
