//! Text statistics behind the heuristic quality classifier: word counts,
//! vocabulary, structure marks, garbage patterns and odd characters.
use vstd::prelude::*;
use crate::text::{
    chars_of, trim_str, trim_seq, split_whitespace, words, views, lowercase_chars,
    unicode_lowercase, byte_len, utf8_len, contains_str, contains_seq, chars_eq, chars_eq_str,
    is_alphanumeric, unicode_alphanumeric, is_whitespace, is_ws, is_alphabetic, unicode_alphabetic,
};
use crate::hdlm::codebook::dedup_keys;
use crate::intelligence::data_connector::{strs_view};

verus! {

/// What `char::is_uppercase` returns: Unicode's `Uppercase` property.
pub uninterp spec fn unicode_uppercase(c: char) -> bool;

/// `char::is_uppercase`.
#[verifier::external_body]
fn is_uppercase(c: char) -> (r: bool)
    ensures
        r == unicode_uppercase(c),
{
    c.is_uppercase()
}

/// Words that carry no content.
pub open spec fn stop_words() -> Seq<Seq<char>> {
    seq!["the"@, "a"@, "an"@, "is"@, "are"@, "was"@, "were"@, "be"@, "been"@, "being"@, "have"@, "has"@, "had"@, "do"@, "does"@, "did"@, "will"@, "would"@, "could"@, "should"@, "may"@, "might"@, "shall"@, "can"@, "of"@, "in"@, "to"@, "for"@, "with"@, "on"@, "at"@, "from"@, "by"@, "and"@, "or"@, "but"@, "not"@, "no"@, "if"@, "then"@, "else"@, "this"@, "that"@, "these"@, "those"@, "it"@, "its"@]
}

/// Phrases that mark boilerplate or garbage.
pub open spec fn garbage_patterns() -> Seq<Seq<char>> {
    seq!["lorem ipsum"@, "test test test"@, "asdf"@, "null null"@, "undefined"@, "todo: "@, "fixme: "@, "placeholder"@]
}

/// Punctuation that does not count as an odd character.
pub open spec fn plain_punctuation() -> Seq<char> {
    ".,:;!?-()[]{}\"'"@
}

/// Counts of the characters of `s`, among the first `n`, that satisfy `p`.
pub open spec fn count_chars(s: Seq<char>, p: spec_fn(char) -> bool, n: int) -> nat
    decreases n,
{
    if n <= 0 {
        0
    } else {
        count_chars(s, p, n - 1) + if p(s[n - 1]) { 1nat } else { 0nat }
    }
}

/// A character neither alphanumeric, white space nor plain punctuation.
pub open spec fn is_odd_char(c: char) -> bool {
    !unicode_alphanumeric(c) && !is_ws(c) && !plain_punctuation().contains(c)
}

/// A sentence mark.
pub open spec fn is_sentence_mark(c: char) -> bool {
    c == '.' || c == '?' || c == '!'
}

/// How many of the first `n` phrases occur in `s`.
pub open spec fn pattern_hits(s: Seq<char>, pats: Seq<Seq<char>>, n: int) -> nat
    decreases n,
{
    if n <= 0 {
        0
    } else {
        pattern_hits(s, pats, n - 1) + if contains_seq(s, pats[n - 1]) { 1nat } else { 0nat }
    }
}

/// Among the first `n` words, how many are no stop word once lower-cased.
pub open spec fn content_count(ws: Seq<Seq<char>>, n: int) -> nat
    decreases n,
{
    if n <= 0 {
        0
    } else {
        content_count(ws, n - 1) + if stop_words().contains(unicode_lowercase(ws[n - 1])) {
            0nat
        } else {
            1nat
        }
    }
}

/// The statistics of a trimmed, non-empty text.
#[derive(Debug, Clone, Copy, PartialEq, Eq, Structural)]
pub struct TextStats {
    /// Length in bytes.
    pub bytes: u128,
    /// Number of white-space separated words.
    pub words: usize,
    /// Number of distinct lower-cased words.
    pub unique_words: usize,
    /// Number of words that are no stop word.
    pub content_words: usize,
    /// Number of sentence marks (".", "?", "!").
    pub sentence_marks: usize,
    /// Whether an ASCII digit occurs.
    pub has_digit: bool,
    /// Whether a comma occurs.
    pub has_comma: bool,
    /// Whether a colon, hyphen or bullet occurs.
    pub has_list_mark: bool,
    /// How many garbage patterns occur in the lower-cased text.
    pub garbage_hits: usize,
    /// Number of odd characters.
    pub odd_chars: usize,
    /// Whether every alphabetic character is upper case.
    pub all_caps: bool,
}

/// The statistics a text should have (its trimmed form, `t`).
pub open spec fn stats_of(t: Seq<char>) -> TextStats {
    let ws = words(t);
    TextStats {
        bytes: utf8_len(t) as u128,
        words: ws.len() as usize,
        unique_words: dedup_keys(ws.map_values(|w: Seq<char>| unicode_lowercase(w))).len() as usize,
        content_words: content_count(ws, ws.len() as int) as usize,
        sentence_marks: count_chars(t, |c: char| is_sentence_mark(c), t.len() as int) as usize,
        has_digit: exists|i: int| 0 <= i < t.len() && '0' <= #[trigger] t[i] <= '9',
        has_comma: t.contains(','),
        has_list_mark: t.contains(':') || t.contains('-') || t.contains('\u{2022}'),
        garbage_hits: pattern_hits(unicode_lowercase(t), garbage_patterns(), 8) as usize,
        odd_chars: count_chars(t, |c: char| is_odd_char(c), t.len() as int) as usize,
        all_caps: forall|i: int| 0 <= i < t.len() && unicode_alphabetic(#[trigger] t[i]) ==> unicode_uppercase(t[i]),
    }
}

fn garbage_pattern(i: usize) -> (r: &'static str)
    requires
        i < 8,
    ensures
        r@ == garbage_patterns()[i as int],
{
    match i {
        0 => "lorem ipsum",
        1 => "test test test",
        2 => "asdf",
        3 => "null null",
        4 => "undefined",
        5 => "todo: ",
        6 => "fixme: ",
        _ => "placeholder",
    }
}

/// Whether `c` is plain punctuation.
fn is_plain_punctuation(c: char) -> (r: bool)
    ensures
        r == plain_punctuation().contains(c),
{
    let p = chars_of(".,:;!?-()[]{}\"'");
    let mut i: usize = 0;
    while i < p.len()
        invariant
            p@ == plain_punctuation(),
            i <= p@.len(),
            forall|k: int| 0 <= k < i ==> p@[k] != c,
        decreases p@.len() - i,
    {
        if p[i] == c {
            return true;
        }
        i = i + 1;
    }
    false
}

/// Whether `c` is a stop word.
fn is_stop_word(c: &[char]) -> (r: bool)
    ensures
        r == stop_words().contains(c@),
{
    let stops = ["the", "a", "an", "is", "are", "was", "were", "be", "been", "being", "have", "has", "had", "do", "does", "did", "will", "would", "could", "should", "may", "might", "shall", "can", "of", "in", "to", "for", "with", "on", "at", "from", "by", "and", "or", "but", "not", "no", "if", "then", "else", "this", "that", "these", "those", "it", "its"];
    assert(strs_view(stops@) =~= stop_words());
    let mut s: usize = 0;
    while s < stops.len()
        invariant
            s <= stops@.len(),
            strs_view(stops@) == stop_words(),
            forall|m: int| 0 <= m < s ==> stop_words()[m] != c@,
        decreases stops@.len() - s,
    {
        assert(strs_view(stops@)[s as int] == stops@[s as int]@);
        if chars_eq_str(c, stops[s]) {
            assert(stop_words()[s as int] == c@);
            return true;
        }
        s = s + 1;
    }
    false
}

/// The statistics of a text, trimmed first; `None` when nothing is left.
pub fn text_stats(text: &str) -> (r: Option<TextStats>)
    ensures
        trim_seq(text@).len() == 0 ==> r is None,
        trim_seq(text@).len() > 0 ==> r == Some(stats_of(trim_seq(text@))),
{
    let t = trim_str(text);
    if t.len() == 0 {
        return None;
    }
    let ghost tv = t@;
    let bytes = byte_len(t.as_slice());
    let ws = split_whitespace(t.as_slice());
    let ghost vs = views(ws@);
    let mut uniq: Vec<Vec<char>> = Vec::new();
    let ghost mut lowers: Seq<Seq<char>> = seq![];
    let mut content: usize = 0;
    let mut i: usize = 0;
    while i < ws.len()
        invariant
            i <= ws@.len(),
            vs == views(ws@),
            lowers == vs.take(i as int).map_values(|w: Seq<char>| unicode_lowercase(w)),
            views(uniq@) == dedup_keys(lowers),
            content <= i,
            content == content_count(vs, i as int),
        decreases ws@.len() - i,
    {
        assert(vs[i as int] == ws@[i as int]@);
        let l = lowercase_chars(ws[i].as_slice());
        if !is_stop_word(l.as_slice()) {
            content = content + 1;
        }
        let mut seen = false;
        let mut k: usize = 0;
        while k < uniq.len()
            invariant
                k <= uniq@.len(),
                seen <==> exists|m: int| 0 <= m < k && views(uniq@)[m] == l@,
            decreases uniq@.len() - k,
        {
            assert(views(uniq@)[k as int] == uniq@[k as int]@);
            if chars_eq(uniq[k].as_slice(), l.as_slice()) {
                seen = true;
            }
            k = k + 1;
        }
        proof {
            assert(vs.take(i as int + 1).map_values(|w: Seq<char>| unicode_lowercase(w)) =~= lowers.push(l@));
            assert(lowers.push(l@).drop_last() =~= lowers);
        }
        if !seen {
            let ghost before = uniq@;
            let ghost lv = l@;
            uniq.push(l);
            assert(views(uniq@) =~= views(before).push(lv));
        } else {
            assert(dedup_keys(lowers).contains(l@)) by {
                let m = choose|m: int| 0 <= m < uniq@.len() && views(uniq@)[m] == l@;
                assert(dedup_keys(lowers)[m] == l@);
            }
        }
        proof {
            lowers = lowers.push(l@);
        }
        i = i + 1;
    }
    assert(vs.take(ws@.len() as int) =~= vs);
    let mut marks: usize = 0;
    let mut odd: usize = 0;
    let mut digit = false;
    let mut comma = false;
    let mut list_mark = false;
    let mut caps = true;
    let n = t.len();
    let mut j: usize = 0;
    while j < n
        invariant
            n == tv.len(),
            t@ == tv,
            j <= n,
            marks <= j,
            odd <= j,
            marks == count_chars(tv, |c: char| is_sentence_mark(c), j as int),
            odd == count_chars(tv, |c: char| is_odd_char(c), j as int),
            digit <==> exists|k: int| 0 <= k < j && '0' <= #[trigger] tv[k] <= '9',
            comma <==> exists|k: int| 0 <= k < j && #[trigger] tv[k] == ',',
            list_mark <==> exists|k: int| 0 <= k < j && (#[trigger] tv[k] == ':' || tv[k] == '-' || tv[k] == '\u{2022}'),
            caps <==> forall|k: int| 0 <= k < j && unicode_alphabetic(#[trigger] tv[k]) ==> unicode_uppercase(tv[k]),
        decreases n - j,
    {
        let c = t[j];
        if c == '.' || c == '?' || c == '!' {
            marks = marks + 1;
        }
        if !is_alphanumeric(c) && !is_whitespace(c) && !is_plain_punctuation(c) {
            odd = odd + 1;
        }
        if '0' <= c && c <= '9' {
            digit = true;
        }
        if c == ',' {
            comma = true;
        }
        if c == ':' || c == '-' || c == '\u{2022}' {
            list_mark = true;
        }
        if is_alphabetic(c) && !is_uppercase(c) {
            caps = false;
        }
        j = j + 1;
    }
    proof {
        assert(tv.contains(',') == comma) by {
            if comma {
                let k = choose|k: int| 0 <= k < n && tv[k] == ',';
                assert(tv[k] == ',');
            }
        }
        assert(tv.contains(':') || tv.contains('-') || tv.contains('\u{2022}') <==> list_mark) by {
            if list_mark {
                let k = choose|k: int| 0 <= k < n && (tv[k] == ':' || tv[k] == '-' || tv[k] == '\u{2022}');
                assert(tv[k] == tv[k]);
            }
        }
    }
    let lower = lowercase_chars(t.as_slice());
    let mut hits: usize = 0;
    let mut g: usize = 0;
    while g < 8
        invariant
            g <= 8,
            hits <= g,
            garbage_patterns().len() == 8,
            lower@ == unicode_lowercase(tv),
            hits == pattern_hits(lower@, garbage_patterns(), g as int),
        decreases 8 - g,
    {
        if contains_str(lower.as_slice(), garbage_pattern(g)) {
            hits = hits + 1;
        }
        g = g + 1;
    }
    let stats = TextStats {
        bytes,
        words: ws.len(),
        unique_words: uniq.len(),
        content_words: content,
        sentence_marks: marks,
        has_digit: digit,
        has_comma: comma,
        has_list_mark: list_mark,
        garbage_hits: hits,
        odd_chars: odd,
        all_caps: caps,
    };
    Some(stats)
}

} // verus!
