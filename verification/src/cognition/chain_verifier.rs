//! Consistency checks between the steps of a chain of reasoning: shared
//! vocabulary and claims negated from one step to a later one.
use vstd::prelude::*;
use crate::text::{chars_of, chars_eq, split_whitespace, words, views, byte_len, utf8_len, contains_str, contains_seq, string_from, is_numeric, unicode_numeric};
use crate::hdlm::codebook::dedup_keys;

verus! {

/// The shortest word, in bytes, that counts as vocabulary.
pub const MIN_WORD_BYTES: u128 = 4;

/// The words among the first `n` of at least four bytes.
pub open spec fn long_words_upto(ws: Seq<Seq<char>>, n: int) -> Seq<Seq<char>>
    decreases n,
{
    if n <= 0 {
        seq![]
    } else if utf8_len(ws[n - 1]) >= 4 {
        long_words_upto(ws, n - 1).push(ws[n - 1])
    } else {
        long_words_upto(ws, n - 1)
    }
}

/// The distinct words of at least four bytes of a text, in first-seen
/// order.
pub open spec fn vocabulary(s: Seq<char>) -> Seq<Seq<char>> {
    dedup_keys(long_words_upto(words(s), words(s).len() as int))
}

/// How many of the first `n` words of `a` also occur in `b`.
pub open spec fn shared_upto(a: Seq<Seq<char>>, b: Seq<Seq<char>>, n: int) -> nat
    decreases n,
{
    if n <= 0 {
        0
    } else {
        shared_upto(a, b, n - 1) + if b.contains(a[n - 1]) { 1nat } else { 0nat }
    }
}

/// The number of words of at least four bytes two texts share, each
/// counted once.
pub open spec fn shared_vocabulary(a: Seq<char>, b: Seq<char>) -> nat {
    shared_upto(vocabulary(a), vocabulary(b), vocabulary(a).len() as int)
}

/// Removing repeats keeps exactly the keys present, each once.
pub proof fn lemma_dedup_members(ks: Seq<Seq<char>>)
    ensures
        forall|x: Seq<char>| dedup_keys(ks).contains(x) <==> ks.contains(x),
        forall|a: int, b: int| 0 <= a < b < dedup_keys(ks).len() ==> #[trigger] dedup_keys(ks)[a] != #[trigger] dedup_keys(ks)[b],
    decreases ks.len(),
{
    broadcast use vstd::seq_lib::lemma_seq_contains_after_push;
    if ks.len() > 0 {
        let init = ks.drop_last();
        lemma_dedup_members(init);
        assert(ks =~= init.push(ks.last()));
        let d = dedup_keys(init);
        if !d.contains(ks.last()) {
            let e = d.push(ks.last());
            assert forall|a: int, b: int| 0 <= a < b < e.len() implies #[trigger] e[a] != #[trigger] e[b] by {
                if b == d.len() {
                    assert(d.contains(d[a]));
                } else {
                    assert(e[a] == d[a] && e[b] == d[b]);
                }
            }
        }
    }
}

/// The long words among the first `n` are exactly the words there of at
/// least four bytes.
pub proof fn lemma_long_words_members(ws: Seq<Seq<char>>, n: int)
    requires
        0 <= n <= ws.len(),
    ensures
        forall|x: Seq<char>| long_words_upto(ws, n).contains(x) <==> (ws.take(n).contains(x) && utf8_len(x) >= 4),
    decreases n,
{
    broadcast use vstd::seq_lib::lemma_seq_contains_after_push;
    if n == 0 {
        assert(ws.take(0) =~= Seq::<Seq<char>>::empty());
    } else {
        lemma_long_words_members(ws, n - 1);
        let p = ws.take(n - 1);
        let l = long_words_upto(ws, n - 1);
        assert(ws.take(n) =~= p.push(ws[n - 1]));
        assert forall|x: Seq<char>| long_words_upto(ws, n).contains(x) <==> (ws.take(n).contains(x) && utf8_len(x) >= 4) by {
            assert(l.contains(x) <==> (p.contains(x) && utf8_len(x) >= 4));
            assert(ws.take(n).contains(x) <==> (p.contains(x) || x == ws[n - 1]));
            if utf8_len(ws[n - 1]) >= 4 {
                assert(long_words_upto(ws, n) == l.push(ws[n - 1]));
                assert(l.push(ws[n - 1]).contains(x) <==> (l.contains(x) || x == ws[n - 1]));
            } else {
                assert(long_words_upto(ws, n) == l);
            }
        }
    }
}

/// The vocabulary of a text: its words of at least four bytes, each once.
pub proof fn lemma_vocabulary(s: Seq<char>)
    ensures
        forall|x: Seq<char>| vocabulary(s).contains(x) <==> (words(s).contains(x) && utf8_len(x) >= 4),
        forall|a: int, b: int| 0 <= a < b < vocabulary(s).len() ==> #[trigger] vocabulary(s)[a] != #[trigger] vocabulary(s)[b],
{
    let ws = words(s);
    let lw = long_words_upto(ws, ws.len() as int);
    lemma_long_words_members(ws, ws.len() as int);
    lemma_dedup_members(lw);
    assert(ws.take(ws.len() as int) =~= ws);
    assert forall|x: Seq<char>| vocabulary(s).contains(x) <==> (words(s).contains(x) && utf8_len(x) >= 4) by {
        assert(vocabulary(s) == dedup_keys(lw));
        assert(dedup_keys(lw).contains(x) <==> lw.contains(x));
        assert(lw.contains(x) <==> (ws.take(ws.len() as int).contains(x) && utf8_len(x) >= 4));
    }
}

/// The first `n` entries of `a` that `b` holds number at least one exactly
/// when one of them is in `b`, and at most `n`.
pub proof fn lemma_shared_upto(a: Seq<Seq<char>>, b: Seq<Seq<char>>, n: int)
    requires
        0 <= n <= a.len(),
    ensures
        shared_upto(a, b, n) <= n,
        shared_upto(a, b, n) > 0 <==> exists|i: int| 0 <= i < n && b.contains(#[trigger] a[i]),
    decreases n,
{
    if n > 0 {
        lemma_shared_upto(a, b, n - 1);
        if exists|i: int| 0 <= i < n && b.contains(#[trigger] a[i]) {
            let i = choose|i: int| 0 <= i < n && b.contains(#[trigger] a[i]);
            if i < n - 1 {
                assert(exists|j: int| 0 <= j < n - 1 && b.contains(#[trigger] a[j]));
            }
        }
    }
}

/// Two texts share long vocabulary exactly when some word of at least four
/// bytes occurs in both, and they share no more words than the first has.
pub proof fn lemma_shared_vocabulary(a: Seq<char>, b: Seq<char>)
    ensures
        shared_vocabulary(a, b) <= vocabulary(a).len(),
        shared_vocabulary(a, b) > 0 <==> exists|x: Seq<char>| #[trigger] words(a).contains(x) && words(b).contains(x)
            && utf8_len(x) >= 4,
{
    lemma_vocabulary(a);
    lemma_vocabulary(b);
    let va = vocabulary(a);
    let vb = vocabulary(b);
    lemma_shared_upto(va, vb, va.len() as int);
    if exists|x: Seq<char>| #[trigger] words(a).contains(x) && words(b).contains(x) && utf8_len(x) >= 4 {
        let x = choose|x: Seq<char>| #[trigger] words(a).contains(x) && words(b).contains(x) && utf8_len(x) >= 4;
        assert(va.contains(x));
        let i = choose|i: int| 0 <= i < va.len() && va[i] == x;
        assert(vb.contains(va[i]));
    }
    if shared_vocabulary(a, b) > 0 {
        let i = choose|i: int| 0 <= i < va.len() && vb.contains(#[trigger] va[i]);
        assert(va.contains(va[i]));
        assert(words(a).contains(va[i]) && words(b).contains(va[i]));
    }
}

/// The claims whose negation is looked for.
pub open spec fn claim_words() -> Seq<Seq<char>> {
    seq!["is"@, "can"@, "will"@, "does"@, "has"@, "true"@, "increases"@, "more"@, "always"@, "all"@]
}

/// The negations of the claims, in the same order.
pub open spec fn negation_words() -> Seq<Seq<char>> {
    seq!["is not"@, "cannot"@, "will not"@, "does not"@, "has no"@, "false"@, "decreases"@, "less"@, "never"@, "none"@]
}

/// The pairs, among the first `n`, whose claim occurs in `prev` and whose
/// negation occurs in `cur`, by index.
pub open spec fn negated_upto(prev: Seq<char>, cur: Seq<char>, n: int) -> Seq<int>
    decreases n,
{
    if n <= 0 {
        seq![]
    } else if contains_seq(prev, claim_words()[n - 1]) && contains_seq(cur, negation_words()[n - 1]) {
        negated_upto(prev, cur, n - 1).push(n - 1)
    } else {
        negated_upto(prev, cur, n - 1)
    }
}

/// The claim/negation pairs a later step is checked against: "is"/"is not",
/// "can"/"cannot", "will"/"will not", "does"/"does not", "has"/"has no",
/// "true"/"false", "increases"/"decreases", "more"/"less",
/// "always"/"never" and "all"/"none". A pair is found exactly when its
/// claim occurs in the earlier step and its negation in the later one, and
/// the pairs found come in table order, each once.
pub proof fn lemma_negation_pairs(prev: Seq<char>, cur: Seq<char>)
    ensures
        (contains_seq(prev, "is"@) && contains_seq(cur, "is not"@)) <==> negated_upto(prev, cur, 10).contains(0),
        (contains_seq(prev, "can"@) && contains_seq(cur, "cannot"@)) <==> negated_upto(prev, cur, 10).contains(1),
        (contains_seq(prev, "will"@) && contains_seq(cur, "will not"@)) <==> negated_upto(prev, cur, 10).contains(2),
        (contains_seq(prev, "does"@) && contains_seq(cur, "does not"@)) <==> negated_upto(prev, cur, 10).contains(3),
        (contains_seq(prev, "has"@) && contains_seq(cur, "has no"@)) <==> negated_upto(prev, cur, 10).contains(4),
        (contains_seq(prev, "true"@) && contains_seq(cur, "false"@)) <==> negated_upto(prev, cur, 10).contains(5),
        (contains_seq(prev, "increases"@) && contains_seq(cur, "decreases"@)) <==> negated_upto(prev, cur, 10).contains(6),
        (contains_seq(prev, "more"@) && contains_seq(cur, "less"@)) <==> negated_upto(prev, cur, 10).contains(7),
        (contains_seq(prev, "always"@) && contains_seq(cur, "never"@)) <==> negated_upto(prev, cur, 10).contains(8),
        (contains_seq(prev, "all"@) && contains_seq(cur, "none"@)) <==> negated_upto(prev, cur, 10).contains(9),
        forall|a: int, b: int| 0 <= a < b < negated_upto(prev, cur, 10).len()
            ==> #[trigger] negated_upto(prev, cur, 10)[a] < #[trigger] negated_upto(prev, cur, 10)[b],
{
    lemma_negated_members(prev, cur, 10);
}

/// The pairs found among the first `n` are exactly the indices below `n`
/// whose claim occurs in `prev` and whose negation occurs in `cur`, in
/// increasing order.
pub proof fn lemma_negated_members(prev: Seq<char>, cur: Seq<char>, n: int)
    requires
        0 <= n <= 10,
    ensures
        forall|k: int| 0 <= k < n ==> (negated_upto(prev, cur, n).contains(k) <==> (contains_seq(prev, claim_words()[k])
            && contains_seq(cur, negation_words()[k]))),
        forall|x: int| 0 <= x < negated_upto(prev, cur, n).len() ==> 0 <= #[trigger] negated_upto(prev, cur, n)[x] < n,
        forall|a: int, b: int| 0 <= a < b < negated_upto(prev, cur, n).len()
            ==> #[trigger] negated_upto(prev, cur, n)[a] < #[trigger] negated_upto(prev, cur, n)[b],
    decreases n,
{
    if n > 0 {
        lemma_negated_members(prev, cur, n - 1);
        let s = negated_upto(prev, cur, n - 1);
        let t = negated_upto(prev, cur, n);
        assert forall|k: int| 0 <= k < n implies (t.contains(k) <==> (contains_seq(prev, claim_words()[k])
            && contains_seq(cur, negation_words()[k]))) by {
            if k < n - 1 {
                if t.contains(k) {
                    let w = choose|w: int| 0 <= w < t.len() && t[w] == k;
                    if w < s.len() {
                        assert(s[w] == k);
                    }
                }
                if s.contains(k) {
                    let w = choose|w: int| 0 <= w < s.len() && s[w] == k;
                    assert(t[w] == k);
                }
            } else {
                if t.contains(k) {
                    let w = choose|w: int| 0 <= w < t.len() && t[w] == k;
                    if w < s.len() {
                        assert(s[w] < n - 1);
                    }
                }
                if contains_seq(prev, claim_words()[k]) && contains_seq(cur, negation_words()[k]) {
                    assert(t[t.len() - 1] == k);
                }
            }
        }
        assert forall|x: int| 0 <= x < t.len() implies 0 <= #[trigger] t[x] < n by {
            if x < s.len() {
                assert(t[x] == s[x]);
            }
        }
        assert forall|a: int, b: int| 0 <= a < b < t.len() implies #[trigger] t[a] < #[trigger] t[b] by {
            if b < s.len() {
                assert(t[a] == s[a] && t[b] == s[b]);
            } else {
                assert(t[a] == s[a]);
            }
        }
    }
}

/// The claim of the `i`-th pair.
pub fn claim_word(i: usize) -> (r: &'static str)
    requires
        i < 10,
    ensures
        r@ == claim_words()[i as int],
{
    match i {
        0 => "is",
        1 => "can",
        2 => "will",
        3 => "does",
        4 => "has",
        5 => "true",
        6 => "increases",
        7 => "more",
        8 => "always",
        _ => "all",
    }
}

/// The negation of the `i`-th pair.
pub fn negation_word(i: usize) -> (r: &'static str)
    requires
        i < 10,
    ensures
        r@ == negation_words()[i as int],
{
    match i {
        0 => "is not",
        1 => "cannot",
        2 => "will not",
        3 => "does not",
        4 => "has no",
        5 => "false",
        6 => "decreases",
        7 => "less",
        8 => "never",
        _ => "none",
    }
}

/// The distinct words of at least four bytes of a text, in first-seen
/// order.
pub fn vocabulary_of(s: &str) -> (r: Vec<Vec<char>>)
    ensures
        views(r@) == vocabulary(s@),
{
    let cs = chars_of(s);
    let ws = split_whitespace(cs.as_slice());
    let ghost vs = views(ws@);
    let ghost mut longs: Seq<Seq<char>> = seq![];
    let mut out: Vec<Vec<char>> = Vec::new();
    let mut i: usize = 0;
    while i < ws.len()
        invariant
            i <= ws@.len(),
            vs == views(ws@),
            vs == words(s@),
            longs == long_words_upto(vs, i as int),
            views(out@) == dedup_keys(longs),
        decreases ws@.len() - i,
    {
        assert(vs[i as int] == ws@[i as int]@);
        if byte_len(ws[i].as_slice()) >= MIN_WORD_BYTES {
            let mut seen = false;
            let mut k: usize = 0;
            while k < out.len()
                invariant
                    i < ws@.len(),
                    k <= out@.len(),
                    seen <==> exists|m: int| 0 <= m < k && views(out@)[m] == ws@[i as int]@,
                decreases out@.len() - k,
            {
                assert(views(out@)[k as int] == out@[k as int]@);
                if chars_eq(out[k].as_slice(), ws[i].as_slice()) {
                    seen = true;
                }
                k = k + 1;
            }
            proof {
                assert(longs.push(vs[i as int]).drop_last() =~= longs);
                longs = longs.push(vs[i as int]);
            }
            if !seen {
                let w = crate::text::to_vec(ws[i].as_slice());
                let ghost before = out@;
                out.push(w);
                assert(views(out@) =~= views(before).push(vs[i as int]));
            } else {
                assert(dedup_keys(longs.drop_last()).contains(vs[i as int]));
            }
        }
        i = i + 1;
    }
    out
}

/// The number of words of at least four bytes two texts share, each
/// counted once (see `shared_vocabulary`).
pub fn shared_long_words(a: &str, b: &str) -> (r: usize)
    ensures
        r == shared_vocabulary(a@, b@),
{
    let va = vocabulary_of(a);
    let vb = vocabulary_of(b);
    let ghost sa = views(va@);
    let ghost sb = views(vb@);
    let mut n: usize = 0;
    let mut i: usize = 0;
    while i < va.len()
        invariant
            i <= va@.len(),
            sa == views(va@),
            sb == views(vb@),
            n <= i,
            n == shared_upto(sa, sb, i as int),
        decreases va@.len() - i,
    {
        let mut found = false;
        let mut k: usize = 0;
        while k < vb.len()
            invariant
                i < va@.len(),
                sa == views(va@),
                sb == views(vb@),
                k <= vb@.len(),
                found <==> exists|m: int| 0 <= m < k && sb[m] == sa[i as int],
            decreases vb@.len() - k,
        {
            assert(sb[k as int] == vb@[k as int]@);
            assert(sa[i as int] == va@[i as int]@);
            if chars_eq(vb[k].as_slice(), va[i].as_slice()) {
                found = true;
            }
            k = k + 1;
        }
        if found {
            n = n + 1;
        }
        i = i + 1;
    }
    n
}

/// The indices of the claim/negation pairs whose claim occurs in `prev`
/// and whose negation occurs in `cur`.
pub fn negation_hits(prev: &str, cur: &str) -> (r: Vec<usize>)
    ensures
        r@.len() == negated_upto(prev@, cur@, 10).len(),
        forall|m: int| 0 <= m < r@.len() ==> #[trigger] r@[m] as int == negated_upto(prev@, cur@, 10)[m],
{
    let p = chars_of(prev);
    let c = chars_of(cur);
    let mut out: Vec<usize> = Vec::new();
    let mut i: usize = 0;
    while i < 10
        invariant
            i <= 10,
            p@ == prev@,
            c@ == cur@,
            claim_words().len() == 10,
            negation_words().len() == 10,
            out@.len() == negated_upto(prev@, cur@, i as int).len(),
            forall|m: int| 0 <= m < out@.len() ==> #[trigger] out@[m] as int == negated_upto(prev@, cur@, i as int)[m],
        decreases 10 - i,
    {
        if contains_str(p.as_slice(), claim_word(i)) && contains_str(c.as_slice(), negation_word(i)) {
            out.push(i);
        }
        i = i + 1;
    }
    out
}

/// The claim/negation pairs by which `cur` contradicts the earlier `prev`:
/// those whose claim occurs in `prev` and whose negation occurs in `cur`,
/// when the two share at least two words of four bytes or more (so that
/// they speak of the same thing); none otherwise. Each pair is given as its
/// claim and its negation.
pub fn contradicted_pairs(prev: &str, cur: &str) -> (r: Vec<(&'static str, &'static str)>)
    ensures
        shared_vocabulary(prev@, cur@) >= 2 ==> r@.len() == negated_upto(prev@, cur@, 10).len()
            && forall|m: int| 0 <= m < r@.len() ==> (#[trigger] r@[m]).0@ == claim_words()[negated_upto(prev@, cur@, 10)[m]]
                && r@[m].1@ == negation_words()[negated_upto(prev@, cur@, 10)[m]],
        shared_vocabulary(prev@, cur@) < 2 ==> r@.len() == 0,
{
    let mut out: Vec<(&'static str, &'static str)> = Vec::new();
    let overlap = shared_long_words(prev, cur);
    if overlap < 2 {
        return out;
    }
    let hits = negation_hits(prev, cur);
    proof {
        lemma_negated_in_range(prev@, cur@, 10);
    }
    let mut m: usize = 0;
    while m < hits.len()
        invariant
            m <= hits@.len(),
            hits@.len() == negated_upto(prev@, cur@, 10).len(),
            forall|x: int| 0 <= x < hits@.len() ==> #[trigger] hits@[x] as int == negated_upto(prev@, cur@, 10)[x],
            forall|x: int| 0 <= x < negated_upto(prev@, cur@, 10).len() ==> 0 <= #[trigger] negated_upto(prev@, cur@, 10)[x] < 10,
            out@.len() == m,
            forall|x: int| 0 <= x < m ==> (#[trigger] out@[x]).0@ == claim_words()[negated_upto(prev@, cur@, 10)[x]]
                && out@[x].1@ == negation_words()[negated_upto(prev@, cur@, 10)[x]],
        decreases hits@.len() - m,
    {
        let k = hits[m];
        assert(hits@[m as int] as int == negated_upto(prev@, cur@, 10)[m as int]);
        out.push((claim_word(k), negation_word(k)));
        m = m + 1;
    }
    out
}

/// Every pair index found among the first `n` is below `n`.
pub proof fn lemma_negated_in_range(prev: Seq<char>, cur: Seq<char>, n: int)
    ensures
        forall|x: int| 0 <= x < negated_upto(prev, cur, n).len() ==> 0 <= #[trigger] negated_upto(prev, cur, n)[x] < n,
    decreases n,
{
    if n > 0 {
        lemma_negated_in_range(prev, cur, n - 1);
        let s = negated_upto(prev, cur, n - 1);
        assert forall|x: int| 0 <= x < negated_upto(prev, cur, n).len() implies 0 <= #[trigger] negated_upto(prev, cur, n)[x] < n by {
            if x < s.len() {
                assert(s[x] < n - 1);
            }
        }
    }
}

/// Characters that end a number candidate: all but numeric characters,
/// `.` and `-`.
pub open spec fn number_separator(c: char) -> bool {
    !unicode_numeric(c) && c != '.' && c != '-'
}

/// Scanner state of splitting `s` at number separators: the finished
/// pieces and the piece being read.
pub open spec fn number_split_state(s: Seq<char>) -> (Seq<Seq<char>>, Seq<char>)
    decreases s.len(),
{
    if s.len() == 0 {
        (seq![], seq![])
    } else {
        let (done, cur) = number_split_state(s.drop_last());
        if number_separator(s.last()) {
            (done.push(cur), seq![])
        } else {
            (done, cur.push(s.last()))
        }
    }
}

/// The pieces of `s` between number separators, empty ones included.
pub open spec fn number_pieces(s: Seq<char>) -> Seq<Seq<char>> {
    let (done, cur) = number_split_state(s);
    done.push(cur)
}

/// The pieces among the first `n` that are not empty and shorter than
/// fifteen bytes.
pub open spec fn short_pieces_upto(ps: Seq<Seq<char>>, n: int) -> Seq<Seq<char>>
    decreases n,
{
    if n <= 0 {
        seq![]
    } else if ps[n - 1].len() > 0 && utf8_len(ps[n - 1]) < 15 {
        short_pieces_upto(ps, n - 1).push(ps[n - 1])
    } else {
        short_pieces_upto(ps, n - 1)
    }
}

/// The candidates for numbers in a text: its non-empty pieces between
/// number separators that are shorter than fifteen bytes, in order.
pub open spec fn number_candidates(s: Seq<char>) -> Seq<Seq<char>> {
    short_pieces_upto(number_pieces(s), number_pieces(s).len() as int)
}

/// The candidates for numbers in `text`, in order (see
/// `number_candidates`); which of them parse as numbers is left to the
/// caller.
pub fn number_tokens(text: &str) -> (r: Vec<String>)
    ensures
        r@.map_values(|p: String| p@) == number_candidates(text@),
{
    let s = chars_of(text);
    let mut done: Vec<Vec<char>> = Vec::new();
    let mut cur: Vec<char> = Vec::new();
    let mut i: usize = 0;
    while i < s.len()
        invariant
            i <= s@.len(),
            s@ == text@,
            (views(done@), cur@) == number_split_state(s@.take(i as int)),
        decreases s@.len() - i,
    {
        let c = s[i];
        assert(s@.take(i as int + 1).drop_last() =~= s@.take(i as int));
        if !is_numeric(c) && c != '.' && c != '-' {
            let ghost before = done@;
            let w = cur;
            done.push(w);
            cur = Vec::new();
            assert(views(done@) =~= views(before).push(w@));
        } else {
            cur.push(c);
        }
        i = i + 1;
    }
    assert(s@.take(s@.len() as int) =~= s@);
    let ghost before = done@;
    let ghost last = cur@;
    done.push(cur);
    assert(views(done@) =~= views(before).push(last));
    let ghost ps = views(done@);
    let mut out: Vec<String> = Vec::new();
    let mut k: usize = 0;
    while k < done.len()
        invariant
            k <= done@.len(),
            ps == views(done@),
            ps == number_pieces(text@),
            out@.map_values(|p: String| p@) == short_pieces_upto(ps, k as int),
        decreases done@.len() - k,
    {
        assert(ps[k as int] == done@[k as int]@);
        if done[k].len() > 0 && byte_len(done[k].as_slice()) < 15 {
            let ghost before_out = out@;
            out.push(string_from(done[k].as_slice()));
            assert(out@.map_values(|p: String| p@) =~= before_out.map_values(|p: String| p@).push(ps[k as int]));
        }
        k = k + 1;
    }
    out
}

} // verus!
